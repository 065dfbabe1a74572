//! Exhaustive one-flip hill climbing under the strict score.

use crate::problema::{calcular_fitness_binario, ProblemaEnsopado, LIMITE_SOMA};
use vstd::prelude::*;

verus! {

/// `sol` with the decision on ingredient `i` reversed.
pub open spec fn vizinho(sol: Seq<bool>, i: int) -> Seq<bool> {
    sol.update(i, !sol[i])
}

/// No single flip scores strictly higher than `sol` itself.
pub open spec fn otimo_local(p: &ProblemaEnsopado, sol: Seq<bool>) -> bool {
    forall|i: int|
        0 <= i < p.dimensao() ==> p.fitness_estrito(#[trigger] vizinho(sol, i))
            <= p.fitness_estrito(sol)
}

/// Flipping `j` improves on `sol`, no flip scores higher, and no flip of a
/// lower index scores as high.
pub open spec fn eh_melhor_vizinho(p: &ProblemaEnsopado, sol: Seq<bool>, j: int) -> bool {
    &&& 0 <= j < p.dimensao()
    &&& p.fitness_estrito(vizinho(sol, j)) > p.fitness_estrito(sol)
    &&& forall|i: int|
        0 <= i < p.dimensao() ==> p.fitness_estrito(#[trigger] vizinho(sol, i))
            <= p.fitness_estrito(vizinho(sol, j))
    &&& forall|i: int|
        0 <= i < j ==> p.fitness_estrito(#[trigger] vizinho(sol, i)) < p.fitness_estrito(
            vizinho(sol, j),
        )
}

/// The best improving flip among the first `k` ingredients, or -1 if none of
/// them improves on `sol`.
pub open spec fn melhor_ate(p: &ProblemaEnsopado, sol: Seq<bool>, k: int) -> int
    decreases k,
{
    if k <= 0 {
        -1
    } else {
        let ant = melhor_ate(p, sol, k - 1);
        if p.fitness_estrito(vizinho(sol, k - 1)) > valor_de(p, sol, ant) {
            k - 1
        } else {
            ant
        }
    }
}

/// The score after flipping `j`, or that of `sol` itself where `j` is negative.
pub open spec fn valor_de(p: &ProblemaEnsopado, sol: Seq<bool>, j: int) -> int {
    if j < 0 {
        p.fitness_estrito(sol)
    } else {
        p.fitness_estrito(vizinho(sol, j))
    }
}

/// One step of the climb: the best improving flip, or `sol` where there is none.
pub open spec fn passo_spec(p: &ProblemaEnsopado, sol: Seq<bool>) -> Seq<bool> {
    let j = melhor_ate(p, sol, p.dimensao());
    if j < 0 {
        sol
    } else {
        vizinho(sol, j)
    }
}

/// `sol` after `n` steps of the climb.
pub open spec fn iterar_passos(p: &ProblemaEnsopado, sol: Seq<bool>, n: nat) -> Seq<bool>
    decreases n,
{
    if n == 0 {
        sol
    } else {
        passo_spec(p, iterar_passos(p, sol, (n - 1) as nat))
    }
}

/// What `melhor_ate` finds: the lowest index among the flips that score
/// highest, where that is more than `sol` scores.
pub proof fn lema_melhor_ate(p: &ProblemaEnsopado, sol: Seq<bool>, k: int)
    requires
        0 <= k,
    ensures
        -1 <= melhor_ate(p, sol, k) < k,
        valor_de(p, sol, melhor_ate(p, sol, k)) >= p.fitness_estrito(sol),
        forall|i: int|
            0 <= i < k ==> p.fitness_estrito(#[trigger] vizinho(sol, i)) <= valor_de(
                p,
                sol,
                melhor_ate(p, sol, k),
            ),
        melhor_ate(p, sol, k) >= 0 ==> {
            &&& p.fitness_estrito(vizinho(sol, melhor_ate(p, sol, k))) > p.fitness_estrito(sol)
            &&& forall|i: int|
                0 <= i < melhor_ate(p, sol, k) ==> p.fitness_estrito(#[trigger] vizinho(sol, i))
                    < valor_de(p, sol, melhor_ate(p, sol, k))
        },
    decreases k,
{
    if k > 0 {
        lema_melhor_ate(p, sol, k - 1);
    }
}

/// The step moves exactly when `sol` is no local optimum, and then to its
/// best neighbor.
pub proof fn lema_passo(p: &ProblemaEnsopado, sol: Seq<bool>)
    ensures
        otimo_local(p, sol) <==> melhor_ate(p, sol, p.dimensao()) < 0,
        otimo_local(p, sol) ==> passo_spec(p, sol) == sol,
        !otimo_local(p, sol) ==> eh_melhor_vizinho(p, sol, melhor_ate(p, sol, p.dimensao())),
{
    lema_melhor_ate(p, sol, p.dimensao());
    let m = melhor_ate(p, sol, p.dimensao());
    if m >= 0 {
        assert(p.fitness_estrito(vizinho(sol, m)) > p.fitness_estrito(sol));
    }
}

/// A step never lowers the score, and raises it unless `sol` is a local optimum.
pub proof fn lema_passo_nao_piora(p: &ProblemaEnsopado, sol: Seq<bool>)
    ensures
        p.fitness_estrito(passo_spec(p, sol)) >= p.fitness_estrito(sol),
        !otimo_local(p, sol) ==> p.fitness_estrito(passo_spec(p, sol)) > p.fitness_estrito(sol),
{
    lema_passo(p, sol);
}

/// The scores along the climb never decrease.
pub proof fn lema_subida_monotona(p: &ProblemaEnsopado, sol: Seq<bool>, m: nat, n: nat)
    requires
        m <= n,
    ensures
        p.fitness_estrito(iterar_passos(p, sol, m)) <= p.fitness_estrito(
            iterar_passos(p, sol, n),
        ),
    decreases n,
{
    if m < n {
        lema_subida_monotona(p, sol, m, (n - 1) as nat);
        lema_passo_nao_piora(p, iterar_passos(p, sol, (n - 1) as nat));
    }
}

/// Steps add up: `m` more steps after `n` are `n + m` steps.
pub proof fn lema_passos_compostos(p: &ProblemaEnsopado, sol: Seq<bool>, n: nat, m: nat)
    ensures
        iterar_passos(p, iterar_passos(p, sol, n), m) == iterar_passos(p, sol, n + m),
    decreases m,
{
    if m > 0 {
        lema_passos_compostos(p, sol, n, (m - 1) as nat);
    }
}

/// `fim` is where the climb from `inicio` ends: a local optimum that some
/// number of steps reaches.
pub open spec fn fim_da_subida(p: &ProblemaEnsopado, inicio: Seq<bool>, fim: Seq<bool>) -> bool {
    &&& otimo_local(p, fim)
    &&& exists|n: nat| fim == iterar_passos(p, inicio, n)
}

/// The climb from a given start ends in one place only.
pub proof fn lema_fim_unico(p: &ProblemaEnsopado, inicio: Seq<bool>, a: Seq<bool>, b: Seq<bool>)
    requires
        fim_da_subida(p, inicio, a),
        fim_da_subida(p, inicio, b),
    ensures
        a == b,
{
    let na = choose|n: nat| a == iterar_passos(p, inicio, n);
    let nb = choose|n: nat| b == iterar_passos(p, inicio, n);
    if na <= nb {
        lema_passos_compostos(p, inicio, na, (nb - na) as nat);
        lema_ponto_fixo(p, a, (nb - na) as nat);
    } else {
        lema_passos_compostos(p, inicio, nb, (na - nb) as nat);
        lema_ponto_fixo(p, b, (na - nb) as nat);
    }
}

/// Climbing again from where a climb ended ends in the same place, with the
/// same score.
pub proof fn lema_subida_idempotente(
    p: &ProblemaEnsopado,
    inicio: Seq<bool>,
    uma: Seq<bool>,
    duas: Seq<bool>,
)
    requires
        fim_da_subida(p, inicio, uma),
        fim_da_subida(p, uma, duas),
    ensures
        duas == uma,
        p.fitness_estrito(duas) == p.fitness_estrito(uma),
{
    let n = choose|n: nat| duas == iterar_passos(p, uma, n);
    lema_ponto_fixo(p, uma, n);
}

/// A local optimum is a fixed point of the climb, however many steps are taken.
pub proof fn lema_ponto_fixo(p: &ProblemaEnsopado, sol: Seq<bool>, n: nat)
    requires
        otimo_local(p, sol),
    ensures
        iterar_passos(p, sol, n) == sol,
    decreases n,
{
    if n > 0 {
        lema_ponto_fixo(p, sol, (n - 1) as nat);
        lema_passo(p, sol);
    }
}

/// The best improving flip of `solucao` and the score it gives, if any flip
/// improves.
pub fn melhor_vizinho(solucao: &Vec<bool>, problema: &ProblemaEnsopado) -> (r: Option<
    (usize, i64),
>)
    requires
        problema.bem_formado(),
        problema.eh_solucao(solucao@),
    ensures
        match r {
            None => otimo_local(problema, solucao@),
            Some((j, f)) => {
                &&& !otimo_local(problema, solucao@)
                &&& j == melhor_ate(problema, solucao@, problema.dimensao())
                &&& eh_melhor_vizinho(problema, solucao@, j as int)
                &&& f == problema.fitness_estrito(vizinho(solucao@, j as int))
            },
        },
{
    let d = solucao.len();
    let mut candidato: Vec<bool> = Vec::new();
    let mut c: usize = 0;
    while c < d
        invariant
            0 <= c <= d,
            d == solucao@.len(),
            candidato@ == solucao@.subrange(0, c as int),
        decreases d - c,
    {
        candidato.push(solucao[c]);
        assert(candidato@ =~= solucao@.subrange(0, c as int + 1));
        c += 1;
    }
    assert(candidato@ =~= solucao@);
    let mut achou = false;
    let mut melhor: usize = 0;
    let mut valor: i64 = calcular_fitness_binario(solucao, problema);
    let mut i: usize = 0;
    while i < d
        invariant
            0 <= i <= d,
            d == problema.dimensao(),
            problema.bem_formado(),
            problema.eh_solucao(solucao@),
            candidato@ == solucao@,
            achou <==> melhor_ate(problema, solucao@, i as int) >= 0,
            achou ==> melhor == melhor_ate(problema, solucao@, i as int),
            valor == valor_de(problema, solucao@, melhor_ate(problema, solucao@, i as int)),
        decreases d - i,
    {
        let antes = candidato[i];
        candidato.set(i, !antes);
        assert(candidato@ =~= vizinho(solucao@, i as int));
        let f = calcular_fitness_binario(&candidato, problema);
        if f > valor {
            achou = true;
            melhor = i;
            valor = f;
        }
        candidato.set(i, antes);
        assert(candidato@ =~= solucao@);
        i += 1;
    }
    proof {
        lema_passo(problema, solucao@);
    }
    if achou {
        Some((melhor, valor))
    } else {
        None
    }
}

/// Climbs from `solucao_inicial` by best improving flips until none improves;
/// returns the local optimum reached and its strict score.
pub fn busca_local_exaustiva(solucao_inicial: &[bool], problema: &ProblemaEnsopado) -> (r: (
    Vec<bool>,
    i64,
))
    requires
        problema.bem_formado(),
        problema.eh_solucao(solucao_inicial@),
    ensures
        problema.eh_solucao(r.0@),
        r.1 == problema.fitness_estrito(r.0@),
        fim_da_subida(problema, solucao_inicial@, r.0@),
        r.1 >= problema.fitness_estrito(solucao_inicial@),
        otimo_local(problema, solucao_inicial@) ==> r.0@ == solucao_inicial@,
{
    let d = solucao_inicial.len();
    let mut solucao_atual: Vec<bool> = Vec::new();
    let mut c: usize = 0;
    while c < d
        invariant
            0 <= c <= d,
            d == solucao_inicial@.len(),
            solucao_atual@ == solucao_inicial@.subrange(0, c as int),
        decreases d - c,
    {
        solucao_atual.push(solucao_inicial[c]);
        assert(solucao_atual@ =~= solucao_inicial@.subrange(0, c as int + 1));
        c += 1;
    }
    assert(solucao_atual@ =~= solucao_inicial@);
    let mut fitness_atual: i64 = calcular_fitness_binario(&solucao_atual, problema);
    let ghost mut n: nat = 0;
    let mut parado = false;
    proof {
        problema.lema_parcial_limitado(solucao_atual@, problema.dimensao());
    }
    while !parado
        invariant
            problema.bem_formado(),
            problema.eh_solucao(solucao_atual@),
            solucao_atual@ == iterar_passos(problema, solucao_inicial@, n),
            fitness_atual == problema.fitness_estrito(solucao_atual@),
            fitness_atual >= problema.fitness_estrito(solucao_inicial@),
            fitness_atual <= LIMITE_SOMA,
            otimo_local(problema, solucao_inicial@) ==> solucao_atual@ == solucao_inicial@,
            parado ==> otimo_local(problema, solucao_atual@),
        decreases LIMITE_SOMA - fitness_atual + (if parado { 0int } else { 1int }),
    {
        match melhor_vizinho(&solucao_atual, problema) {
            None => {
                parado = true;
            },
            Some((j, f)) => {
                proof {
                    lema_passo(problema, solucao_atual@);
                    problema.lema_parcial_limitado(
                        vizinho(solucao_atual@, j as int),
                        problema.dimensao(),
                    );
                    n = n + 1;
                }
                let antes = solucao_atual[j];
                solucao_atual.set(j, !antes);
                fitness_atual = f;
            },
        }
    }
    (solucao_atual, fitness_atual)
}

} // verus!
