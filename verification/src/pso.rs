//! The swarm: seeding, encoding, the move of a particle, and the run.

use crate::aleatorio::{embaralhar, novo_gerador, sortear};
use crate::hc::{busca_local_exaustiva, fim_da_subida};
use crate::movimento::{
    inercia, inercia_spec, mover_coordenada, posicao_spec, velocidade_spec, LIMITE_COEFICIENTE,
    LIMITE_INERCIA,
    UNIDADE,
};
use crate::problema::{binarizar, binarizar_spec, calcular_fitness, ProblemaEnsopado, ESCALA};
use rand::rngs::ThreadRng;
use vstd::prelude::*;

verus! {

/// The selection with nothing in it.
pub open spec fn vazia(d: int) -> Seq<bool> {
    Seq::new(d as nat, |i: int| false)
}

/// The indices `0..d` in order.
pub open spec fn em_ordem(d: int) -> Seq<usize> {
    Seq::new(d as nat, |i: int| i as usize)
}

/// The selection built from the first `k` candidates of `ordem`: each in turn
/// is added where the selection stays feasible with it, and skipped otherwise.
pub open spec fn construir_spec(p: &ProblemaEnsopado, ordem: Seq<usize>, k: int) -> Seq<bool>
    decreases k,
{
    if k <= 0 {
        vazia(p.dimensao())
    } else {
        let ant = construir_spec(p, ordem, k - 1);
        let idx = ordem[k - 1] as int;
        if idx < p.dimensao() && p.viavel(ant.update(idx, true)) {
            ant.update(idx, true)
        } else {
            ant
        }
    }
}

/// The empty selection is feasible.
pub proof fn lema_vazia_viavel(p: &ProblemaEnsopado)
    requires
        p.bem_formado(),
    ensures
        p.viavel(vazia(p.dimensao())),
        p.sabor_total(vazia(p.dimensao())) == 0,
{
    p.lema_vazia(vazia(p.dimensao()), p.dimensao());
}

/// Whatever the order of the candidates, what is built from it is feasible.
pub proof fn lema_construir_viavel(p: &ProblemaEnsopado, ordem: Seq<usize>, k: int)
    requires
        p.bem_formado(),
    ensures
        p.viavel(construir_spec(p, ordem, k)),
    decreases k,
{
    if k <= 0 {
        lema_vazia_viavel(p);
    } else {
        lema_construir_viavel(p, ordem, k - 1);
    }
}

/// A vector of `d` times `false`.
pub fn solucao_vazia(d: usize) -> (sol: Vec<bool>)
    ensures
        sol@ == vazia(d as int),
{
    let mut sol: Vec<bool> = Vec::new();
    let mut i: usize = 0;
    while i < d
        invariant
            0 <= i <= d,
            sol@.len() == i,
            forall|t: int| 0 <= t < i ==> !sol@[t],
        decreases d - i,
    {
        sol.push(false);
        i += 1;
    }
    assert(sol@ =~= vazia(d as int));
    sol
}

/// Builds a feasible selection greedily from the candidates in the order given.
pub fn construir_solucao(problema: &ProblemaEnsopado, ordem: &Vec<usize>) -> (sol: Vec<bool>)
    requires
        problema.bem_formado(),
    ensures
        sol@ == construir_spec(problema, ordem@, ordem@.len() as int),
        problema.viavel(sol@),
{
    let d = problema.ingredientes.len();
    let mut solucao = solucao_vazia(d);
    let mut k: usize = 0;
    while k < ordem.len()
        invariant
            0 <= k <= ordem@.len(),
            d == problema.dimensao(),
            problema.bem_formado(),
            solucao@ == construir_spec(problema, ordem@, k as int),
        decreases ordem@.len() - k,
    {
        proof {
            lema_construir_viavel(problema, ordem@, k as int);
        }
        let idx = ordem[k];
        if idx < d {
            let ghost ant = solucao@;
            let antes = solucao[idx];
            solucao.set(idx, true);
            if !problema.eh_viavel(&solucao) {
                solucao.set(idx, antes);
                assert(solucao@ =~= ant);
            }
        }
        k += 1;
    }
    proof {
        lema_construir_viavel(problema, ordem@, ordem@.len() as int);
    }
    solucao
}

/// `sol` is what some order of all the candidates builds.
pub open spec fn eh_semente(p: &ProblemaEnsopado, sol: Seq<bool>) -> bool {
    exists|ordem: Seq<usize>|
        ordem.to_multiset() == em_ordem(p.dimensao()).to_multiset() && sol
            == #[trigger] construir_spec(p, ordem, ordem.len() as int)
}

/// Builds a feasible selection from the candidates in a random order.
pub fn gerar_solucao_valida(problema: &ProblemaEnsopado, rng: &mut ThreadRng) -> (sol: Vec<bool>)
    requires
        problema.bem_formado(),
    ensures
        problema.viavel(sol@),
        eh_semente(problema, sol@),
{
    let num_ingredientes = problema.ingredientes.len();
    let mut candidatos: Vec<usize> = Vec::new();
    let mut i: usize = 0;
    while i < num_ingredientes
        invariant
            0 <= i <= num_ingredientes,
            candidatos@.len() == i,
            forall|t: int| 0 <= t < i ==> candidatos@[t] == t,
        decreases num_ingredientes - i,
    {
        candidatos.push(i);
        i += 1;
    }
    assert(candidatos@ =~= em_ordem(problema.dimensao()));
    embaralhar(rng, &mut candidatos);
    construir_solucao(problema, &candidatos)
}

/// Where the coordinates of a selected ingredient start.
pub const ALTO_MIN: i64 = 700_000;

/// Where the coordinates of an unselected ingredient end.
pub const BAIXO_MAX: i64 = 300_000;

/// The bound, either way, of a velocity coordinate when a particle is made.
pub const VELOCIDADE_INICIAL: i64 = 100_000;

/// How far past the stagnation limit the counter may run before it is reset.
pub const FOLGA_REPULSAO: usize = 5;

/// The parameters of a run. Coefficients, velocities and the threshold are
/// counted in units of `1 / UNIDADE`.
#[derive(Debug, Clone, Copy)]
pub struct Configuracao {
    pub num_particulas: usize,
    pub num_iteracoes: usize,
    pub w_max: i64,
    pub w_min: i64,
    pub c1: i64,
    pub c2: i64,
    pub v_max: i64,
    pub limiar: i64,
    pub limite_estagnacao: usize,
}

impl Configuracao {
    /// The coefficients are in range, the velocity cap is not negative, and the
    /// threshold lies between the two bands of the encoding.
    pub open spec fn valida(&self) -> bool {
        &&& -LIMITE_COEFICIENTE <= self.w_max <= LIMITE_COEFICIENTE
        &&& -LIMITE_COEFICIENTE <= self.w_min <= LIMITE_COEFICIENTE
        &&& -LIMITE_COEFICIENTE <= self.c1 <= LIMITE_COEFICIENTE
        &&& -LIMITE_COEFICIENTE <= self.c2 <= LIMITE_COEFICIENTE
        &&& 0 <= self.v_max <= LIMITE_COEFICIENTE
        &&& BAIXO_MAX - 1 <= self.limiar <= ALTO_MIN
    }

    /// The bound that every velocity coordinate of a run keeps.
    pub open spec fn limite_velocidade(&self) -> int {
        if self.v_max > VELOCIDADE_INICIAL {
            self.v_max as int
        } else {
            VELOCIDADE_INICIAL as int
        }
    }

    /// 100 particles, 50 iterations, inertia from 0.9 to 0.4, both
    /// accelerations 2.0, velocity cap 1.0, threshold 0.5, stagnation limit 15.
    pub fn padrao() -> (c: Self)
        ensures
            c.valida(),
            c == (Configuracao {
                num_particulas: 100,
                num_iteracoes: 50,
                w_max: 900_000,
                w_min: 400_000,
                c1: 2_000_000,
                c2: 2_000_000,
                v_max: 1_000_000,
                limiar: 500_000,
                limite_estagnacao: 15,
            }),
    {
        Configuracao {
            num_particulas: 100,
            num_iteracoes: 50,
            w_max: 900_000,
            w_min: 400_000,
            c1: 2_000_000,
            c2: 2_000_000,
            v_max: 1_000_000,
            limiar: 500_000,
            limite_estagnacao: 15,
        }
    }

    /// Whether the configuration is valid.
    pub fn eh_valida(&self) -> (b: bool)
        ensures
            b == self.valida(),
    {
        -LIMITE_COEFICIENTE <= self.w_max && self.w_max <= LIMITE_COEFICIENTE
            && -LIMITE_COEFICIENTE <= self.w_min && self.w_min <= LIMITE_COEFICIENTE
            && -LIMITE_COEFICIENTE <= self.c1 && self.c1 <= LIMITE_COEFICIENTE
            && -LIMITE_COEFICIENTE <= self.c2 && self.c2 <= LIMITE_COEFICIENTE && 0 <= self.v_max
            && self.v_max <= LIMITE_COEFICIENTE && BAIXO_MAX - 1 <= self.limiar && self.limiar
            <= ALTO_MIN
    }
}

/// Every coordinate of `v` lies in `lo..=hi`.
pub open spec fn em_faixa(v: Seq<i64>, lo: int, hi: int) -> bool {
    forall|i: int| 0 <= i < v.len() ==> lo <= #[trigger] v[i] <= hi
}

/// `pos` encodes `sol`: a selected ingredient has its coordinate strictly
/// inside the upper band, an unselected one strictly inside the lower band.
pub open spec fn codifica(pos: Seq<i64>, sol: Seq<bool>) -> bool {
    &&& pos.len() == sol.len()
    &&& forall|i: int|
        0 <= i < pos.len() ==> if sol[i] {
            ALTO_MIN < #[trigger] pos[i] < UNIDADE
        } else {
            0 < pos[i] < BAIXO_MAX
        }
}

/// Thresholding an encoding between the two bands gives the selection back.
pub proof fn lema_codificacao_reversivel(pos: Seq<i64>, sol: Seq<bool>, limiar: i64)
    requires
        codifica(pos, sol),
        BAIXO_MAX - 1 <= limiar <= ALTO_MIN,
    ensures
        binarizar_spec(pos, limiar) == sol,
        em_faixa(pos, 0, UNIDADE as int),
{
    assert(binarizar_spec(pos, limiar) =~= sol);
}

/// Draws an encoding of `solucao`: each coordinate at random within its band.
pub fn gerar_posicao_de_solucao(solucao: &Vec<bool>, rng: &mut ThreadRng) -> (pos: Vec<i64>)
    ensures
        codifica(pos@, solucao@),
{
    let mut pos: Vec<i64> = Vec::new();
    let mut i: usize = 0;
    while i < solucao.len()
        invariant
            0 <= i <= solucao@.len(),
            codifica(pos@, solucao@.subrange(0, i as int)),
        decreases solucao@.len() - i,
    {
        let x: i64 = if solucao[i] {
            sortear(rng, ALTO_MIN + 1, UNIDADE)
        } else {
            sortear(rng, 1, BAIXO_MAX)
        };
        pos.push(x);
        i += 1;
    }
    assert(solucao@.subrange(0, i as int) =~= solucao@);
    pos
}

/// Draws a velocity of `d` coordinates, each at least the initial bound
/// negated and strictly below the initial bound.
pub fn gerar_velocidade(d: usize, rng: &mut ThreadRng) -> (vel: Vec<i64>)
    ensures
        vel@.len() == d,
        em_faixa(vel@, -VELOCIDADE_INICIAL, VELOCIDADE_INICIAL - 1),
{
    let mut vel: Vec<i64> = Vec::new();
    let mut i: usize = 0;
    while i < d
        invariant
            0 <= i <= d,
            vel@.len() == i,
            em_faixa(vel@, -VELOCIDADE_INICIAL, VELOCIDADE_INICIAL - 1),
        decreases d - i,
    {
        let v: i64 = sortear(rng, -VELOCIDADE_INICIAL, VELOCIDADE_INICIAL);
        vel.push(v);
        i += 1;
    }
    vel
}

/// A position of `d` coordinates, all zero.
pub fn posicao_nula(d: usize) -> (pos: Vec<i64>)
    ensures
        pos@.len() == d,
        forall|i: int| 0 <= i < d ==> pos@[i] == 0,
{
    let mut pos: Vec<i64> = Vec::new();
    let mut i: usize = 0;
    while i < d
        invariant
            0 <= i <= d,
            pos@.len() == i,
            forall|t: int| 0 <= t < i ==> pos@[t] == 0,
        decreases d - i,
    {
        pos.push(0);
        i += 1;
    }
    pos
}

/// A particle: where it is, how it moves, and the best it has found.
#[derive(Debug)]
pub struct Particula {
    pub posicao: Vec<i64>,
    pub velocidade: Vec<i64>,
    pub melhor_posicao: Vec<i64>,
    pub melhor_fitness: i64,
}

impl Particula {
    /// The three vectors have `d` coordinates; positions lie in the unit
    /// interval and velocities within `lv` of zero.
    pub open spec fn bem_formada(&self, d: int, lv: int) -> bool {
        &&& self.posicao@.len() == d
        &&& self.velocidade@.len() == d
        &&& self.melhor_posicao@.len() == d
        &&& em_faixa(self.posicao@, 0, UNIDADE as int)
        &&& em_faixa(self.velocidade@, -lv, lv)
        &&& em_faixa(self.melhor_posicao@, 0, UNIDADE as int)
    }

    /// A particle at a random position with a small random velocity, whose
    /// personal best is still unset: the zero position with a negative score.
    /// Every coordinate of the position is strictly below one, and every
    /// coordinate of the velocity strictly below the initial bound.
    pub fn new(dimensoes: usize) -> (p: Self)
        ensures
            p.bem_formada(dimensoes as int, VELOCIDADE_INICIAL as int),
            em_faixa(p.posicao@, 0, UNIDADE - 1),
            em_faixa(p.velocidade@, -VELOCIDADE_INICIAL, VELOCIDADE_INICIAL - 1),
            p.melhor_fitness == -ESCALA,
            forall|i: int| 0 <= i < dimensoes ==> p.melhor_posicao@[i] == 0,
    {
        let mut rng = novo_gerador();
        let mut posicao: Vec<i64> = Vec::new();
        let mut i: usize = 0;
        while i < dimensoes
            invariant
                0 <= i <= dimensoes,
                posicao@.len() == i,
                em_faixa(posicao@, 0, UNIDADE - 1),
            decreases dimensoes - i,
        {
            let x: i64 = sortear(&mut rng, 0, UNIDADE);
            posicao.push(x);
            i += 1;
        }
        let velocidade = gerar_velocidade(dimensoes, &mut rng);
        Particula {
            posicao,
            velocidade,
            melhor_posicao: posicao_nula(dimensoes),
            melhor_fitness: -ESCALA,
        }
    }
}

/// The social coefficient in force after `sem_melhora` iterations without
/// improvement: attraction up to the limit, repulsion beyond it.
pub open spec fn social_spec(c2: int, sem_melhora: int, limite: int) -> int {
    if sem_melhora > limite {
        -c2
    } else {
        c2
    }
}

/// The stagnation counter after a particle has read it: back to zero once it
/// has run past the limit by more than the slack.
pub open spec fn contador_spec(sem_melhora: int, limite: int) -> int {
    if sem_melhora > limite + FOLGA_REPULSAO {
        0
    } else {
        sem_melhora
    }
}

/// The social coefficient for the next particle, and the stagnation counter
/// after it.
pub fn coeficiente_social(c2: i64, sem_melhora: usize, limite: usize) -> (r: (i64, usize))
    requires
        -LIMITE_COEFICIENTE <= c2 <= LIMITE_COEFICIENTE,
    ensures
        r.0 == social_spec(c2 as int, sem_melhora as int, limite as int),
        r.1 == contador_spec(sem_melhora as int, limite as int),
{
    if sem_melhora > limite {
        if sem_melhora - limite > FOLGA_REPULSAO {
            (-c2, 0)
        } else {
            (-c2, sem_melhora)
        }
    } else {
        (c2, sem_melhora)
    }
}

/// Some pair of random factors takes the coordinate from velocity `v0` and
/// position `x0` to velocity `v1` and position `x1`.
pub open spec fn coordenada_movida(
    w: int,
    c1: int,
    c2: int,
    v_max: int,
    v0: int,
    x0: int,
    pb: int,
    gb: int,
    v1: int,
    x1: int,
) -> bool {
    exists|r1: int, r2: int|
        0 <= r1 < UNIDADE && 0 <= r2 < UNIDADE && v1 == #[trigger] velocidade_spec(
            w,
            c1,
            c2,
            v_max,
            v0,
            x0,
            pb,
            gb,
            r1,
            r2,
        ) && x1 == posicao_spec(x0, v1)
}

/// Moves every coordinate of a particle once: new velocity, then new position,
/// each by the formula of `mover_coordenada` with two random factors drawn for
/// that coordinate. The memory of the particle is left as it was.
pub fn mover_particula(
    p: &mut Particula,
    melhor_global: &Vec<i64>,
    cfg: &Configuracao,
    w: i64,
    c2: i64,
    rng: &mut ThreadRng,
)
    requires
        cfg.valida(),
        old(p).bem_formada(melhor_global@.len() as int, cfg.limite_velocidade()),
        em_faixa(melhor_global@, 0, UNIDADE as int),
        -LIMITE_INERCIA <= w <= LIMITE_INERCIA,
        -LIMITE_COEFICIENTE <= c2 <= LIMITE_COEFICIENTE,
    ensures
        final(p).bem_formada(melhor_global@.len() as int, cfg.v_max as int),
        final(p).melhor_posicao@ == old(p).melhor_posicao@,
        final(p).melhor_fitness == old(p).melhor_fitness,
        forall|t: int|
            0 <= t < melhor_global@.len() ==> coordenada_movida(
                w as int,
                cfg.c1 as int,
                c2 as int,
                cfg.v_max as int,
                old(p).velocidade@[t] as int,
                old(p).posicao@[t] as int,
                old(p).melhor_posicao@[t] as int,
                melhor_global@[t] as int,
                #[trigger] final(p).velocidade@[t] as int,
                final(p).posicao@[t] as int,
            ),
{
    let d = melhor_global.len();
    let ghost vel0 = p.velocidade@;
    let ghost pos0 = p.posicao@;
    let mut i: usize = 0;
    while i < d
        invariant
            0 <= i <= d,
            d == melhor_global@.len(),
            cfg.valida(),
            p.bem_formada(d as int, cfg.limite_velocidade()),
            forall|t: int| 0 <= t < i ==> -cfg.v_max <= #[trigger] p.velocidade@[t] <= cfg.v_max,
            vel0.len() == d,
            pos0.len() == d,
            forall|t: int| i <= t < d ==> #[trigger] p.velocidade@[t] == vel0[t],
            forall|t: int| i <= t < d ==> #[trigger] p.posicao@[t] == pos0[t],
            forall|t: int|
                0 <= t < i ==> coordenada_movida(
                    w as int,
                    cfg.c1 as int,
                    c2 as int,
                    cfg.v_max as int,
                    vel0[t] as int,
                    pos0[t] as int,
                    p.melhor_posicao@[t] as int,
                    melhor_global@[t] as int,
                    #[trigger] p.velocidade@[t] as int,
                    p.posicao@[t] as int,
                ),
            em_faixa(melhor_global@, 0, UNIDADE as int),
            -LIMITE_INERCIA <= w <= LIMITE_INERCIA,
            -LIMITE_COEFICIENTE <= c2 <= LIMITE_COEFICIENTE,
            p.melhor_posicao@ == old(p).melhor_posicao@,
            p.melhor_fitness == old(p).melhor_fitness,
            vel0 == old(p).velocidade@,
            pos0 == old(p).posicao@,
        decreases d - i,
    {
        let r1: i64 = sortear(rng, 0, UNIDADE);
        let r2: i64 = sortear(rng, 0, UNIDADE);
        let (nv, nx) = mover_coordenada(
            w,
            cfg.c1,
            c2,
            cfg.v_max,
            p.velocidade[i],
            p.posicao[i],
            p.melhor_posicao[i],
            melhor_global[i],
            r1,
            r2,
        );
        p.velocidade.set(i, nv);
        p.posicao.set(i, nx);
        i += 1;
    }
}

/// Scores a particle after its move and updates the two memories. Where the
/// score ties with the global best, the particle first climbs to a local
/// optimum and takes a fresh encoding of it.
pub fn avaliar_particula(
    p: &mut Particula,
    melhor_posicao_global: &mut Vec<i64>,
    melhor_fitness_global: &mut i64,
    problema: &ProblemaEnsopado,
    cfg: &Configuracao,
    rng: &mut ThreadRng,
)
    requires
        problema.bem_formado(),
        cfg.valida(),
        old(p).bem_formada(problema.dimensao(), cfg.limite_velocidade()),
        old(melhor_posicao_global)@.len() == problema.dimensao(),
        em_faixa(old(melhor_posicao_global)@, 0, UNIDADE as int),
    ensures
        final(p).bem_formada(problema.dimensao(), cfg.limite_velocidade()),
        final(p).velocidade@ == old(p).velocidade@,
        final(melhor_posicao_global)@.len() == problema.dimensao(),
        em_faixa(final(melhor_posicao_global)@, 0, UNIDADE as int),
        problema.fitness_penalizado(binarizar_spec(old(p).posicao@, cfg.limiar)) != *old(melhor_fitness_global) ==> final(p).posicao@ == old(p).posicao@,
        problema.fitness_penalizado(binarizar_spec(old(p).posicao@, cfg.limiar)) == *old(melhor_fitness_global) ==> fim_da_subida(
            problema,
            binarizar_spec(old(p).posicao@, cfg.limiar),
            binarizar_spec(final(p).posicao@, cfg.limiar),
        ),
        final(p).melhor_fitness == old(p).melhor_fitness ==> final(p).melhor_posicao@ == old(p).melhor_posicao@,
        final(p).melhor_fitness > old(p).melhor_fitness ==> codifica(
            final(p).melhor_posicao@,
            binarizar_spec(final(p).posicao@, cfg.limiar),
        ),
        *final(melhor_fitness_global) > *old(melhor_fitness_global) ==> codifica(
            final(melhor_posicao_global)@,
            binarizar_spec(final(p).posicao@, cfg.limiar),
        ),
        final(p).melhor_fitness == maior(
            old(p).melhor_fitness as int,
            problema.fitness_penalizado(binarizar_spec(final(p).posicao@, cfg.limiar)),
        ),
        *final(melhor_fitness_global) == maior(
            *old(melhor_fitness_global) as int,
            problema.fitness_penalizado(binarizar_spec(final(p).posicao@, cfg.limiar)),
        ),
        *final(melhor_fitness_global) == *old(melhor_fitness_global) ==> final(melhor_posicao_global)@ == old(melhor_posicao_global)@,
        *final(melhor_fitness_global) > *old(melhor_fitness_global) ==> *final(melhor_fitness_global) == problema.fitness_penalizado(
            binarizar_spec(final(melhor_posicao_global)@, cfg.limiar),
        ),
{
    let mut fitness_atual = calcular_fitness(&p.posicao, problema, cfg.limiar);
    if fitness_atual == *melhor_fitness_global {
        let solucao_pso = binarizar(&p.posicao, cfg.limiar);
        let (solucao_final, _fitness_final) = busca_local_exaustiva(solucao_pso.as_slice(), problema);
        p.posicao = gerar_posicao_de_solucao(&solucao_final, rng);
        proof {
            lema_codificacao_reversivel(p.posicao@, solucao_final@, cfg.limiar);
        }
        fitness_atual = calcular_fitness(&p.posicao, problema, cfg.limiar);
    }
    if fitness_atual > p.melhor_fitness {
        p.melhor_fitness = fitness_atual;
        let solucao_binaria_melhorada = binarizar(&p.posicao, cfg.limiar);
        p.melhor_posicao = gerar_posicao_de_solucao(&solucao_binaria_melhorada, rng);
        proof {
            lema_codificacao_reversivel(
                p.melhor_posicao@,
                solucao_binaria_melhorada@,
                cfg.limiar,
            );
        }
    }
    if fitness_atual > *melhor_fitness_global {
        *melhor_fitness_global = fitness_atual;
        let solucao_binaria_melhorada = binarizar(&p.posicao, cfg.limiar);
        *melhor_posicao_global = gerar_posicao_de_solucao(&solucao_binaria_melhorada, rng);
        proof {
            lema_codificacao_reversivel(
                melhor_posicao_global@,
                solucao_binaria_melhorada@,
                cfg.limiar,
            );
        }
    }
}

/// The larger of two numbers.
pub open spec fn maior(a: int, b: int) -> int {
    if a >= b {
        a
    } else {
        b
    }
}

/// The particles of a run and the best position that any of them has found.
#[derive(Debug)]
pub struct Enxame {
    pub particulas: Vec<Particula>,
    pub melhor_posicao_global: Vec<i64>,
    pub melhor_fitness_global: i64,
}

impl Enxame {
    /// Every particle is well formed, the global best position lies in the
    /// unit hypercube, and, once there is a particle, the global best score
    /// is the penalized score of that position.
    pub open spec fn bem_formado(&self, problema: &ProblemaEnsopado, cfg: &Configuracao) -> bool {
        &&& forall|i: int|
            0 <= i < self.particulas@.len() ==> (#[trigger] self.particulas@[i]).bem_formada(
                problema.dimensao(),
                cfg.limite_velocidade(),
            )
        &&& self.melhor_posicao_global@.len() == problema.dimensao()
        &&& em_faixa(self.melhor_posicao_global@, 0, UNIDADE as int)
        &&& self.particulas@.len() > 0 ==> self.melhor_fitness_global
            == problema.fitness_penalizado(
            binarizar_spec(self.melhor_posicao_global@, cfg.limiar),
        )
        &&& self.particulas@.len() == 0 ==> forall|i: int|
            0 <= i < self.melhor_posicao_global@.len() ==> self.melhor_posicao_global@[i] == 0
    }
}

/// What holds of a particle when the swarm is made: its position and its
/// personal best position both encode one feasible selection, its personal
/// best score is the flavor of that selection, and its velocity is small.
pub open spec fn particula_semeada(
    problema: &ProblemaEnsopado,
    cfg: &Configuracao,
    q: &Particula,
) -> bool {
    let s = binarizar_spec(q.posicao@, cfg.limiar);
    &&& problema.viavel(s)
    &&& codifica(q.posicao@, s)
    &&& codifica(q.melhor_posicao@, s)
    &&& q.melhor_fitness == problema.sabor_total(s)
    &&& em_faixa(q.velocidade@, -VELOCIDADE_INICIAL, VELOCIDADE_INICIAL - 1)
}

/// Makes the swarm: each particle encodes a feasible seed. The global best is
/// a fresh encoding of the seed of the first particle that scores highest.
/// Returns the swarm, that seed and its score.
pub fn inicializar_enxame(problema: &ProblemaEnsopado, cfg: &Configuracao, rng: &mut ThreadRng) -> (r:
    (Enxame, Vec<bool>, i64))
    requires
        problema.bem_formado(),
        cfg.valida(),
    ensures
        r.0.bem_formado(problema, cfg),
        r.0.particulas@.len() == cfg.num_particulas,
        forall|i: int|
            0 <= i < r.0.particulas@.len() ==> particula_semeada(
                problema,
                cfg,
                #[trigger] &r.0.particulas@[i],
            ) && r.0.particulas@[i].melhor_fitness <= r.0.melhor_fitness_global,
        cfg.num_particulas > 0 ==> {
            &&& problema.viavel(r.1@)
            &&& r.2 == problema.sabor_total(r.1@)
            &&& r.2 == r.0.melhor_fitness_global
            &&& codifica(r.0.melhor_posicao_global@, r.1@)
            &&& eh_semente(problema, r.1@)
            &&& exists|j: int|
                {
                    &&& 0 <= j < r.0.particulas@.len()
                    &&& r.1@ == binarizar_spec(
                        (#[trigger] r.0.particulas@[j]).posicao@,
                        cfg.limiar,
                    )
                    &&& forall|i: int|
                        0 <= i < j ==> (#[trigger] r.0.particulas@[i]).melhor_fitness < r.2
                }
        },
        cfg.num_particulas == 0 ==> r.1@.len() == 0 && r.2 == 0 && r.0.melhor_fitness_global
            == i64::MIN,
{
    let d = problema.ingredientes.len();
    let ghost mut primeiro: int = 0;
    let mut particulas: Vec<Particula> = Vec::new();
    let mut melhor_posicao_global = posicao_nula(d);
    let mut melhor_fitness_global: i64 = i64::MIN;
    let mut solucao_inicial: Vec<bool> = Vec::new();
    let mut fitness_inicial: i64 = 0;
    let mut k: usize = 0;
    while k < cfg.num_particulas
        invariant
            0 <= k <= cfg.num_particulas,
            d == problema.dimensao(),
            problema.bem_formado(),
            cfg.valida(),
            particulas@.len() == k,
            forall|i: int|
                0 <= i < k ==> (#[trigger] particulas@[i]).bem_formada(
                    d as int,
                    cfg.limite_velocidade(),
                ),
            melhor_posicao_global@.len() == d,
            em_faixa(melhor_posicao_global@, 0, UNIDADE as int),
            k == 0 ==> {
                &&& melhor_fitness_global == i64::MIN
                &&& solucao_inicial@.len() == 0
                &&& fitness_inicial == 0
                &&& forall|i: int| 0 <= i < d ==> melhor_posicao_global@[i] == 0
            },
            forall|i: int|
                0 <= i < k ==> particula_semeada(problema, cfg, #[trigger] &particulas@[i])
                    && particulas@[i].melhor_fitness <= melhor_fitness_global,
            k > 0 ==> {
                &&& melhor_fitness_global == problema.fitness_penalizado(
                    binarizar_spec(melhor_posicao_global@, cfg.limiar),
                )
                &&& problema.viavel(solucao_inicial@)
                &&& fitness_inicial == problema.sabor_total(solucao_inicial@)
                &&& fitness_inicial == melhor_fitness_global
                &&& codifica(melhor_posicao_global@, solucao_inicial@)
                &&& eh_semente(problema, solucao_inicial@)
                &&& 0 <= primeiro < k
                &&& solucao_inicial@ == binarizar_spec(particulas@[primeiro].posicao@, cfg.limiar)
                &&& forall|i: int|
                    0 <= i < primeiro ==> (#[trigger] particulas@[i]).melhor_fitness
                        < fitness_inicial
            },
        decreases cfg.num_particulas - k,
    {
        let solucao_valida = gerar_solucao_valida(problema, rng);
        let posicao = gerar_posicao_de_solucao(&solucao_valida, rng);
        let velocidade = gerar_velocidade(d, rng);
        proof {
            lema_codificacao_reversivel(posicao@, solucao_valida@, cfg.limiar);
            problema.lema_parcial_limitado(solucao_valida@, problema.dimensao());
        }
        let fitness = calcular_fitness(&posicao, problema, cfg.limiar);
        let melhor_posicao = gerar_posicao_de_solucao(&solucao_valida, rng);
        proof {
            lema_codificacao_reversivel(melhor_posicao@, solucao_valida@, cfg.limiar);
        }
        if fitness > melhor_fitness_global {
            melhor_fitness_global = fitness;
            melhor_posicao_global = gerar_posicao_de_solucao(&solucao_valida, rng);
            proof {
                lema_codificacao_reversivel(
                    melhor_posicao_global@,
                    solucao_valida@,
                    cfg.limiar,
                );
            }
            solucao_inicial = solucao_valida;
            fitness_inicial = fitness;
            proof {
                primeiro = k as int;
            }
        }
        particulas.push(
            Particula { posicao, velocidade, melhor_posicao, melhor_fitness: fitness },
        );
        k += 1;
    }
    (Enxame { particulas, melhor_posicao_global, melhor_fitness_global }, solucao_inicial, fitness_inicial)
}

/// The stagnation counter at the end of an iteration that began with
/// `sem_melhora`: zero where the global best improved, else one more than
/// what the particles left of it.
pub open spec fn estagnacao_spec(
    melhorou: bool,
    num_particulas: int,
    sem_melhora: int,
    limite: int,
) -> int {
    if melhorou {
        0
    } else if num_particulas == 0 {
        sem_melhora + 1
    } else {
        contador_spec(sem_melhora, limite) + 1
    }
}

/// What holds of a particle after an iteration: its velocity is capped, its
/// personal best score is the larger of what it was and the score of its new
/// position, and neither exceeds the global best score.
pub open spec fn particula_iterada(
    problema: &ProblemaEnsopado,
    cfg: &Configuracao,
    antes: &Particula,
    depois: &Particula,
    melhor_fitness_global: i64,
) -> bool {
    let f = problema.fitness_penalizado(binarizar_spec(depois.posicao@, cfg.limiar));
    &&& em_faixa(depois.velocidade@, -cfg.v_max, cfg.v_max as int)
    &&& depois.melhor_fitness == maior(antes.melhor_fitness as int, f)
    &&& depois.melhor_fitness >= antes.melhor_fitness
    &&& f <= melhor_fitness_global
}

/// The stagnation counter that particle `i` of an iteration reads: the one
/// the iteration began with for the first particle, and what the first
/// particle left of it for the others.
pub open spec fn contador_visto(sem_melhora: int, limite: int, i: int) -> int {
    if i == 0 {
        sem_melhora
    } else {
        contador_spec(sem_melhora, limite)
    }
}

/// `depois` is `antes` after one step with inertia `w` and social coefficient
/// `c2`, taken while the global best was at `gb` with score `gf`: every
/// coordinate moved by the formula to the position `meio`, which the particle
/// keeps unless its score ties with `gf`; then it holds the local optimum that
/// the climb from `meio` ends in.
pub open spec fn passo_com(
    problema: &ProblemaEnsopado,
    cfg: &Configuracao,
    w: int,
    c2: int,
    antes: &Particula,
    depois: &Particula,
    gb: Seq<i64>,
    gf: i64,
    meio: Seq<i64>,
) -> bool {
    &&& gb.len() == problema.dimensao()
    &&& meio.len() == problema.dimensao()
    &&& em_faixa(gb, 0, UNIDADE as int)
    &&& forall|t: int|
        0 <= t < problema.dimensao() ==> coordenada_movida(
            w,
            cfg.c1 as int,
            c2,
            cfg.v_max as int,
            antes.velocidade@[t] as int,
            antes.posicao@[t] as int,
            antes.melhor_posicao@[t] as int,
            gb[t] as int,
            #[trigger] depois.velocidade@[t] as int,
            meio[t] as int,
        )
    &&& if problema.fitness_penalizado(binarizar_spec(meio, cfg.limiar)) == gf {
        fim_da_subida(
            problema,
            binarizar_spec(meio, cfg.limiar),
            binarizar_spec(depois.posicao@, cfg.limiar),
        )
    } else {
        depois.posicao@ == meio
    }
}

/// `depois` is `antes` after one step with inertia `w` and social coefficient
/// `c2`, for some global best that scores no less than `gfit0`; for the first
/// particle of an iteration that global best is `gpos0` with score `gfit0`.
pub open spec fn particula_passou(
    problema: &ProblemaEnsopado,
    cfg: &Configuracao,
    w: int,
    c2: int,
    antes: &Particula,
    depois: &Particula,
    gpos0: Seq<i64>,
    gfit0: i64,
    primeira: bool,
) -> bool {
    exists|gb: Seq<i64>, gf: i64, meio: Seq<i64>|
        #![trigger passo_com(problema, cfg, w, c2, antes, depois, gb, gf, meio)]
        passo_com(problema, cfg, w, c2, antes, depois, gb, gf, meio) && gf >= gfit0 && (primeira
            ==> gb == gpos0 && gf == gfit0)
}

/// One iteration: every particle in turn moves, is scored, and updates the
/// memories. Returns the stagnation counter for the next iteration. Neither
/// the global best score nor any personal best score ever falls.
pub fn iterar_enxame(
    enxame: &mut Enxame,
    problema: &ProblemaEnsopado,
    cfg: &Configuracao,
    iter: usize,
    sem_melhora: usize,
    rng: &mut ThreadRng,
) -> (novo: usize)
    requires
        problema.bem_formado(),
        cfg.valida(),
        old(enxame).bem_formado(problema, cfg),
        iter < cfg.num_iteracoes,
        sem_melhora <= iter,
    ensures
        final(enxame).bem_formado(problema, cfg),
        final(enxame).particulas@.len() == old(enxame).particulas@.len(),
        final(enxame).melhor_fitness_global >= old(enxame).melhor_fitness_global,
        forall|i: int|
            0 <= i < old(enxame).particulas@.len() ==> particula_iterada(
                problema,
                cfg,
                &old(enxame).particulas@[i],
                #[trigger] &final(enxame).particulas@[i],
                final(enxame).melhor_fitness_global,
            ),
        forall|i: int|
            0 <= i < old(enxame).particulas@.len() ==> particula_passou(
                problema,
                cfg,
                inercia_spec(
                    cfg.w_max as int,
                    cfg.w_min as int,
                    iter as int,
                    cfg.num_iteracoes as int,
                ),
                social_spec(
                    cfg.c2 as int,
                    contador_visto(sem_melhora as int, cfg.limite_estagnacao as int, i),
                    cfg.limite_estagnacao as int,
                ),
                &old(enxame).particulas@[i],
                #[trigger] &final(enxame).particulas@[i],
                old(enxame).melhor_posicao_global@,
                old(enxame).melhor_fitness_global,
                i == 0,
            ),
        final(enxame).melhor_fitness_global == old(enxame).melhor_fitness_global ==> final(enxame).melhor_posicao_global@ == old(enxame).melhor_posicao_global@,
        novo == estagnacao_spec(
            final(enxame).melhor_fitness_global > old(enxame).melhor_fitness_global,
            old(enxame).particulas@.len() as int,
            sem_melhora as int,
            cfg.limite_estagnacao as int,
        ),
        novo <= iter + 1,
{
    let gbest_anterior = enxame.melhor_fitness_global;
    let w = inercia(cfg.w_max, cfg.w_min, iter, cfg.num_iteracoes);
    let n = enxame.particulas.len();
    let ghost antes = enxame.particulas@;
    let mut iteracoes_sem_melhora = sem_melhora;
    let mut i: usize = 0;
    while i < n
        invariant
            0 <= i <= n,
            n == enxame.particulas@.len(),
            n == antes.len(),
            problema.bem_formado(),
            cfg.valida(),
            enxame.bem_formado(problema, cfg),
            -LIMITE_INERCIA <= w <= LIMITE_INERCIA,
            enxame.melhor_fitness_global >= gbest_anterior,
            forall|t: int| i <= t < n ==> #[trigger] enxame.particulas@[t] == antes[t],
            forall|t: int|
                0 <= t < i ==> particula_iterada(
                    problema,
                    cfg,
                    &antes[t],
                    #[trigger] &enxame.particulas@[t],
                    enxame.melhor_fitness_global,
                ),
            forall|t: int|
                0 <= t < i ==> particula_passou(
                    problema,
                    cfg,
                    w as int,
                    social_spec(
                        cfg.c2 as int,
                        contador_visto(sem_melhora as int, cfg.limite_estagnacao as int, t),
                        cfg.limite_estagnacao as int,
                    ),
                    &antes[t],
                    #[trigger] &enxame.particulas@[t],
                    old(enxame).melhor_posicao_global@,
                    gbest_anterior,
                    t == 0,
                ),
            w == inercia_spec(
                cfg.w_max as int,
                cfg.w_min as int,
                iter as int,
                cfg.num_iteracoes as int,
            ),
            enxame.melhor_fitness_global == gbest_anterior ==> enxame.melhor_posicao_global@
                == old(enxame).melhor_posicao_global@,
            i == 0 ==> enxame.melhor_fitness_global == gbest_anterior,
            gbest_anterior == old(enxame).melhor_fitness_global,
            antes == old(enxame).particulas@,
            iteracoes_sem_melhora == (if i == 0 {
                sem_melhora as int
            } else {
                contador_spec(sem_melhora as int, cfg.limite_estagnacao as int)
            }),
        decreases n - i,
    {
        let (c2_ajustado, contador) = coeficiente_social(
            cfg.c2,
            iteracoes_sem_melhora,
            cfg.limite_estagnacao,
        );
        iteracoes_sem_melhora = contador;
        let ghost gb = enxame.melhor_posicao_global@;
        let ghost gf = enxame.melhor_fitness_global;
        mover_particula(
            &mut enxame.particulas[i],
            &enxame.melhor_posicao_global,
            cfg,
            w,
            c2_ajustado,
            rng,
        );
        let ghost meio = enxame.particulas@[i as int].posicao@;
        avaliar_particula(
            &mut enxame.particulas[i],
            &mut enxame.melhor_posicao_global,
            &mut enxame.melhor_fitness_global,
            problema,
            cfg,
            rng,
        );
        proof {
            assert(passo_com(
                problema,
                cfg,
                w as int,
                c2_ajustado as int,
                &antes[i as int],
                &enxame.particulas@[i as int],
                gb,
                gf,
                meio,
            ));
        }
        i += 1;
    }
    if enxame.melhor_fitness_global > gbest_anterior {
        0
    } else {
        iteracoes_sem_melhora + 1
    }
}

/// What a run returns for a given final global best: its selection with its
/// total flavor, and the initial selection with its score; or, where that
/// selection is not feasible, the empty selection with flavor zero, twice.
pub open spec fn conclusao_spec(
    problema: &ProblemaEnsopado,
    limiar: i64,
    melhor_posicao_global: Seq<i64>,
    solucao_inicial: Seq<bool>,
    fitness_inicial: i64,
) -> (Seq<bool>, int, Seq<bool>, int) {
    let s = binarizar_spec(melhor_posicao_global, limiar);
    if problema.viavel(s) {
        (s, problema.sabor_total(s), solucao_inicial, fitness_inicial as int)
    } else {
        (vazia(problema.dimensao()), 0, vazia(problema.dimensao()), 0)
    }
}

/// What a run may return: for some seed `s0` and some selection `g` that the
/// penalized score ranks no lower than the flavor of `s0`, `g` with its flavor
/// and `s0` with its flavor where `g` is feasible, and else the empty
/// selection with no flavor, twice.
pub open spec fn resultado_de_corrida(
    problema: &ProblemaEnsopado,
    r: (Seq<bool>, int, Seq<bool>, int),
) -> bool {
    exists|g: Seq<bool>, s0: Seq<bool>| #[trigger]
        corrida_com(problema, r, g, s0)
}

/// `r` is what a run returns whose final global best is `g` and whose best
/// initial seed is `s0`.
pub open spec fn corrida_com(
    problema: &ProblemaEnsopado,
    r: (Seq<bool>, int, Seq<bool>, int),
    g: Seq<bool>,
    s0: Seq<bool>,
) -> bool {
    &&& eh_semente(problema, s0)
    &&& problema.eh_solucao(g)
    &&& problema.fitness_penalizado(g) >= problema.sabor_total(s0)
    &&& if problema.viavel(g) {
        r.0 == g && r.1 == problema.sabor_total(g) && r.2 == s0 && r.3 == problema.sabor_total(
            s0,
        )
    } else {
        r.0 == vazia(problema.dimensao()) && r.1 == 0 && r.2 == vazia(problema.dimensao())
            && r.3 == 0
    }
}

/// Where the penalized score ranks every infeasible selection below the
/// flavor of every seed, a run never returns the fallback: it returns a
/// feasible selection that tastes no worse than the seed it returns with it.
pub proof fn lema_corrida_sem_recuo(
    problema: &ProblemaEnsopado,
    r: (Seq<bool>, int, Seq<bool>, int),
)
    requires
        resultado_de_corrida(problema, r),
        forall|g: Seq<bool>, s: Seq<bool>|
            #![trigger problema.fitness_penalizado(g), eh_semente(problema, s)]
            problema.eh_solucao(g) && !problema.viavel(g) && eh_semente(problema, s)
                ==> problema.fitness_penalizado(g) < problema.sabor_total(s),
    ensures
        problema.viavel(r.0),
        r.1 == problema.sabor_total(r.0),
        eh_semente(problema, r.2),
        r.3 == problema.sabor_total(r.2),
        r.1 >= r.3,
{
    let (g, s0) = choose|g: Seq<bool>, s0: Seq<bool>| #[trigger] corrida_com(problema, r, g, s0);
    assert(corrida_com(problema, r, g, s0));
    if !problema.viavel(g) {
        assert(problema.fitness_penalizado(g) < problema.sabor_total(s0));
    }
}

/// Ends a run: thresholds the final global best and validates it anew, from
/// the weights and the pairs alone.
pub fn concluir(
    problema: &ProblemaEnsopado,
    limiar: i64,
    melhor_posicao_global: &Vec<i64>,
    solucao_inicial: Vec<bool>,
    fitness_inicial: i64,
) -> (r: (Vec<bool>, i64, Vec<bool>, i64))
    requires
        problema.bem_formado(),
        melhor_posicao_global@.len() == problema.dimensao(),
    ensures
        (r.0@, r.1 as int, r.2@, r.3 as int) == conclusao_spec(
            problema,
            limiar,
            melhor_posicao_global@,
            solucao_inicial@,
            fitness_inicial,
        ),
        problema.viavel(r.0@),
        r.1 == problema.sabor_total(r.0@),
{
    let d = problema.ingredientes.len();
    let solucao_final_binaria = binarizar(melhor_posicao_global, limiar);
    proof {
        lema_vazia_viavel(problema);
    }
    if problema.eh_viavel(&solucao_final_binaria) {
        let (_peso_final, sabor_final) = problema.somar(&solucao_final_binaria);
        (solucao_final_binaria, sabor_final as i64, solucao_inicial, fitness_inicial)
    } else {
        (solucao_vazia(d), 0, solucao_vazia(d), 0)
    }
}

/// Runs the swarm with the configuration given. Returns the selection of
/// the final global best with its total flavor, and the seed of the best
/// initial particle with its score. A global best that is not feasible is
/// replaced by the empty selection, and then both selections are empty; that
/// happens only where some infeasible selection is ranked, by the penalized
/// score, no lower than the flavor of a seed.
pub fn solve_pso_com(problema: &ProblemaEnsopado, cfg: &Configuracao) -> (r: (
    Vec<bool>,
    i64,
    Vec<bool>,
    i64,
))
    requires
        problema.bem_formado(),
        cfg.valida(),
    ensures
        problema.viavel(r.0@),
        r.1 == problema.sabor_total(r.0@),
        cfg.num_particulas > 0 ==> {
            &&& problema.viavel(r.2@)
            &&& r.3 == problema.sabor_total(r.2@)
            &&& r.1 >= r.3
            &&& resultado_de_corrida(problema, (r.0@, r.1 as int, r.2@, r.3 as int))
        },
        cfg.num_particulas == 0 ==> {
            &&& r.0@ == vazia(problema.dimensao())
            &&& r.2@.len() == 0
            &&& r.3 == 0
        },
{
    let mut rng = novo_gerador();
    let (mut enxame, solucao_inicial, fitness_inicial) = inicializar_enxame(
        problema,
        cfg,
        &mut rng,
    );
    let mut iteracoes_sem_melhora: usize = 0;
    let mut iter: usize = 0;
    while iter < cfg.num_iteracoes
        invariant
            0 <= iter <= cfg.num_iteracoes,
            problema.bem_formado(),
            cfg.valida(),
            enxame.bem_formado(problema, cfg),
            enxame.particulas@.len() == cfg.num_particulas,
            iteracoes_sem_melhora <= iter,
            cfg.num_particulas > 0 ==> enxame.melhor_fitness_global >= fitness_inicial,
        decreases cfg.num_iteracoes - iter,
    {
        iteracoes_sem_melhora =
        iterar_enxame(&mut enxame, problema, cfg, iter, iteracoes_sem_melhora, &mut rng);
        iter += 1;
    }
    let ghost g = binarizar_spec(enxame.melhor_posicao_global@, cfg.limiar);
    let ghost s0 = solucao_inicial@;
    proof {
        lema_vazia_viavel(problema);
        if cfg.num_particulas == 0 {
            assert(g =~= vazia(problema.dimensao()));
        }
    }
    let r = concluir(
        problema,
        cfg.limiar,
        &enxame.melhor_posicao_global,
        solucao_inicial,
        fitness_inicial,
    );
    proof {
        if cfg.num_particulas > 0 {
            assert(corrida_com(problema, (r.0@, r.1 as int, r.2@, r.3 as int), g, s0));
        }
    }
    r
}

/// Runs the swarm with the default configuration.
pub fn solve_pso(problema: &ProblemaEnsopado) -> (r: (Vec<bool>, i64, Vec<bool>, i64))
    requires
        problema.bem_formado(),
    ensures
        problema.viavel(r.0@),
        r.1 == problema.sabor_total(r.0@),
        problema.viavel(r.2@),
        r.3 == problema.sabor_total(r.2@),
        r.1 >= r.3,
        resultado_de_corrida(problema, (r.0@, r.1 as int, r.2@, r.3 as int)),
{
    let cfg = Configuracao::padrao();
    solve_pso_com(problema, &cfg)
}

} // verus!
