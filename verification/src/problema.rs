//! The problem instance, what makes a selection feasible, and the two scores.

use vstd::prelude::*;

verus! {

/// One unit of flavor, weight or score is `1 / ESCALA`.
pub const ESCALA: i64 = 100_000;

/// The largest total flavor, total weight and capacity of an instance.
pub const LIMITE_SOMA: u64 = 1_000_000_000_000_000;

/// What the penalized score gives a selection that it cannot rank higher.
pub const SENTINELA_PENALIZADA: i64 = 1;

/// What the strict score gives a selection that holds an exclusion pair.
pub const SENTINELA_ESTRITA: i64 = -100_000;

/// How many units of score one unit of excess weight costs when penalized.
pub const FATOR_PENALIDADE: i64 = 100;

/// An ingredient: its flavor and its weight, in units.
#[derive(Debug, Clone, Copy)]
pub struct Ingrediente {
    pub sabor: u64,
    pub peso: u64,
}

/// An instance: the ingredients, the set of pairs of ingredients that exclude
/// each other, by index and each pair held once, and the capacity in units
/// of weight.
#[derive(Debug)]
pub struct ProblemaEnsopado {
    pub ingredientes: Vec<Ingrediente>,
    pub pares_incompativeis: Vec<(usize, usize)>,
    pub peso_max: u64,
}

impl ProblemaEnsopado {
    /// The number of ingredients.
    pub open spec fn dimensao(&self) -> int {
        self.ingredientes@.len() as int
    }

    /// The weight of all of the first `k` ingredients.
    pub open spec fn soma_pesos(&self, k: int) -> int
        decreases k,
    {
        if k <= 0 {
            0
        } else {
            self.soma_pesos(k - 1) + self.ingredientes@[k - 1].peso
        }
    }

    /// The flavor of all of the first `k` ingredients.
    pub open spec fn soma_sabores(&self, k: int) -> int
        decreases k,
    {
        if k <= 0 {
            0
        } else {
            self.soma_sabores(k - 1) + self.ingredientes@[k - 1].sabor
        }
    }

    /// The weight of those of the first `k` ingredients that `sol` selects.
    pub open spec fn peso_parcial(&self, sol: Seq<bool>, k: int) -> int
        decreases k,
    {
        if k <= 0 {
            0
        } else if sol[k - 1] {
            self.peso_parcial(sol, k - 1) + self.ingredientes@[k - 1].peso
        } else {
            self.peso_parcial(sol, k - 1)
        }
    }

    /// The flavor of those of the first `k` ingredients that `sol` selects.
    pub open spec fn sabor_parcial(&self, sol: Seq<bool>, k: int) -> int
        decreases k,
    {
        if k <= 0 {
            0
        } else if sol[k - 1] {
            self.sabor_parcial(sol, k - 1) + self.ingredientes@[k - 1].sabor
        } else {
            self.sabor_parcial(sol, k - 1)
        }
    }

    /// The weight of what `sol` selects.
    pub open spec fn peso_total(&self, sol: Seq<bool>) -> int {
        self.peso_parcial(sol, self.dimensao())
    }

    /// The flavor of what `sol` selects.
    pub open spec fn sabor_total(&self, sol: Seq<bool>) -> int {
        self.sabor_parcial(sol, self.dimensao())
    }

    /// None of the first `k` exclusion pairs has both members selected.
    pub open spec fn respeita_pares_ate(&self, sol: Seq<bool>, k: int) -> bool {
        forall|j: int|
            0 <= j < k ==> !(sol[(#[trigger] self.pares_incompativeis@[j]).0 as int]
                && sol[self.pares_incompativeis@[j].1 as int])
    }

    /// No exclusion pair has both members selected.
    pub open spec fn respeita_pares(&self, sol: Seq<bool>) -> bool {
        self.respeita_pares_ate(sol, self.pares_incompativeis@.len() as int)
    }

    /// `sol` is a selection over this instance's ingredients.
    pub open spec fn eh_solucao(&self, sol: Seq<bool>) -> bool {
        sol.len() == self.dimensao()
    }

    /// `sol` holds no exclusion pair and weighs no more than the capacity.
    pub open spec fn viavel(&self, sol: Seq<bool>) -> bool {
        &&& self.eh_solucao(sol)
        &&& self.respeita_pares(sol)
        &&& self.peso_total(sol) <= self.peso_max
    }

    /// Every exclusion pair names two ingredients, none is held twice, and the
    /// totals are in range.
    pub open spec fn bem_formado(&self) -> bool {
        &&& self.pares_incompativeis@.no_duplicates()
        &&& forall|j: int|
            0 <= j < self.pares_incompativeis@.len() ==> (#[trigger] self.pares_incompativeis@[j]).0
                < self.dimensao() && self.pares_incompativeis@[j].1 < self.dimensao()
        &&& self.peso_max <= LIMITE_SOMA
        &&& self.soma_pesos(self.dimensao()) <= LIMITE_SOMA
        &&& self.soma_sabores(self.dimensao()) <= LIMITE_SOMA
    }

    /// The strict score: the total flavor of a feasible selection, a fixed
    /// negative value where an exclusion pair is selected, and otherwise the
    /// excess weight, negated.
    pub open spec fn fitness_estrito(&self, sol: Seq<bool>) -> int {
        if !self.respeita_pares(sol) {
            SENTINELA_ESTRITA as int
        } else if self.peso_total(sol) > self.peso_max {
            -(self.peso_total(sol) - self.peso_max)
        } else {
            self.sabor_total(sol)
        }
    }

    /// The penalized score: the total flavor of a feasible selection, a small
    /// positive value where an exclusion pair is selected, and otherwise the
    /// flavor less a multiple of the excess weight, but no less than that
    /// small value.
    pub open spec fn fitness_penalizado(&self, sol: Seq<bool>) -> int {
        if !self.respeita_pares(sol) {
            SENTINELA_PENALIZADA as int
        } else if self.peso_total(sol) > self.peso_max {
            let v = self.sabor_total(sol) - FATOR_PENALIDADE * (self.peso_total(sol)
                - self.peso_max);
            if v > SENTINELA_PENALIZADA {
                v
            } else {
                SENTINELA_PENALIZADA as int
            }
        } else {
            self.sabor_total(sol)
        }
    }

    /// The totals of a longer prefix are no smaller.
    pub proof fn lema_somas_monotonas(&self, i: int, j: int)
        requires
            0 <= i <= j,
        ensures
            0 <= self.soma_pesos(i) <= self.soma_pesos(j),
            0 <= self.soma_sabores(i) <= self.soma_sabores(j),
        decreases j,
    {
        if i < j {
            self.lema_somas_monotonas(i, j - 1);
        } else if i > 0 {
            self.lema_somas_monotonas(i - 1, i - 1);
        }
    }

    /// What a selection weighs and tastes is at most what everything does.
    pub proof fn lema_parcial_limitado(&self, sol: Seq<bool>, k: int)
        requires
            0 <= k <= self.dimensao(),
        ensures
            0 <= self.peso_parcial(sol, k) <= self.soma_pesos(k) <= self.soma_pesos(
                self.dimensao(),
            ),
            0 <= self.sabor_parcial(sol, k) <= self.soma_sabores(k) <= self.soma_sabores(
                self.dimensao(),
            ),
        decreases k,
    {
        self.lema_somas_monotonas(k, self.dimensao());
        if k > 0 {
            self.lema_parcial_limitado(sol, k - 1);
        }
    }

    /// The empty selection weighs nothing and has no flavor.
    pub proof fn lema_vazia(&self, sol: Seq<bool>, k: int)
        requires
            0 <= k <= sol.len(),
            forall|i: int| 0 <= i < sol.len() ==> !sol[i],
        ensures
            self.peso_parcial(sol, k) == 0,
            self.sabor_parcial(sol, k) == 0,
        decreases k,
    {
        if k > 0 {
            self.lema_vazia(sol, k - 1);
        }
    }

    /// On a feasible selection both scores are the total flavor.
    pub proof fn lema_avaliadores_concordam(&self, sol: Seq<bool>)
        requires
            self.viavel(sol),
        ensures
            self.fitness_estrito(sol) == self.sabor_total(sol),
            self.fitness_penalizado(sol) == self.sabor_total(sol),
    {
    }

    /// A selection that holds an exclusion pair scores strictly below every
    /// feasible one under the strict score.
    pub proof fn lema_exclusao_abaixo_de_viavel(&self, ruim: Seq<bool>, boa: Seq<bool>)
        requires
            !self.respeita_pares(ruim),
            self.viavel(boa),
        ensures
            self.fitness_estrito(ruim) < self.fitness_estrito(boa),
    {
        self.lema_parcial_limitado(boa, self.dimensao());
    }

    /// Whether the instance is well formed.
    pub fn valido(&self) -> (b: bool)
        ensures
            b == self.bem_formado(),
    {
        let d = self.ingredientes.len();
        if self.peso_max > LIMITE_SOMA {
            return false;
        }
        let mut j: usize = 0;
        while j < self.pares_incompativeis.len()
            invariant
                0 <= j <= self.pares_incompativeis@.len(),
                d == self.dimensao(),
                forall|t: int|
                    0 <= t < j ==> (#[trigger] self.pares_incompativeis@[t]).0 < d
                        && self.pares_incompativeis@[t].1 < d,
            decreases self.pares_incompativeis@.len() - j,
        {
            let par = self.pares_incompativeis[j];
            if par.0 >= d || par.1 >= d {
                return false;
            }
            j += 1;
        }
        let m = self.pares_incompativeis.len();
        let mut a: usize = 0;
        while a < m
            invariant
                0 <= a <= m,
                m == self.pares_incompativeis@.len(),
                forall|x: int, y: int|
                    0 <= x < y < a ==> self.pares_incompativeis@[x]
                        != self.pares_incompativeis@[y],
            decreases m - a,
        {
            let par = self.pares_incompativeis[a];
            let mut b: usize = 0;
            while b < a
                invariant
                    0 <= b <= a < m,
                    m == self.pares_incompativeis@.len(),
                    par == self.pares_incompativeis@[a as int],
                    forall|x: int| 0 <= x < b ==> self.pares_incompativeis@[x] != par,
                decreases a - b,
            {
                let outro = self.pares_incompativeis[b];
                if outro.0 == par.0 && outro.1 == par.1 {
                    assert(self.pares_incompativeis@[b as int] == self.pares_incompativeis@[a as int]);
                    return false;
                }
                b += 1;
            }
            a += 1;
        }
        assert(self.pares_incompativeis@.no_duplicates());
        let mut peso: u64 = 0;
        let mut sabor: u64 = 0;
        let mut i: usize = 0;
        while i < d
            invariant
                0 <= i <= d,
                d == self.dimensao(),
                self.pares_incompativeis@.no_duplicates(),
                forall|t: int|
                    0 <= t < self.pares_incompativeis@.len() ==> (
                    #[trigger] self.pares_incompativeis@[t]).0 < d
                        && self.pares_incompativeis@[t].1 < d,
                peso == self.soma_pesos(i as int),
                sabor == self.soma_sabores(i as int),
                peso <= LIMITE_SOMA,
                sabor <= LIMITE_SOMA,
            decreases d - i,
        {
            let ing = self.ingredientes[i];
            if ing.peso > LIMITE_SOMA - peso || ing.sabor > LIMITE_SOMA - sabor {
                proof {
                    self.lema_somas_monotonas(i as int + 1, d as int);
                }
                return false;
            }
            peso = peso + ing.peso;
            sabor = sabor + ing.sabor;
            i += 1;
        }
        true
    }

    /// Whether some exclusion pair has both members selected.
    pub fn viola_pares(&self, sol: &Vec<bool>) -> (b: bool)
        requires
            self.bem_formado(),
            self.eh_solucao(sol@),
        ensures
            b == !self.respeita_pares(sol@),
    {
        let mut j: usize = 0;
        while j < self.pares_incompativeis.len()
            invariant
                0 <= j <= self.pares_incompativeis@.len(),
                self.bem_formado(),
                self.eh_solucao(sol@),
                self.respeita_pares_ate(sol@, j as int),
            decreases self.pares_incompativeis@.len() - j,
        {
            let par = self.pares_incompativeis[j];
            if sol[par.0] && sol[par.1] {
                return true;
            }
            j += 1;
        }
        false
    }

    /// The total weight and the total flavor of a selection.
    pub fn somar(&self, sol: &Vec<bool>) -> (r: (u64, u64))
        requires
            self.bem_formado(),
            self.eh_solucao(sol@),
        ensures
            r.0 == self.peso_total(sol@),
            r.1 == self.sabor_total(sol@),
            r.0 <= LIMITE_SOMA,
            r.1 <= LIMITE_SOMA,
    {
        let d = self.ingredientes.len();
        let mut peso: u64 = 0;
        let mut sabor: u64 = 0;
        let mut i: usize = 0;
        while i < d
            invariant
                0 <= i <= d,
                d == self.dimensao(),
                self.bem_formado(),
                self.eh_solucao(sol@),
                peso == self.peso_parcial(sol@, i as int),
                sabor == self.sabor_parcial(sol@, i as int),
                peso <= LIMITE_SOMA,
                sabor <= LIMITE_SOMA,
            decreases d - i,
        {
            proof {
                self.lema_parcial_limitado(sol@, i as int + 1);
            }
            if sol[i] {
                let ing = self.ingredientes[i];
                peso = peso + ing.peso;
                sabor = sabor + ing.sabor;
            }
            i += 1;
        }
        (peso, sabor)
    }

    /// Whether a selection is feasible, from its weights and pairs alone.
    pub fn eh_viavel(&self, sol: &Vec<bool>) -> (b: bool)
        requires
            self.bem_formado(),
            self.eh_solucao(sol@),
        ensures
            b == self.viavel(sol@),
    {
        if self.viola_pares(sol) {
            return false;
        }
        let (peso, _sabor) = self.somar(sol);
        peso <= self.peso_max
    }
}

/// The strict score of a selection.
pub fn calcular_fitness_binario(solucao: &Vec<bool>, problema: &ProblemaEnsopado) -> (f: i64)
    requires
        problema.bem_formado(),
        problema.eh_solucao(solucao@),
    ensures
        f == problema.fitness_estrito(solucao@),
{
    if problema.viola_pares(solucao) {
        return SENTINELA_ESTRITA;
    }
    let (peso, sabor) = problema.somar(solucao);
    if peso > problema.peso_max {
        let excesso: u64 = peso - problema.peso_max;
        return -(excesso as i64);
    }
    sabor as i64
}

/// The selection that a position stands for: the coordinates above `limiar`.
pub open spec fn binarizar_spec(posicao: Seq<i64>, limiar: i64) -> Seq<bool> {
    Seq::new(posicao.len(), |i: int| posicao[i] > limiar)
}

/// Thresholds a position into a selection.
pub fn binarizar(posicao: &Vec<i64>, limiar: i64) -> (sol: Vec<bool>)
    ensures
        sol@ == binarizar_spec(posicao@, limiar),
{
    let mut sol: Vec<bool> = Vec::new();
    let mut i: usize = 0;
    while i < posicao.len()
        invariant
            0 <= i <= posicao@.len(),
            sol@.len() == i,
            forall|t: int| 0 <= t < i ==> sol@[t] == (posicao@[t] > limiar),
        decreases posicao@.len() - i,
    {
        sol.push(posicao[i] > limiar);
        i += 1;
    }
    assert(sol@ =~= binarizar_spec(posicao@, limiar));
    sol
}

/// The penalized score of the selection that a position stands for.
pub fn calcular_fitness(posicao: &Vec<i64>, problema: &ProblemaEnsopado, limiar: i64) -> (f: i64)
    requires
        problema.bem_formado(),
        posicao@.len() == problema.dimensao(),
    ensures
        f == problema.fitness_penalizado(binarizar_spec(posicao@, limiar)),
{
    let solucao_binaria = binarizar(posicao, limiar);
    if problema.viola_pares(&solucao_binaria) {
        return SENTINELA_PENALIZADA;
    }
    let (peso, sabor) = problema.somar(&solucao_binaria);
    if peso > problema.peso_max {
        let excesso: i64 = (peso - problema.peso_max) as i64;
        let v: i64 = sabor as i64 - FATOR_PENALIDADE * excesso;
        if v > SENTINELA_PENALIZADA {
            return v;
        }
        return SENTINELA_PENALIZADA;
    }
    sabor as i64
}

/// The sum of the first `k` numbers of `s`.
pub open spec fn soma_ate(s: Seq<u64>, k: int) -> int
    decreases k,
{
    if k <= 0 {
        0
    } else {
        soma_ate(s, k - 1) + s[k - 1]
    }
}

/// What an instance can be made of: as many weights as flavors, exclusion
/// pairs that name ingredients counting from one, and totals within the limit.
pub open spec fn entrada_valida(
    sabores: Seq<u64>,
    pesos: Seq<u64>,
    pares: Seq<(usize, usize)>,
    peso_max: u64,
) -> bool {
    &&& sabores.len() == pesos.len()
    &&& forall|j: int|
        0 <= j < pares.len() ==> 1 <= (#[trigger] pares[j]).0 <= sabores.len() && 1 <= pares[j].1
            <= sabores.len()
    &&& peso_max <= LIMITE_SOMA
    &&& soma_ate(pesos, pesos.len() as int) <= LIMITE_SOMA
    &&& soma_ate(sabores, sabores.len() as int) <= LIMITE_SOMA
}

/// `p` holds these flavors and weights, these pairs counted from zero, and
/// this capacity.
pub open spec fn montado_de(
    p: &ProblemaEnsopado,
    sabores: Seq<u64>,
    pesos: Seq<u64>,
    pares: Seq<(usize, usize)>,
    peso_max: u64,
) -> bool {
    &&& p.peso_max == peso_max
    &&& p.ingredientes@.len() == sabores.len()
    &&& p.ingredientes@.len() == pesos.len()
    &&& forall|i: int|
        0 <= i < sabores.len() ==> (#[trigger] p.ingredientes@[i]).sabor == sabores[i]
            && p.ingredientes@[i].peso == pesos[i]
    &&& p.pares_incompativeis@ == pares_unicos(pares, pares.len() as int)
}

/// The first `k` pairs of `pares`, counted from zero instead of one, each
/// kept where it first occurs and left out where it occurs again.
pub open spec fn pares_unicos(pares: Seq<(usize, usize)>, k: int) -> Seq<(usize, usize)>
    decreases k,
{
    if k <= 0 {
        Seq::empty()
    } else {
        let ant = pares_unicos(pares, k - 1);
        let par = ((pares[k - 1].0 - 1) as usize, (pares[k - 1].1 - 1) as usize);
        if ant.contains(par) {
            ant
        } else {
            ant.push(par)
        }
    }
}

/// Whether `v` holds `par`.
pub fn contem_par(v: &Vec<(usize, usize)>, par: (usize, usize)) -> (b: bool)
    ensures
        b == v@.contains(par),
{
    let mut i: usize = 0;
    while i < v.len()
        invariant
            0 <= i <= v@.len(),
            forall|t: int| 0 <= t < i ==> v@[t] != par,
        decreases v@.len() - i,
    {
        let outro = v[i];
        if outro.0 == par.0 && outro.1 == par.1 {
            assert(v@[i as int] == par);
            return true;
        }
        i += 1;
    }
    false
}

/// An instance that holds given flavors and weights has their sums as totals.
pub proof fn lema_somas_da_entrada(
    p: &ProblemaEnsopado,
    sabores: Seq<u64>,
    pesos: Seq<u64>,
    k: int,
)
    requires
        0 <= k <= p.dimensao(),
        p.ingredientes@.len() == sabores.len(),
        p.ingredientes@.len() == pesos.len(),
        forall|i: int|
            0 <= i < sabores.len() ==> (#[trigger] p.ingredientes@[i]).sabor == sabores[i]
                && p.ingredientes@[i].peso == pesos[i],
    ensures
        p.soma_pesos(k) == soma_ate(pesos, k),
        p.soma_sabores(k) == soma_ate(sabores, k),
    decreases k,
{
    if k > 0 {
        lema_somas_da_entrada(p, sabores, pesos, k - 1);
    }
}

/// Makes an instance from its flavors, its weights, its exclusion pairs as
/// they are written down, counting ingredients from one, and its capacity.
/// A pair written twice is held once. Gives nothing where these do not make
/// a well-formed instance.
pub fn montar(
    sabores: &Vec<u64>,
    pesos: &Vec<u64>,
    pares: &Vec<(usize, usize)>,
    peso_max: u64,
) -> (r: Option<ProblemaEnsopado>)
    ensures
        r is Some <==> entrada_valida(sabores@, pesos@, pares@, peso_max),
        r is Some ==> r.unwrap().bem_formado() && montado_de(
            &r.unwrap(),
            sabores@,
            pesos@,
            pares@,
            peso_max,
        ),
{
    let n = sabores.len();
    if pesos.len() != n {
        return None;
    }
    let mut ingredientes: Vec<Ingrediente> = Vec::new();
    let mut i: usize = 0;
    while i < n
        invariant
            0 <= i <= n,
            n == sabores@.len(),
            n == pesos@.len(),
            ingredientes@.len() == i,
            forall|t: int|
                0 <= t < i ==> (#[trigger] ingredientes@[t]).sabor == sabores@[t]
                    && ingredientes@[t].peso == pesos@[t],
        decreases n - i,
    {
        ingredientes.push(Ingrediente { sabor: sabores[i], peso: pesos[i] });
        i += 1;
    }
    let mut pares_incompativeis: Vec<(usize, usize)> = Vec::new();
    let mut j: usize = 0;
    while j < pares.len()
        invariant
            0 <= j <= pares@.len(),
            n == sabores@.len(),
            pares_incompativeis@ == pares_unicos(pares@, j as int),
            pares_incompativeis@.no_duplicates(),
            forall|t: int|
                0 <= t < j ==> 1 <= (#[trigger] pares@[t]).0 <= n && 1 <= pares@[t].1 <= n,
            forall|t: int|
                0 <= t < pares_incompativeis@.len() ==> (#[trigger] pares_incompativeis@[t]).0
                    < n && pares_incompativeis@[t].1 < n,
        decreases pares@.len() - j,
    {
        let par = pares[j];
        if par.0 < 1 || par.0 > n || par.1 < 1 || par.1 > n {
            return None;
        }
        let novo = (par.0 - 1, par.1 - 1);
        if !contem_par(&pares_incompativeis, novo) {
            pares_incompativeis.push(novo);
        }
        j += 1;
    }
    let problema = ProblemaEnsopado { ingredientes, pares_incompativeis, peso_max };
    proof {
        lema_somas_da_entrada(&problema, sabores@, pesos@, n as int);
    }
    if problema.valido() {
        Some(problema)
    } else {
        None
    }
}

} // verus!
