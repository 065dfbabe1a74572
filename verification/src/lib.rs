//! Constrained 0/1 selection of ingredients: a particle swarm over a unit
//! hypercube, thresholded into selections, with an exhaustive one-flip local
//! search. All quantities are fixed-point integers.

use vstd::prelude::*;

pub mod aleatorio;
pub mod hc;
pub mod leitura;
pub mod movimento;
pub mod problema;
pub mod pso;

verus! {

/// The indices below `k` at which `sol` is `true`, in increasing order.
pub open spec fn indices_ate(sol: Seq<bool>, k: int) -> Seq<usize>
    decreases k,
{
    if k <= 0 {
        Seq::empty()
    } else if sol[k - 1] {
        indices_ate(sol, k - 1).push((k - 1) as usize)
    } else {
        indices_ate(sol, k - 1)
    }
}

/// What `indices_ate` lists: selected indices only, each of them, in
/// strictly increasing order.
pub proof fn lema_indices_ate(sol: Seq<bool>, k: int)
    requires
        0 <= k <= sol.len(),
        sol.len() <= usize::MAX,
    ensures
        forall|j: int|
            0 <= j < indices_ate(sol, k).len() ==> 0 <= (#[trigger] indices_ate(sol, k)[j]) < k
                && sol[indices_ate(sol, k)[j] as int],
        forall|a: int, b: int|
            0 <= a < b < indices_ate(sol, k).len() ==> (#[trigger] indices_ate(sol, k)[a])
                < (#[trigger] indices_ate(sol, k)[b]),
        forall|i: int| 0 <= i < k && sol[i] ==> indices_ate(sol, k).contains(i as usize),
    decreases k,
{
    if k > 0 {
        lema_indices_ate(sol, k - 1);
        let ant = indices_ate(sol, k - 1);
        let atual = indices_ate(sol, k);
        assert forall|i: int| 0 <= i < k && sol[i] implies atual.contains(i as usize) by {
            if i < k - 1 {
                assert(ant.contains(i as usize));
                let j = choose|j: int| 0 <= j < ant.len() && ant[j] == i as usize;
                assert(atual[j] == i as usize);
            } else {
                assert(atual[atual.len() - 1] == i as usize);
            }
        }
    }
}

/// Lists the selected indices of a solution, in increasing order.
pub fn visualiza_solucao(sol: Vec<bool>) -> (indices: Vec<usize>)
    ensures
        indices@ == indices_ate(sol@, sol@.len() as int),
        forall|j: int| 0 <= j < indices@.len() ==> sol@[(#[trigger] indices@[j]) as int],
        forall|a: int, b: int|
            0 <= a < b < indices@.len() ==> (#[trigger] indices@[a]) < (#[trigger] indices@[b]),
        forall|i: int| 0 <= i < sol@.len() && sol@[i] ==> indices@.contains(i as usize),
{
    let mut indices: Vec<usize> = Vec::new();
    let mut i: usize = 0;
    while i < sol.len()
        invariant
            0 <= i <= sol@.len(),
            indices@ == indices_ate(sol@, i as int),
        decreases sol@.len() - i,
    {
        if sol[i] {
            indices.push(i);
        }
        i += 1;
    }
    proof {
        lema_indices_ate(sol@, sol@.len() as int);
    }
    indices
}

} // verus!
