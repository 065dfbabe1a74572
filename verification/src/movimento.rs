//! The arithmetic of one coordinate's move, in fixed point.

use vstd::arithmetic::div_mod::lemma_fundamental_div_mod_converse;
use vstd::prelude::*;

verus! {

/// The position 1.0: a coordinate runs from 0 to `UNIDADE`, and the
/// coefficients of a configuration are counted in the same unit.
pub const UNIDADE: i64 = 1_000_000;

/// The largest magnitude of a coefficient of a configuration.
pub const LIMITE_COEFICIENTE: i64 = 1_000_000_000;

/// The largest magnitude of an inertia weight.
pub const LIMITE_INERCIA: i64 = 3_000_000_000;

/// `x` brought into `lo..=hi`.
pub open spec fn limitar(x: int, lo: int, hi: int) -> int {
    if x < lo {
        lo
    } else if x > hi {
        hi
    } else {
        x
    }
}

/// The inertia weight of iteration `iter` out of `total`: it falls linearly
/// from `w_max` towards `w_min`.
pub open spec fn inercia_spec(w_max: int, w_min: int, iter: int, total: int) -> int {
    w_max - (iter * (w_max - w_min)) / total
}

/// The new velocity of a coordinate: inertia, the pull of the personal best
/// and the pull (or push) of the global best, capped at `v_max` either way.
pub open spec fn velocidade_spec(
    w: int,
    c1: int,
    c2: int,
    v_max: int,
    v: int,
    x: int,
    pb: int,
    gb: int,
    r1: int,
    r2: int,
) -> int {
    limitar(
        (w * v * UNIDADE + c1 * r1 * (pb - x) + c2 * r2 * (gb - x)) / (UNIDADE * UNIDADE),
        -v_max,
        v_max,
    )
}

/// The new position of a coordinate: moved by its velocity, kept in the unit
/// interval.
pub open spec fn posicao_spec(x: int, v: int) -> int {
    limitar(x + v, 0, UNIDADE as int)
}

/// A product of two bounded numbers is bounded by the product of the bounds.
pub proof fn lema_produto_limitado(a: int, b: int, la: int, lb: int)
    requires
        -la <= a <= la,
        -lb <= b <= lb,
    ensures
        -(la * lb) <= a * b <= la * lb,
{
    assert(-(la * lb) <= a * b <= la * lb) by (nonlinear_arith)
        requires
            -la <= a <= la,
            -lb <= b <= lb,
    ;
}

/// Division rounding towards negative infinity.
pub fn div_piso(a: i128, b: i128) -> (q: i128)
    requires
        b > 0,
        a > i128::MIN,
    ensures
        q == a / b,
{
    if a >= 0 {
        a / b
    } else {
        let m: i128 = -a - 1;
        let q0: i128 = m / b;
        let r0: i128 = m % b;
        proof {
            assert(m == b * q0 + r0) by (nonlinear_arith)
                requires
                    q0 == m / b,
                    r0 == m % b,
                    b > 0,
            ;
            assert(a == (-q0 - 1) * b + (b - 1 - r0)) by (nonlinear_arith)
                requires
                    m == b * q0 + r0,
                    m == -a - 1,
            ;
            lemma_fundamental_div_mod_converse(a as int, b as int, -q0 - 1, b - 1 - r0);
        }
        -q0 - 1
    }
}

/// The inertia weight of iteration `iter` out of `total`.
pub fn inercia(w_max: i64, w_min: i64, iter: usize, total: usize) -> (w: i64)
    requires
        iter < total,
        -LIMITE_COEFICIENTE <= w_max <= LIMITE_COEFICIENTE,
        -LIMITE_COEFICIENTE <= w_min <= LIMITE_COEFICIENTE,
    ensures
        w == inercia_spec(w_max as int, w_min as int, iter as int, total as int),
        -LIMITE_INERCIA <= w <= LIMITE_INERCIA,
{
    let dif: i128 = (w_max - w_min) as i128;
    let ghost lim: int = 2 * LIMITE_COEFICIENTE;
    proof {
        lema_produto_limitado(iter as int, dif as int, total as int, lim);
    }
    let num: i128 = (iter as i128) * dif;
    let q: i128 = div_piso(num, total as i128);
    proof {
        let t = total as int;
        let n = num as int;
        assert(-lim <= n / t <= lim) by (nonlinear_arith)
            requires
                -(t * lim) <= n <= t * lim,
                t > 0,
        ;
    }
    (w_max as i128 - q) as i64
}

/// The new velocity and the new position of one coordinate, given the two
/// random factors drawn for it.
pub fn mover_coordenada(
    w: i64,
    c1: i64,
    c2: i64,
    v_max: i64,
    v: i64,
    x: i64,
    pb: i64,
    gb: i64,
    r1: i64,
    r2: i64,
) -> (r: (i64, i64))
    requires
        -LIMITE_INERCIA <= w <= LIMITE_INERCIA,
        -LIMITE_COEFICIENTE <= c1 <= LIMITE_COEFICIENTE,
        -LIMITE_COEFICIENTE <= c2 <= LIMITE_COEFICIENTE,
        0 <= v_max <= LIMITE_COEFICIENTE,
        -LIMITE_COEFICIENTE <= v <= LIMITE_COEFICIENTE,
        0 <= x <= UNIDADE,
        0 <= pb <= UNIDADE,
        0 <= gb <= UNIDADE,
        0 <= r1 <= UNIDADE,
        0 <= r2 <= UNIDADE,
    ensures
        r.0 == velocidade_spec(
            w as int,
            c1 as int,
            c2 as int,
            v_max as int,
            v as int,
            x as int,
            pb as int,
            gb as int,
            r1 as int,
            r2 as int,
        ),
        r.1 == posicao_spec(x as int, r.0 as int),
        -v_max <= r.0 <= v_max,
        0 <= r.1 <= UNIDADE,
{
    proof {
        lema_produto_limitado(w as int, v as int, LIMITE_INERCIA as int, LIMITE_COEFICIENTE as int);
        lema_produto_limitado(c1 as int, r1 as int, LIMITE_COEFICIENTE as int, UNIDADE as int);
        lema_produto_limitado(c2 as int, r2 as int, LIMITE_COEFICIENTE as int, UNIDADE as int);
        lema_produto_limitado(
            c1 * r1,
            pb - x,
            LIMITE_COEFICIENTE * UNIDADE,
            UNIDADE as int,
        );
        lema_produto_limitado(
            c2 * r2,
            gb - x,
            LIMITE_COEFICIENTE * UNIDADE,
            UNIDADE as int,
        );
    }
    let inercial: i128 = (w as i128) * (v as i128) * (UNIDADE as i128);
    let cognitivo: i128 = (c1 as i128) * (r1 as i128) * ((pb - x) as i128);
    let social: i128 = (c2 as i128) * (r2 as i128) * ((gb - x) as i128);
    let q: i128 = div_piso(
        inercial + cognitivo + social,
        (UNIDADE as i128) * (UNIDADE as i128),
    );
    let nova_velocidade: i64 = if q < -(v_max as i128) {
        -v_max
    } else if q > v_max as i128 {
        v_max
    } else {
        q as i64
    };
    let soma: i64 = x + nova_velocidade;
    let nova_posicao: i64 = if soma < 0 {
        0
    } else if soma > UNIDADE {
        UNIDADE
    } else {
        soma
    };
    (nova_velocidade, nova_posicao)
}

} // verus!
