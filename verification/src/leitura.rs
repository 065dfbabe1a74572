//! Reading decimal numbers into fixed-point units, and an instance from its
//! numbers.

use crate::problema::{
    entrada_valida, montado_de, montar, ProblemaEnsopado, ESCALA, LIMITE_SOMA,
};
use vstd::prelude::*;

verus! {

/// The byte of the decimal point.
pub const PONTO: u8 = 46;

/// The byte of the digit zero.
pub const ZERO: u8 = 48;

/// The byte of the digit nine.
pub const NOVE: u8 = 57;

/// One of the bytes from `0` to `9`.
pub open spec fn eh_digito(b: u8) -> bool {
    ZERO <= b <= NOVE
}

/// Every byte of `s` from `a` up to `b` is a digit.
pub open spec fn digitos_entre(s: Seq<u8>, a: int, b: int) -> bool {
    forall|i: int| a <= i < b ==> eh_digito(#[trigger] s[i])
}

/// The number that the first `k` bytes of `s` write, read as digits.
pub open spec fn valor_digitos(s: Seq<u8>, k: int) -> int
    decreases k,
{
    if k <= 0 {
        0
    } else {
        valor_digitos(s, k - 1) * 10 + (s[k - 1] - ZERO)
    }
}

/// Where the first decimal point at or after `i` stands, or the length of
/// `s` where there is none.
pub open spec fn ponto_desde(s: Seq<u8>, i: int) -> int
    decreases s.len() - i,
{
    if i >= s.len() {
        s.len() as int
    } else if s[i] == PONTO {
        i
    } else {
        ponto_desde(s, i + 1)
    }
}

/// The digit at `i`, or zero past the end.
pub open spec fn digito_em(s: Seq<u8>, i: int) -> int {
    if i < s.len() {
        s[i] - ZERO
    } else {
        0
    }
}

/// The five digits from `q` on, as a count of units; what follows them is
/// dropped.
pub open spec fn fracao_desde(s: Seq<u8>, q: int) -> int {
    digito_em(s, q) * 10_000 + digito_em(s, q + 1) * 1_000 + digito_em(s, q + 2) * 100
        + digito_em(s, q + 3) * 10 + digito_em(s, q + 4)
}

/// The units that a token writes: one digit or more, then, if anything, a
/// point and digits. Nothing where the token is not of that form or writes
/// more than the limit.
pub open spec fn decimal_spec(s: Seq<u8>) -> Option<int> {
    let p = ponto_desde(s, 0);
    if p == 0 || !digitos_entre(s, 0, p) || !digitos_entre(s, p + 1, s.len() as int) {
        None
    } else {
        let v = valor_digitos(s, p) * ESCALA + fracao_desde(s, p + 1);
        if v > LIMITE_SOMA {
            None
        } else {
            Some(v)
        }
    }
}

/// The point found stands at or after `i`, and is a point.
pub proof fn lema_ponto_limites(s: Seq<u8>, i: int)
    requires
        0 <= i <= s.len(),
    ensures
        i <= ponto_desde(s, i) <= s.len(),
        ponto_desde(s, i) < s.len() ==> s[ponto_desde(s, i)] == PONTO,
    decreases s.len() - i,
{
    if i < s.len() && s[i] != PONTO {
        lema_ponto_limites(s, i + 1);
    }
}

/// More digits never write a smaller number.
pub proof fn lema_valor_cresce(s: Seq<u8>, k: int, p: int)
    requires
        0 <= k <= p,
        digitos_entre(s, 0, p),
    ensures
        0 <= valor_digitos(s, k) <= valor_digitos(s, p),
    decreases p,
{
    if k < p {
        lema_valor_cresce(s, k, p - 1);
        assert(eh_digito(s[p - 1]));
    } else if k > 0 {
        lema_valor_cresce(s, k - 1, k - 1);
        assert(eh_digito(s[k - 1]));
    }
}

/// The digit at `i` as a number, or zero past the end.
fn digito(token: &[u8], i: usize, desl: usize) -> (d: u64)
    requires
        i <= token@.len(),
        desl <= 4,
        digitos_entre(token@, i as int, token@.len() as int),
    ensures
        d == digito_em(token@, i + desl),
        d <= 9,
{
    if token.len() - i > desl {
        assert(eh_digito(token@[i + desl]));
        (token[i + desl] - ZERO) as u64
    } else {
        0
    }
}

/// Reads a decimal number into units.
pub fn ler_decimal(token: &[u8]) -> (r: Option<u64>)
    ensures
        match r {
            Some(v) => decimal_spec(token@) == Some(v as int),
            None => decimal_spec(token@) is None,
        },
{
    let n = token.len();
    let ghost s = token@;
    let mut acc: u64 = 0;
    let mut i: usize = 0;
    while i < n && token[i] != PONTO
        invariant
            0 <= i <= n,
            n == s.len(),
            s == token@,
            ponto_desde(s, 0) == ponto_desde(s, i as int),
            digitos_entre(s, 0, i as int),
            acc == valor_digitos(s, i as int),
            acc <= 10_000_000_000,
        decreases n - i,
    {
        let b = token[i];
        proof {
            lema_ponto_limites(s, i as int + 1);
        }
        if b < ZERO || b > NOVE {
            return None;
        }
        let novo: u64 = acc * 10 + (b - ZERO) as u64;
        if novo > 10_000_000_000 {
            proof {
                let p = ponto_desde(s, 0);
                if digitos_entre(s, 0, p) {
                    lema_valor_cresce(s, i as int + 1, p);
                }
            }
            return None;
        }
        acc = novo;
        i += 1;
    }
    proof {
        lema_ponto_limites(s, i as int);
    }
    if i == 0 {
        return None;
    }
    let q: usize = if i < n {
        i + 1
    } else {
        n
    };
    let mut k: usize = q;
    while k < n
        invariant
            q <= k <= n,
            n == s.len(),
            s == token@,
            ponto_desde(s, 0) == i,
            q == (if i < n { i + 1 } else { n as int }),
            digitos_entre(s, q as int, k as int),
        decreases n - k,
    {
        let b = token[k];
        if b < ZERO || b > NOVE {
            return None;
        }
        k += 1;
    }
    let fracao: u64 = digito(token, q, 0) * 10_000 + digito(token, q, 1) * 1_000 + digito(
        token,
        q,
        2,
    ) * 100 + digito(token, q, 3) * 10 + digito(token, q, 4);
    assert(fracao == fracao_desde(s, i as int + 1));
    let v: u64 = acc * 100_000 + fracao;
    if v > LIMITE_SOMA {
        None
    } else {
        Some(v)
    }
}

/// The whole part of a number in units.
pub open spec fn parte_inteira(v: u64) -> int {
    v as int / ESCALA as int
}

/// How many ingredients the numbers announce.
pub open spec fn num_ingredientes(nums: Seq<u64>) -> int {
    parte_inteira(nums[0])
}

/// How many exclusion pairs the numbers announce.
pub open spec fn num_pares(nums: Seq<u64>) -> int {
    parte_inteira(nums[1])
}

/// The flavors: what follows the three numbers of the header.
pub open spec fn sabores_de(nums: Seq<u64>) -> Seq<u64> {
    nums.subrange(3, 3 + num_ingredientes(nums))
}

/// The weights: what follows the flavors.
pub open spec fn pesos_de(nums: Seq<u64>) -> Seq<u64> {
    nums.subrange(3 + num_ingredientes(nums), 3 + 2 * num_ingredientes(nums))
}

/// The `k`-th number after the weights, as an index counted from one.
pub open spec fn indice_de(nums: Seq<u64>, k: int) -> int {
    parte_inteira(nums[3 + 2 * num_ingredientes(nums) + k])
}

/// The exclusion pairs: what follows the weights, two numbers each.
pub open spec fn pares_de(nums: Seq<u64>) -> Seq<(usize, usize)> {
    Seq::new(
        num_pares(nums) as nat,
        |j: int| (indice_de(nums, 2 * j) as usize, indice_de(nums, 2 * j + 1) as usize),
    )
}

/// The numbers write an instance: a header of ingredient count, pair count
/// and capacity, then as many flavors, weights and pairs as announced, the
/// pairs naming ingredients counted from one, and all of it well formed.
pub open spec fn numeros_validos(nums: Seq<u64>) -> bool {
    &&& nums.len() >= 3
    &&& nums.len() >= 3 + 2 * num_ingredientes(nums) + 2 * num_pares(nums)
    &&& forall|k: int|
        0 <= k < 2 * num_pares(nums) ==> 1 <= #[trigger] indice_de(nums, k) <= num_ingredientes(
            nums,
        )
    &&& entrada_valida(sabores_de(nums), pesos_de(nums), pares_de(nums), nums[2])
}

/// Makes an instance from the numbers of its text, in order: ingredient
/// count, pair count, capacity, the flavors, the weights, the pairs. What
/// follows the last pair is ignored.
pub fn instancia_de_numeros(nums: &Vec<u64>) -> (r: Option<ProblemaEnsopado>)
    ensures
        r is Some <==> numeros_validos(nums@),
        r is Some ==> r.unwrap().bem_formado() && montado_de(
            &r.unwrap(),
            sabores_de(nums@),
            pesos_de(nums@),
            pares_de(nums@),
            nums@[2],
        ),
{
    if nums.len() < 3 {
        return None;
    }
    let n64: u64 = nums[0] / 100_000;
    let m64: u64 = nums[1] / 100_000;
    let resto: u64 = (nums.len() - 3) as u64;
    if n64 > resto / 2 {
        return None;
    }
    if m64 > (resto - 2 * n64) / 2 {
        return None;
    }
    let tamanho: usize = nums.len();
    let n: usize = n64 as usize;
    let m: usize = m64 as usize;
    assert(tamanho >= 3 + 2 * n + 2 * m);
    let mut sabores: Vec<u64> = Vec::new();
    let mut pesos: Vec<u64> = Vec::new();
    let mut i: usize = 0;
    while i < n
        invariant
            0 <= i <= n,
            nums@.len() >= 3 + 2 * n + 2 * m,
            nums@.len() <= usize::MAX,
            sabores@.len() == i,
            pesos@.len() == i,
            forall|t: int| 0 <= t < i ==> sabores@[t] == nums@[3 + t],
            forall|t: int| 0 <= t < i ==> pesos@[t] == nums@[3 + n + t],
        decreases n - i,
    {
        sabores.push(nums[3 + i]);
        pesos.push(nums[3 + n + i]);
        i += 1;
    }
    assert(sabores@ =~= sabores_de(nums@));
    assert(pesos@ =~= pesos_de(nums@));
    let base: usize = 3 + 2 * n;
    let mut pares: Vec<(usize, usize)> = Vec::new();
    let mut j: usize = 0;
    while j < m
        invariant
            0 <= j <= m,
            n == num_ingredientes(nums@),
            m == num_pares(nums@),
            base == 3 + 2 * n,
            n64 == n,
            nums@.len() >= 3 + 2 * n + 2 * m,
            nums@.len() <= usize::MAX,
            pares@.len() == j,
            forall|k: int| 0 <= k < 2 * j ==> 1 <= #[trigger] indice_de(nums@, k) <= n,
            forall|t: int|
                0 <= t < j ==> (#[trigger] pares@[t]).0 == indice_de(nums@, 2 * t) && pares@[t].1
                    == indice_de(nums@, 2 * t + 1),
        decreases m - j,
    {
        let a64: u64 = nums[base + 2 * j] / 100_000;
        let b64: u64 = nums[base + 2 * j + 1] / 100_000;
        assert(a64 == indice_de(nums@, 2 * j));
        assert(b64 == indice_de(nums@, 2 * j + 1));
        if a64 < 1 || a64 > n64 || b64 < 1 || b64 > n64 {
            return None;
        }
        pares.push((a64 as usize, b64 as usize));
        j += 1;
    }
    assert(pares@ =~= pares_de(nums@));
    montar(&sabores, &pesos, &pares, nums[2])
}

/// A blank, or one of the bytes from tab to carriage return.
pub open spec fn eh_espaco(b: u8) -> bool {
    b == 32 || (9 <= b <= 13)
}

/// Where the run of bytes that are not space, from `i` on, ends.
pub open spec fn fim_token(s: Seq<u8>, i: int) -> int
    decreases s.len() - i,
{
    if i >= s.len() {
        s.len() as int
    } else if eh_espaco(s[i]) {
        i
    } else {
        fim_token(s, i + 1)
    }
}

/// A piece ends at or after its start, and after it where it is not empty.
pub proof fn lema_fim_token(s: Seq<u8>, i: int)
    requires
        0 <= i <= s.len(),
    ensures
        i <= fim_token(s, i) <= s.len(),
        i < s.len() && !eh_espaco(s[i]) ==> i < fim_token(s, i),
    decreases s.len() - i,
{
    if i < s.len() && !eh_espaco(s[i]) {
        lema_fim_token(s, i + 1);
    }
}

/// The numbers that the text writes from `i` on: it is cut at spaces, and
/// each piece that writes a number gives that number; the others give none.
pub open spec fn numeros_desde(s: Seq<u8>, i: int) -> Seq<u64>
    decreases s.len() - i,
    when 0 <= i
    via numeros_desde_termina
{
    if i >= s.len() {
        Seq::empty()
    } else if eh_espaco(s[i]) {
        numeros_desde(s, i + 1)
    } else {
        let j = fim_token(s, i);
        match decimal_spec(s.subrange(i, j)) {
            Some(v) => seq![v as u64] + numeros_desde(s, j),
            None => numeros_desde(s, j),
        }
    }
}

#[via_fn]
proof fn numeros_desde_termina(s: Seq<u8>, i: int) {
    if i < s.len() && !eh_espaco(s[i]) {
        lema_fim_token(s, i);
    }
}

/// Reads the numbers of a text.
pub fn ler_numeros(texto: &[u8]) -> (nums: Vec<u64>)
    ensures
        nums@ == numeros_desde(texto@, 0),
{
    let n = texto.len();
    let ghost s = texto@;
    let mut nums: Vec<u64> = Vec::new();
    let mut i: usize = 0;
    while i < n
        invariant
            0 <= i <= n,
            n == s.len(),
            s == texto@,
            numeros_desde(s, 0) == nums@ + numeros_desde(s, i as int),
        decreases n - i,
    {
        let b = texto[i];
        if b == 32 || (9 <= b && b <= 13) {
            i += 1;
        } else {
            let mut j: usize = i + 1;
            while j < n && !(texto[j] == 32 || (9 <= texto[j] && texto[j] <= 13))
                invariant
                    i < j <= n,
                    n == s.len(),
                    s == texto@,
                    fim_token(s, i as int) == fim_token(s, j as int),
                decreases n - j,
            {
                j += 1;
            }
            let ghost antes = nums@;
            let pedaco = vstd::slice::slice_subrange(texto, i, j);
            match ler_decimal(pedaco) {
                Some(v) => {
                    nums.push(v);
                    assert(nums@ =~= antes + seq![v]);
                    assert(antes + (seq![v] + numeros_desde(s, j as int)) =~= nums@
                        + numeros_desde(s, j as int));
                },
                None => {},
            }
            i = j;
        }
    }
    assert(nums@ + Seq::<u64>::empty() =~= nums@);
    nums
}

impl ProblemaEnsopado {
    /// Reads an instance from its text: the numbers in it, read as
    /// `instancia_de_numeros` reads them.
    pub fn load_from(texto: &[u8]) -> (r: Option<ProblemaEnsopado>)
        ensures
            r is Some <==> numeros_validos(numeros_desde(texto@, 0)),
            r is Some ==> r.unwrap().bem_formado() && montado_de(
                &r.unwrap(),
                sabores_de(numeros_desde(texto@, 0)),
                pesos_de(numeros_desde(texto@, 0)),
                pares_de(numeros_desde(texto@, 0)),
                numeros_desde(texto@, 0)[2],
            ),
    {
        let nums = ler_numeros(texto);
        instancia_de_numeros(&nums)
    }
}

} // verus!
