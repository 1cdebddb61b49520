//! Polynomials as coefficient vectors, low degree first, over fixed-point
//! values: evaluation against a power basis, and multiplication within a
//! fixed capacity.
use vstd::prelude::*;
use crate::fixed::{fits_i32, lemma_mul_bound, rescale, rescale_i128};

verus! {

/// Failures of polynomial arithmetic.
#[derive(Debug, Clone, Copy, PartialEq, Eq, Structural)]
pub enum PolyError {
    /// Factors of degrees `first_degree` and `second_degree` have a product
    /// with more coefficients than the `capacity` slots.
    Capacity { first_degree: usize, second_degree: usize, capacity: usize },
    /// A result does not fit the fixed-point range.
    Overflow,
}

/// Raw sum of the first `n` pairwise products of `p` and `c`.
pub open spec fn dot(p: Seq<i32>, c: Seq<i32>, n: nat) -> int
    decreases n,
{
    if n == 0 {
        0
    } else {
        dot(p, c, (n - 1) as nat) + (p[n - 1] as int) * (c[n - 1] as int)
    }
}

/// Fixed-point value of `sum powers[i] * coefs[i]`.
pub open spec fn eval_fixed(powers: Seq<i32>, coefs: Seq<i32>) -> int {
    rescale(dot(powers, coefs, powers.len()))
}

/// Evaluates the polynomial `coefs` against the power basis `powers`:
/// the fixed-point value of `sum powers[i] * coefs[i]`.
pub fn poly_evaluate(powers: &[i32], coefs: &[i32]) -> (r: Result<i32, PolyError>)
    requires
        powers@.len() == coefs@.len(),
    ensures
        match r {
            Ok(v) => fits_i32(eval_fixed(powers@, coefs@)) && v == eval_fixed(powers@, coefs@),
            Err(e) => !fits_i32(eval_fixed(powers@, coefs@)) && e == PolyError::Overflow,
        },
{
    let n = powers.len();
    let mut sum: i128 = 0;
    let mut i: usize = 0;
    while i < n
        invariant
            n == powers@.len(),
            n == coefs@.len(),
            i <= n,
            sum == dot(powers@, coefs@, i as nat),
            -(i * 0x4000_0000_0000_0000) <= sum <= i * 0x4000_0000_0000_0000,
        decreases n - i,
    {
        proof {
            lemma_mul_bound(powers@[i as int], coefs@[i as int]);
        }
        let term: i128 = (powers[i] as i128) * (coefs[i] as i128);
        sum = sum + term;
        i = i + 1;
    }
    let v = rescale_i128(sum);
    if v < i32::MIN as i128 || v > i32::MAX as i128 {
        Err(PolyError::Overflow)
    } else {
        Ok(v as i32)
    }
}

/// Number of coefficients up to and including the last nonzero one: the
/// degree plus one, or zero for the zero polynomial.
pub open spec fn eff_len(a: Seq<i32>) -> nat
    decreases a.len(),
{
    if a.len() == 0 {
        0
    } else if a.last() != 0 {
        a.len()
    } else {
        eff_len(a.drop_last())
    }
}

/// The term `a[i] * b[k - i]` of the coefficient of degree `k` of `a * b`.
pub open spec fn conv_term(a: Seq<i32>, b: Seq<i32>, k: int, i: int) -> int {
    if 0 <= i < a.len() && 0 <= k - i < b.len() {
        (a[i] as int) * (b[k - i] as int)
    } else {
        0
    }
}

pub open spec fn conv_upto(a: Seq<i32>, b: Seq<i32>, k: int, m: nat) -> int
    decreases m,
{
    if m == 0 {
        0
    } else {
        conv_upto(a, b, k, (m - 1) as nat) + conv_term(a, b, k, m - 1)
    }
}

/// Raw coefficient of degree `k` of the product `a * b`.
pub open spec fn conv(a: Seq<i32>, b: Seq<i32>, k: int) -> int {
    conv_upto(a, b, k, a.len())
}

/// The product of two nonzero polynomials needs `deg(a) + deg(b) + 1` slots,
/// more than the capacity `a.len()`.
pub open spec fn exceeds_capacity(a: Seq<i32>, b: Seq<i32>) -> bool {
    eff_len(a) > 0 && eff_len(b) > 0 && eff_len(a) + eff_len(b) - 1 > a.len()
}

/// Fixed-point coefficients of `a * b` in `a.len()` slots.
pub open spec fn product(a: Seq<i32>, b: Seq<i32>) -> Seq<int> {
    Seq::new(a.len(), |k: int| rescale(conv(a, b, k)))
}

proof fn lemma_eff_len_prefix(a: Seq<i32>, i: int)
    requires
        0 < i <= a.len(),
        a[i - 1] == 0,
    ensures
        eff_len(a.subrange(0, i)) == eff_len(a.subrange(0, i - 1)),
{
    assert(a.subrange(0, i).drop_last() =~= a.subrange(0, i - 1));
}

/// Degree plus one of `a`, zero for the zero polynomial.
fn effective_len(a: &[i32]) -> (r: usize)
    ensures
        r == eff_len(a@),
        r <= a@.len(),
{
    let mut i: usize = a.len();
    assert(a@.subrange(0, i as int) =~= a@);
    while i > 0 && a[i - 1] == 0
        invariant
            i <= a@.len(),
            eff_len(a@) == eff_len(a@.subrange(0, i as int)),
        decreases i,
    {
        proof {
            lemma_eff_len_prefix(a@, i as int);
        }
        i = i - 1;
    }
    proof {
        if i == 0 {
            assert(a@.subrange(0, 0).len() == 0);
        } else {
            assert(a@.subrange(0, i as int).last() == a@[i - 1]);
        }
    }
    i
}

/// Multiplies two polynomials of one capacity (the common length). Fails
/// when the product of two nonzero factors needs more slots than the
/// capacity, or when a coefficient leaves the fixed-point range.
pub fn poly_multiply(first: &[i32], second: &[i32]) -> (r: Result<Vec<i32>, PolyError>)
    requires
        first@.len() == second@.len(),
    ensures
        match r {
            Ok(v) => {
                &&& !exceeds_capacity(first@, second@)
                &&& v@.len() == first@.len()
                &&& forall|k: int| 0 <= k < v@.len() ==> v@[k] == product(first@, second@)[k]
            },
            Err(PolyError::Capacity { first_degree, second_degree, capacity }) => {
                &&& exceeds_capacity(first@, second@)
                &&& first_degree + 1 == eff_len(first@)
                &&& second_degree + 1 == eff_len(second@)
                &&& capacity == first@.len()
            },
            Err(PolyError::Overflow) => {
                &&& !exceeds_capacity(first@, second@)
                &&& exists|k: int|
                    0 <= k < first@.len() && !fits_i32(#[trigger] product(first@, second@)[k])
            },
        },
{
    let n = first.len();
    let first_len = effective_len(first);
    let second_len = effective_len(second);
    if first_len > 0 && second_len > 0 && first_len - 1 > n - second_len {
        return Err(
            PolyError::Capacity {
                first_degree: first_len - 1,
                second_degree: second_len - 1,
                capacity: n,
            },
        );
    }
    assert(!exceeds_capacity(first@, second@));
    let mut out: Vec<i32> = Vec::new();
    let mut k: usize = 0;
    while k < n
        invariant
            n == first@.len(),
            n == second@.len(),
            k <= n,
            !exceeds_capacity(first@, second@),
            out@.len() == k,
            forall|j: int| 0 <= j < k ==> out@[j] == product(first@, second@)[j],
        decreases n - k,
    {
        let mut sum: i128 = 0;
        let mut i: usize = 0;
        while i < n
            invariant
                n == first@.len(),
                n == second@.len(),
                k < n,
                i <= n,
                sum == conv_upto(first@, second@, k as int, i as nat),
                -(i * 0x4000_0000_0000_0000) <= sum <= i * 0x4000_0000_0000_0000,
            decreases n - i,
        {
            if i <= k {
                proof {
                    lemma_mul_bound(first@[i as int], second@[k - i]);
                }
                sum = sum + (first[i] as i128) * (second[k - i] as i128);
            }
            i = i + 1;
        }
        let v = rescale_i128(sum);
        if v < i32::MIN as i128 || v > i32::MAX as i128 {
            assert(!fits_i32(product(first@, second@)[k as int]));
            return Err(PolyError::Overflow);
        }
        out.push(v as i32);
        k = k + 1;
    }
    Ok(out)
}

proof fn lemma_eff_len_single(a: Seq<i32>, i: int)
    requires
        0 <= i < a.len(),
        a[i] != 0,
        forall|x: int| i < x < a.len() ==> a[x] == 0,
    ensures
        eff_len(a) == i + 1,
    decreases a.len(),
{
    if a.len() > i + 1 {
        lemma_eff_len_single(a.drop_last(), i);
    }
}

proof fn lemma_conv_single(a: Seq<i32>, b: Seq<i32>, i: int, j: int, k: int, m: nat)
    requires
        0 <= i < a.len(),
        0 <= j < b.len(),
        forall|x: int| 0 <= x < a.len() && x != i ==> a[x] == 0,
        forall|y: int| 0 <= y < b.len() && y != j ==> b[y] == 0,
    ensures
        conv_upto(a, b, k, m) == if k == i + j && i < m {
            (a[i] as int) * (b[j] as int)
        } else {
            0
        },
    decreases m,
{
    if m > 0 {
        lemma_conv_single(a, b, i, j, k, (m - 1) as nat);
        let x = m - 1;
        if 0 <= x < a.len() && 0 <= k - x < b.len() {
            if x != i {
                assert(a[x] == 0);
            } else if k - x != j {
                assert(b[k - x] == 0);
            }
        }
    }
}

/// Two polynomials with one nonzero term each, `a[i] x^i` and `b[j] x^j`,
/// with `i + j` below the capacity: the product fits, and its only nonzero
/// slot is `i + j`, which holds the fixed-point product `a[i] * b[j]`.
pub proof fn lemma_single_term_product(a: Seq<i32>, b: Seq<i32>, i: int, j: int)
    requires
        a.len() == b.len(),
        0 <= i < a.len(),
        0 <= j < b.len(),
        i + j < a.len(),
        a[i] != 0,
        b[j] != 0,
        forall|x: int| 0 <= x < a.len() && x != i ==> a[x] == 0,
        forall|y: int| 0 <= y < b.len() && y != j ==> b[y] == 0,
    ensures
        eff_len(a) == i + 1,
        eff_len(b) == j + 1,
        !exceeds_capacity(a, b),
        product(a, b).len() == a.len(),
        forall|k: int|
            0 <= k < a.len() ==> #[trigger] product(a, b)[k] == if k == i + j {
                rescale((a[i] as int) * (b[j] as int))
            } else {
                0
            },
{
    lemma_eff_len_single(a, i);
    lemma_eff_len_single(b, j);
    assert forall|k: int| 0 <= k < a.len() implies #[trigger] product(a, b)[k] == if k == i + j {
        rescale((a[i] as int) * (b[j] as int))
    } else {
        0
    } by {
        lemma_conv_single(a, b, i, j, k, a.len());
    }
}

} // verus!
