//! Coefficient vectors of the fixed capacity: loading a polynomial from its
//! stored coefficients, and the power basis of an evaluation point.
use vstd::prelude::*;
use crate::fixed::{fits_i32, lemma_mul_bound, rescale, rescale_i128, SCALE};
use crate::polynomials::{dot, eval_fixed, PolyError};
use crate::{FILL_VALUE, POLY_SIZE};

verus! {

/// Failures of loading a polynomial's coefficients.
#[derive(Debug, Clone, Copy, PartialEq, Eq, Structural)]
pub enum DataError {
    /// `count` coefficients were given for `capacity` slots.
    TooManyCoefficients { count: usize, capacity: usize },
}

/// The loaded polynomial: `stored` is highest degree first; slot `i` holds the
/// coefficient of `x^i`, and the slots past the stored ones hold `FILL_VALUE`.
pub open spec fn loaded(stored: Seq<i32>) -> Seq<i32> {
    Seq::new(
        POLY_SIZE as nat,
        |i: int|
            if i < stored.len() {
                stored[stored.len() - 1 - i]
            } else {
                FILL_VALUE
            },
    )
}

/// Loads a polynomial from its coefficients as stored, highest degree first,
/// into `POLY_SIZE` slots, lowest degree first, padding with `FILL_VALUE`.
/// Fails when more coefficients are given than there are slots.
pub fn get_coefs(stored: &[i32]) -> (r: Result<Vec<i32>, DataError>)
    ensures
        match r {
            Ok(v) => {
                &&& stored@.len() <= POLY_SIZE
                &&& v@ == loaded(stored@)
                &&& v@.len() == POLY_SIZE
                &&& forall|i: int| stored@.len() <= i < POLY_SIZE ==> v@[i] == FILL_VALUE
            },
            Err(DataError::TooManyCoefficients { count, capacity }) => {
                &&& stored@.len() > POLY_SIZE
                &&& count == stored@.len()
                &&& capacity == POLY_SIZE
            },
        },
{
    let k = stored.len();
    if k > POLY_SIZE {
        return Err(DataError::TooManyCoefficients { count: k, capacity: POLY_SIZE });
    }
    let mut out: Vec<i32> = Vec::new();
    let mut i: usize = 0;
    while i < POLY_SIZE
        invariant
            k == stored@.len(),
            k <= POLY_SIZE,
            i <= POLY_SIZE,
            out@.len() == i,
            forall|j: int| 0 <= j < i ==> out@[j] == loaded(stored@)[j],
        decreases POLY_SIZE - i,
    {
        if i < k {
            out.push(stored[k - 1 - i]);
        } else {
            out.push(FILL_VALUE);
        }
        i = i + 1;
    }
    assert(out@ =~= loaded(stored@));
    Ok(out)
}

/// Evaluation of the stored coefficients alone, lowest degree first.
pub open spec fn eval_stored(powers: Seq<i32>, stored: Seq<i32>) -> int {
    rescale(dot(powers, loaded(stored), stored.len()))
}

proof fn lemma_padding_terms_vanish(powers: Seq<i32>, stored: Seq<i32>, n: nat)
    requires
        stored.len() <= n <= POLY_SIZE,
    ensures
        dot(powers, loaded(stored), n) == dot(powers, loaded(stored), stored.len()),
    decreases n,
{
    if n > stored.len() {
        lemma_padding_terms_vanish(powers, stored, (n - 1) as nat);
        assert(loaded(stored)[n - 1] == FILL_VALUE);
    }
}

/// The fill value of the padded slots adds nothing: evaluating a loaded
/// polynomial gives the value of its stored coefficients alone.
pub proof fn lemma_padding_adds_nothing(powers: Seq<i32>, stored: Seq<i32>)
    requires
        powers.len() == POLY_SIZE,
        stored.len() <= POLY_SIZE,
    ensures
        eval_fixed(powers, loaded(stored)) == eval_stored(powers, stored),
{
    lemma_padding_terms_vanish(powers, stored, POLY_SIZE as nat);
}

/// Fixed-point `base^i`, each step multiplying by `base` and rescaling.
pub open spec fn fixed_pow(base: int, i: nat) -> int
    decreases i,
{
    if i == 0 {
        SCALE as int
    } else {
        rescale(fixed_pow(base, (i - 1) as nat) * base)
    }
}

/// The power basis `[base^0, base^1, ..., base^(POLY_SIZE - 1)]` of a
/// fixed-point evaluation point. Fails when a power leaves the range.
pub fn get_powers(base: i32) -> (r: Result<Vec<i32>, PolyError>)
    ensures
        match r {
            Ok(v) => {
                &&& v@.len() == POLY_SIZE
                &&& forall|i: int|
                    0 <= i < POLY_SIZE ==> fits_i32(#[trigger] fixed_pow(base as int, i as nat))
                        && v@[i] == fixed_pow(base as int, i as nat)
            },
            Err(e) => {
                &&& e == PolyError::Overflow
                &&& exists|i: int|
                    0 <= i < POLY_SIZE && !fits_i32(#[trigger] fixed_pow(base as int, i as nat))
            },
        },
{
    let mut out: Vec<i32> = Vec::new();
    let mut cur: i32 = SCALE;
    let mut i: usize = 0;
    while i < POLY_SIZE
        invariant
            i < POLY_SIZE ==> cur == fixed_pow(base as int, i as nat),
            i <= POLY_SIZE,
            out@.len() == i,
            forall|j: int|
                0 <= j < i ==> fits_i32(#[trigger] fixed_pow(base as int, j as nat)) && out@[j]
                    == fixed_pow(base as int, j as nat),
        decreases POLY_SIZE - i,
    {
        out.push(cur);
        if i + 1 < POLY_SIZE {
            proof {
                lemma_mul_bound(cur, base);
            }
            let next = rescale_i128((cur as i128) * (base as i128));
            if next < i32::MIN as i128 || next > i32::MAX as i128 {
                assert(!fits_i32(fixed_pow(base as int, (i + 1) as nat)));
                return Err(PolyError::Overflow);
            }
            cur = next as i32;
        }
        i = i + 1;
    }
    Ok(out)
}

} // verus!
