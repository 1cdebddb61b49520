//! The two roles' plaintext state and work. The prover holds the computation
//! and quotient polynomials; the verifier builds the query it encrypts, keeps
//! the secret reference value, and decides on the decrypted evaluations.
use vstd::prelude::*;
use crate::coefs::{fixed_pow, get_coefs, get_powers, loaded, DataError};
use crate::fixed::{fits_i32, lemma_mul_bound, rescale, rescale_i128};
use crate::polynomials::{eval_fixed, poly_evaluate, PolyError};
use crate::POLY_SIZE;

verus! {

/// Raw tolerance of the check: about one hundredth.
pub const TOLERANCE: i64 = 655;

/// Result of a completed check. A rejection is an outcome, not an error.
#[derive(Debug, Clone, Copy, PartialEq, Eq, Structural)]
pub enum Outcome {
    Accept,
    /// The prover's `P(s)` and the verifier's `T(s) * H(s)`, which differ by
    /// more than the tolerance.
    Reject { p_val: i32, th_val: i64 },
}

/// Failures of building a query.
#[derive(Debug, Clone, Copy, PartialEq, Eq, Structural)]
pub enum QueryError {
    Data(DataError),
    Poly(PolyError),
}

/// What the verifier keeps for one run: the power basis of its evaluation
/// point, which is encrypted and sent, and the secret value `T(s)`.
pub struct Query {
    pub powers: Vec<i32>,
    pub t_val: i32,
}

/// Fixed-point `T(s) * H(s)`.
pub open spec fn scaled_product(t_val: int, h_val: int) -> int {
    rescale(t_val * h_val)
}

pub open spec fn abs(x: int) -> int {
    if x < 0 {
        -x
    } else {
        x
    }
}

/// The decision on `P(s)`, `H(s)` and the secret `T(s)`.
pub open spec fn outcome(p_val: i32, h_val: i32, t_val: i32, tolerance: i64) -> Outcome {
    let th = scaled_product(t_val as int, h_val as int);
    if abs(p_val - th) <= tolerance {
        Outcome::Accept
    } else {
        Outcome::Reject { p_val, th_val: th as i64 }
    }
}

/// The powers of `base` that the query holds, when all of them fit.
pub open spec fn powers_fit(base: i32) -> bool {
    forall|i: int| 0 <= i < POLY_SIZE ==> fits_i32(#[trigger] fixed_pow(base as int, i as nat))
}

pub open spec fn powers_of(base: i32) -> Seq<i32> {
    Seq::new(POLY_SIZE as nat, |i: int| fixed_pow(base as int, i as nat) as i32)
}

/// The prover's polynomials, each in `POLY_SIZE` slots, lowest degree first.
pub struct Researcher {
    /// `P = L * R - O`.
    pub computation_polynomial: Vec<i32>,
    /// `H = P / T`.
    pub quotient_polynomial: Vec<i32>,
}

impl Researcher {
    /// Loads `P` and `H` from their stored coefficients, highest degree first.
    pub fn setup(computation: &[i32], quotient: &[i32]) -> (r: Result<Researcher, DataError>)
        ensures
            match r {
                Ok(res) => {
                    &&& computation@.len() <= POLY_SIZE
                    &&& quotient@.len() <= POLY_SIZE
                    &&& res.computation_polynomial@ == loaded(computation@)
                    &&& res.quotient_polynomial@ == loaded(quotient@)
                },
                Err(DataError::TooManyCoefficients { count, capacity }) => {
                    &&& capacity == POLY_SIZE
                    &&& if computation@.len() > POLY_SIZE {
                        count == computation@.len()
                    } else {
                        quotient@.len() > POLY_SIZE && count == quotient@.len()
                    }
                },
            },
    {
        let computation_polynomial = get_coefs(computation)?;
        let quotient_polynomial = get_coefs(quotient)?;
        Ok(Researcher { computation_polynomial, quotient_polynomial })
    }
}

/// The verifier's plaintext state: the target polynomial `T`, stored highest
/// degree first, and the tolerance of its check.
pub struct Referee {
    pub target: Vec<i32>,
    pub tolerance: i64,
}

impl Referee {
    pub fn setup(target: Vec<i32>, tolerance: i64) -> (r: Referee)
        ensures
            r.target@ == target@,
            r.tolerance == tolerance,
    {
        Referee { target, tolerance }
    }

    /// Builds the query for the evaluation point `base`: its power basis, and
    /// the value at `base` of the target polynomial.
    pub fn create_query(&self, base: i32) -> (r: Result<Query, QueryError>)
        ensures
            match r {
                Ok(q) => {
                    &&& powers_fit(base)
                    &&& self.target@.len() <= POLY_SIZE
                    &&& q.powers@ == powers_of(base)
                    &&& fits_i32(eval_fixed(powers_of(base), loaded(self.target@)))
                    &&& q.t_val == eval_fixed(powers_of(base), loaded(self.target@))
                },
                Err(QueryError::Poly(e)) => {
                    &&& e == PolyError::Overflow
                    &&& (!powers_fit(base) || (self.target@.len() <= POLY_SIZE && !fits_i32(
                        eval_fixed(powers_of(base), loaded(self.target@)),
                    )))
                },
                Err(QueryError::Data(e)) => {
                    &&& powers_fit(base)
                    &&& self.target@.len() > POLY_SIZE
                    &&& e == DataError::TooManyCoefficients {
                        count: self.target@.len() as usize,
                        capacity: POLY_SIZE,
                    }
                },
            },
    {
        let powers = match get_powers(base) {
            Ok(v) => v,
            Err(e) => {
                return Err(QueryError::Poly(e));
            },
        };
        assert(powers@ =~= powers_of(base));
        let coefs = match get_coefs(self.target.as_slice()) {
            Ok(v) => v,
            Err(e) => {
                return Err(QueryError::Data(e));
            },
        };
        match poly_evaluate(powers.as_slice(), coefs.as_slice()) {
            Ok(t_val) => Ok(Query { powers, t_val }),
            Err(e) => Err(QueryError::Poly(e)),
        }
    }

    /// Decides on the decrypted `P(s)` and `H(s)` and the secret `T(s)` of the
    /// query: accepts when `P(s)` is within the tolerance of `T(s) * H(s)`;
    /// otherwise rejects with the two compared values.
    pub fn check_response(&self, p_val: i32, h_val: i32, t_val: i32) -> (r: Outcome)
        ensures
            r == outcome(p_val, h_val, t_val, self.tolerance),
            r is Reject ==> -0x4000_0000_0000 <= scaled_product(t_val as int, h_val as int)
                <= 0x4000_0000_0000,
    {
        proof {
            lemma_mul_bound(t_val, h_val);
        }
        let th: i128 = rescale_i128((t_val as i128) * (h_val as i128));
        let diff: i128 = (p_val as i128) - th;
        let dist: i128 = if diff < 0 {
            -diff
        } else {
            diff
        };
        if dist <= self.tolerance as i128 {
            Outcome::Accept
        } else {
            Outcome::Reject { p_val, th_val: th as i64 }
        }
    }
}

/// When the prover's evaluations satisfy the identity `P(s) = T(s) * H(s)`
/// exactly, the check accepts, at any tolerance.
pub proof fn lemma_identity_accepts(p_val: i32, h_val: i32, t_val: i32, tolerance: i64)
    requires
        p_val == scaled_product(t_val as int, h_val as int),
        tolerance >= 0,
    ensures
        outcome(p_val, h_val, t_val, tolerance) == Outcome::Accept,
{
}

/// When `P(s)` and `T(s) * H(s)` differ by more than the tolerance, the check
/// rejects, and reports both values.
pub proof fn lemma_mismatch_rejects(p_val: i32, h_val: i32, t_val: i32, tolerance: i64)
    requires
        abs(p_val - scaled_product(t_val as int, h_val as int)) > tolerance,
    ensures
        outcome(p_val, h_val, t_val, tolerance) == (Outcome::Reject {
            p_val,
            th_val: scaled_product(t_val as int, h_val as int) as i64,
        }),
        -0x4000_0000_0000 <= scaled_product(t_val as int, h_val as int) <= 0x4000_0000_0000,
{
    lemma_mul_bound(t_val, h_val);
}

} // verus!
