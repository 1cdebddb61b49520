use fhe_rs::coefs::DataError;
use fhe_rs::fixed::SCALE;
use fhe_rs::polynomials::{poly_evaluate, poly_multiply, PolyError};
use fhe_rs::protocol::{advance, Phase, ProtocolStateError, Step};
use fhe_rs::roles::{Outcome, QueryError, Referee, Researcher, TOLERANCE};
use fhe_rs::POLY_SIZE;

fn fx(x: f64) -> i32 {
    (x * SCALE as f64).round() as i32
}

fn stored(low_first: &[f64]) -> Vec<i32> {
    low_first.iter().rev().map(|&x| fx(x)).collect()
}

/// Runs the plaintext side of the protocol at `base` and returns the outcome.
fn plaintext_run(p: &[i32], h: &[i32], t: &[i32], base: f64) -> Outcome {
    let researcher = Researcher::setup(p, h).unwrap();
    let referee = Referee::setup(t.to_vec(), TOLERANCE);
    let query = referee.create_query(fx(base)).unwrap();
    let p_val = poly_evaluate(&query.powers, &researcher.computation_polynomial).unwrap();
    let h_val = poly_evaluate(&query.powers, &researcher.quotient_polynomial).unwrap();
    referee.check_response(p_val, h_val, query.t_val)
}

#[test]
fn identity_accepts() {
    // T = 1 + x, H = 2 + x^2, P = T * H.
    let t = [fx(1.0), fx(1.0)];
    let h = [fx(2.0), 0, fx(1.0)];
    let mut t_full = [0_i32; POLY_SIZE];
    t_full[..2].copy_from_slice(&t);
    let mut h_full = [0_i32; POLY_SIZE];
    h_full[..3].copy_from_slice(&h);
    let p_full = poly_multiply(&t_full, &h_full).unwrap();
    let p_stored: Vec<i32> = p_full[..4].iter().rev().cloned().collect();
    let outcome = plaintext_run(&p_stored, &stored(&[2.0, 0.0, 1.0]), &stored(&[1.0, 1.0]), 1.5);
    assert_eq!(outcome, Outcome::Accept);
}

#[test]
fn perturbed_quotient_rejects() {
    let p = stored(&[2.0, 2.0, 1.0, 1.0]);
    let h = stored(&[2.0, 0.0, 1.5]);
    let t = stored(&[1.0, 1.0]);
    let outcome = plaintext_run(&p, &h, &t, 1.5);
    // P(1.5) = 10.625, T(1.5) * H'(1.5) = 2.5 * 5.375 = 13.4375.
    assert_eq!(outcome, Outcome::Reject { p_val: fx(10.625), th_val: fx(13.4375) as i64 });
}

#[test]
fn check_response_tolerance_edges() {
    let referee = Referee::setup(vec![], 10);
    let t = fx(2.0);
    let h = fx(3.0);
    assert_eq!(referee.check_response(fx(6.0) + 10, h, t), Outcome::Accept);
    assert_eq!(referee.check_response(fx(6.0) - 10, h, t), Outcome::Accept);
    assert_eq!(
        referee.check_response(fx(6.0) + 11, h, t),
        Outcome::Reject { p_val: fx(6.0) + 11, th_val: fx(6.0) as i64 }
    );
}

#[test]
fn query_holds_powers_and_target_value() {
    let referee = Referee::setup(stored(&[1.0, 0.0, 2.0]), TOLERANCE);
    let query = referee.create_query(fx(2.0)).unwrap();
    assert_eq!(query.powers.len(), POLY_SIZE);
    assert_eq!(query.powers[3], fx(8.0));
    assert_eq!(query.t_val, fx(9.0));
}

#[test]
fn query_errors() {
    let too_long = Referee::setup(vec![fx(1.0); POLY_SIZE + 1], TOLERANCE);
    assert_eq!(
        too_long.create_query(fx(1.5)).err(),
        Some(QueryError::Data(DataError::TooManyCoefficients {
            count: POLY_SIZE + 1,
            capacity: POLY_SIZE
        }))
    );
    let referee = Referee::setup(stored(&[1.0]), TOLERANCE);
    assert_eq!(referee.create_query(fx(100.0)).err(), Some(QueryError::Poly(PolyError::Overflow)));
}

#[test]
fn researcher_setup_rejects_long_quotient() {
    let p = vec![fx(1.0); 3];
    let h = vec![fx(1.0); POLY_SIZE + 2];
    assert_eq!(
        Researcher::setup(&p, &h).err(),
        Some(DataError::TooManyCoefficients { count: POLY_SIZE + 2, capacity: POLY_SIZE })
    );
}

#[test]
fn protocol_runs_in_order() {
    let mut phase = Phase::Idle;
    for step in [
        Step::SetupProver,
        Step::SetupVerifier,
        Step::CreateQuery,
        Step::RunQuery,
        Step::CheckResponse { outcome: Outcome::Accept },
    ] {
        phase = advance(phase, step).unwrap();
    }
    assert_eq!(phase, Phase::Verified { outcome: Outcome::Accept });
}

#[test]
fn protocol_refuses_skipped_step() {
    assert_eq!(
        advance(Phase::ProverReady, Step::CreateQuery),
        Err(ProtocolStateError { phase: Phase::ProverReady, step: Step::CreateQuery })
    );
    let done = Phase::Verified { outcome: Outcome::Accept };
    assert!(advance(done, Step::SetupProver).is_err());
}
