//! The order of one protocol run: prover setup, verifier setup, query,
//! response, check. The driver performs each step and reports it here.
use vstd::prelude::*;
use crate::roles::Outcome;

verus! {

/// Where a run stands.
#[derive(Debug, Clone, Copy, PartialEq, Eq, Structural)]
pub enum Phase {
    Idle,
    ProverReady,
    VerifierReady,
    Queried,
    Responded,
    Verified { outcome: Outcome },
}

/// A step that the driver has completed.
#[derive(Debug, Clone, Copy, PartialEq, Eq, Structural)]
pub enum Step {
    SetupProver,
    SetupVerifier,
    CreateQuery,
    RunQuery,
    CheckResponse { outcome: Outcome },
}

/// A step attempted from a phase that does not admit it.
#[derive(Debug, Clone, Copy, PartialEq, Eq, Structural)]
pub struct ProtocolStateError {
    pub phase: Phase,
    pub step: Step,
}

/// The phase after `step`, when `phase` admits it.
pub open spec fn next_phase(phase: Phase, step: Step) -> Option<Phase> {
    match (phase, step) {
        (Phase::Idle, Step::SetupProver) => Some(Phase::ProverReady),
        (Phase::ProverReady, Step::SetupVerifier) => Some(Phase::VerifierReady),
        (Phase::VerifierReady, Step::CreateQuery) => Some(Phase::Queried),
        (Phase::Queried, Step::RunQuery) => Some(Phase::Responded),
        (Phase::Responded, Step::CheckResponse { outcome }) => Some(Phase::Verified { outcome }),
        _ => None,
    }
}

/// Moves a run on by one completed step; a step out of order is an error
/// and leaves the run where it was.
pub fn advance(phase: Phase, step: Step) -> (r: Result<Phase, ProtocolStateError>)
    ensures
        match next_phase(phase, step) {
            Some(p) => r == Ok::<Phase, ProtocolStateError>(p),
            None => r == Err::<Phase, ProtocolStateError>(ProtocolStateError { phase, step }),
        },
{
    match (phase, step) {
        (Phase::Idle, Step::SetupProver) => Ok(Phase::ProverReady),
        (Phase::ProverReady, Step::SetupVerifier) => Ok(Phase::VerifierReady),
        (Phase::VerifierReady, Step::CreateQuery) => Ok(Phase::Queried),
        (Phase::Queried, Step::RunQuery) => Ok(Phase::Responded),
        (Phase::Responded, Step::CheckResponse { outcome }) => Ok(Phase::Verified { outcome }),
        _ => Err(ProtocolStateError { phase, step }),
    }
}

/// The phase reached from `phase` by `steps` in order, if each is admitted.
pub open spec fn run(phase: Phase, steps: Seq<Step>) -> Option<Phase>
    decreases steps.len(),
{
    if steps.len() == 0 {
        Some(phase)
    } else {
        match next_phase(phase, steps[0]) {
            Some(p) => run(p, steps.drop_first()),
            None => None,
        }
    }
}

/// A run from `Idle` ends verified exactly after the five steps in their
/// order: none is skipped or repeated, and `Verified` admits no further step.
pub proof fn lemma_only_full_run_verifies(steps: Seq<Step>, outcome: Outcome)
    ensures
        run(Phase::Idle, steps) == Some(Phase::Verified { outcome }) <==> steps == seq![
            Step::SetupProver,
            Step::SetupVerifier,
            Step::CreateQuery,
            Step::RunQuery,
            Step::CheckResponse { outcome },
        ],
{
    let full = seq![
        Step::SetupProver,
        Step::SetupVerifier,
        Step::CreateQuery,
        Step::RunQuery,
        Step::CheckResponse { outcome },
    ];
    reveal_with_fuel(run, 6);
    if steps == full {
        assert(full.drop_first() =~= seq![
            Step::SetupVerifier,
            Step::CreateQuery,
            Step::RunQuery,
            Step::CheckResponse { outcome },
        ]);
        assert(full.drop_first().drop_first() =~= seq![
            Step::CreateQuery,
            Step::RunQuery,
            Step::CheckResponse { outcome },
        ]);
        assert(full.drop_first().drop_first().drop_first() =~= seq![
            Step::RunQuery,
            Step::CheckResponse { outcome },
        ]);
        assert(full.drop_first().drop_first().drop_first().drop_first() =~= seq![
            Step::CheckResponse { outcome },
        ]);
        assert(full.drop_first().drop_first().drop_first().drop_first().drop_first().len() == 0);
    }
    if run(Phase::Idle, steps) == Some(Phase::Verified { outcome }) {
        lemma_verified_run_shape(steps, outcome);
    }
}

proof fn lemma_verified_run_shape(steps: Seq<Step>, outcome: Outcome)
    requires
        run(Phase::Idle, steps) == Some(Phase::Verified { outcome }),
    ensures
        steps == seq![
            Step::SetupProver,
            Step::SetupVerifier,
            Step::CreateQuery,
            Step::RunQuery,
            Step::CheckResponse { outcome },
        ],
{
    reveal_with_fuel(run, 6);
    let s1 = steps.drop_first();
    let s2 = s1.drop_first();
    let s3 = s2.drop_first();
    let s4 = s3.drop_first();
    let s5 = s4.drop_first();
    assert(steps.len() >= 1 && steps[0] == Step::SetupProver);
    assert(s1.len() >= 1 && s1[0] == Step::SetupVerifier);
    assert(s2.len() >= 1 && s2[0] == Step::CreateQuery);
    assert(s3.len() >= 1 && s3[0] == Step::RunQuery);
    assert(s4.len() >= 1 && s4[0] == (Step::CheckResponse { outcome }));
    if s5.len() > 0 {
        assert(next_phase(Phase::Verified { outcome }, s5[0]) is None);
        assert(false);
    }
    assert(steps =~= seq![
        Step::SetupProver,
        Step::SetupVerifier,
        Step::CreateQuery,
        Step::RunQuery,
        Step::CheckResponse { outcome },
    ]);
}

} // verus!
