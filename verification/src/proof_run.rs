//! Coupled lifetimes of the two workers of a shared-texture proof run.
use vstd::prelude::*;
use crate::text;

verus! {

/// Exit status of a worker, and how it is shown.
#[derive(Debug, Clone, PartialEq, Eq)]
pub struct WorkerStatus {
    pub success: bool,
    pub shown: String,
}

/// What one poll of both workers leads to.
#[derive(Debug, PartialEq, Eq)]
pub enum ProofStep {
    /// Both run; poll again.
    Continue,
    /// Stop whatever still runs, and end with this result.
    Finish(Result<(), String>),
}

/// The failure of a worker.
pub open spec fn failure_text(component: Seq<char>, status: WorkerStatus) -> Seq<char> {
    component + " worker exited with "@ + status.shown@
}

/// Treat the encoder's clean downstream-pipe exit as normal proof completion.
pub fn exit_result(component: &str, status: &WorkerStatus) -> (result: Result<(), String>)
    ensures
        match result {
            Ok(()) => status.success,
            Err(message) => !status.success && message@ == failure_text(component@, *status),
        },
{
    if status.success {
        return Ok(());
    }
    let mut message = component.to_owned();
    text::push_text(&mut message, " worker exited with ");
    text::push_text(&mut message, status.shown.as_str());
    Err(message)
}

/// Decides on one poll: the producer must not exit at all, the consumer may exit cleanly, and a
/// bounded run ends at its deadline.
pub fn poll(
    selector: Option<WorkerStatus>,
    encoder: Option<WorkerStatus>,
    deadline_passed: bool,
) -> (step: ProofStep)
    ensures
        match (selector, encoder) {
            (Some(status), _) => step matches ProofStep::Finish(Err(message)) && message@
                == "selector worker exited unexpectedly with "@ + status.shown@,
            (None, Some(status)) => match step {
                ProofStep::Finish(Ok(())) => status.success,
                ProofStep::Finish(Err(message)) => !status.success && message@ == failure_text(
                    "encoder"@,
                    status,
                ),
                ProofStep::Continue => false,
            },
            (None, None) => match step {
                ProofStep::Finish(Ok(())) => deadline_passed,
                ProofStep::Finish(Err(_)) => false,
                ProofStep::Continue => !deadline_passed,
            },
        },
{
    if let Some(status) = selector {
        let mut message = "selector worker exited unexpectedly with ".to_owned();
        text::push_text(&mut message, status.shown.as_str());
        return ProofStep::Finish(Err(message));
    }
    if let Some(status) = encoder {
        return ProofStep::Finish(exit_result("encoder", &status));
    }
    if deadline_passed {
        return ProofStep::Finish(Ok(()));
    }
    ProofStep::Continue
}

/// A run fails with any exit of the producer and with a failed consumer, ends cleanly with a clean
/// consumer or at its deadline, and goes on otherwise.
pub proof fn law_runs_end_with_their_workers(
    selector: Option<WorkerStatus>,
    encoder: Option<WorkerStatus>,
    deadline_passed: bool,
    step: ProofStep,
)
    requires
        call_ensures(poll, (selector, encoder, deadline_passed), step),
    ensures
        step is Continue <==> selector is None && encoder is None && !deadline_passed,
        (step matches ProofStep::Finish(result) && result is Err) <==> selector is Some || (encoder
            is Some && !encoder->Some_0.success),
{
}

/// A worker ends a run cleanly exactly if it succeeded.
pub proof fn law_successful_workers_end_cleanly(
    component: &str,
    status: WorkerStatus,
    result: Result<(), String>,
)
    requires
        call_ensures(exit_result, (component, &status), result),
    ensures
        result is Ok <==> status.success,
        result matches Err(message) ==> message@ == component@ + " worker exited with "@
            + status.shown@,
{
}

} // verus!
