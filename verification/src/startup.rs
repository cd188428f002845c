//! Bringing the relay up: the listener is bound, then the sending socket is
//! bound, then it is connected to the forwarding destination. A step that
//! fails ends the startup; the relay serves only after all three.

use vstd::prelude::*;

verus! {

/// How far the startup has come.
#[derive(Clone, Copy, Debug, PartialEq, Eq, Structural)]
pub enum Stage {
    /// Next: bind the listener to the listen address.
    BindListener,
    /// Next: bind the sending socket to a local port of the system's choice.
    BindSender,
    /// Next: connect the sending socket to the forward address.
    ConnectSender,
    /// Both sockets are up: the accept loop may run.
    Serving,
    /// A step failed: the process reports the error and does not serve.
    Failed,
}

/// The stage that follows `stage` when its step succeeded (`ok`) or failed.
pub open spec fn next_stage(stage: Stage, ok: bool) -> Stage {
    match stage {
        Stage::BindListener => if ok {
            Stage::BindSender
        } else {
            Stage::Failed
        },
        Stage::BindSender => if ok {
            Stage::ConnectSender
        } else {
            Stage::Failed
        },
        Stage::ConnectSender => if ok {
            Stage::Serving
        } else {
            Stage::Failed
        },
        Stage::Serving => Stage::Serving,
        Stage::Failed => Stage::Failed,
    }
}

/// Moves on from `stage` with the outcome of its step.
pub fn advance(stage: Stage, ok: bool) -> (r: Stage)
    ensures
        r == next_stage(stage, ok),
{
    match stage {
        Stage::BindListener => if ok {
            Stage::BindSender
        } else {
            Stage::Failed
        },
        Stage::BindSender => if ok {
            Stage::ConnectSender
        } else {
            Stage::Failed
        },
        Stage::ConnectSender => if ok {
            Stage::Serving
        } else {
            Stage::Failed
        },
        Stage::Serving => Stage::Serving,
        Stage::Failed => Stage::Failed,
    }
}

/// The relay comes to serve exactly when the listener was bound, the sender
/// was bound and the sender was connected; if any of the three failed, the
/// startup has failed, and a failed startup stays failed.
pub proof fn lemma_serving_needs_every_step(listener: bool, sender: bool, connected: bool)
    ensures
        ({
            let end = next_stage(
                next_stage(next_stage(Stage::BindListener, listener), sender),
                connected,
            );
            &&& end == Stage::Serving <==> listener && sender && connected
            &&& end == Stage::Failed <==> !(listener && sender && connected)
        }),
        forall|ok: bool| next_stage(Stage::Failed, ok) == Stage::Failed,
{
}

} // verus!
