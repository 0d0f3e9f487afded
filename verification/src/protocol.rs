use vstd::prelude::*;
use crate::channel::ChannelEventView;
use crate::coordinator::CoordinatorView;
use crate::coordinator::PhaseView;
use crate::coordinator::ReplyView;
use crate::coordinator::RequestView;
use crate::coordinator::Turn;
use crate::coordinator::reached;
use crate::epoch::OpIdentifier;
use crate::errors::ExecutionErrorView;
use crate::record::OperationView;
use crate::record::PortHandle;
use crate::source_node::ListenerStepView;
use crate::source_node::ListenerTurn;
use crate::source_node::ListenerView;

verus! {

/// What a coordinator can be called with.
pub enum Input {
    /// An operation arrived from the source.
    Data { txid: u64, seq_in_tx: u64, op: OperationView, port: PortHandle, terminating: bool },
    /// Nothing arrived from the source.
    Idle { terminating: bool },
    /// The source is to be terminated.
    Terminate,
    /// What was asked for has turned out so.
    Reply(ReplyView),
}

/// A call together with the time at which it is made.
pub struct Call {
    pub input: Input,
    pub now: u64,
}

/// One call of a coordinator.
pub open spec fn step(c: CoordinatorView, call: Call) -> Turn {
    match call.input {
        Input::Data { txid, seq_in_tx, op, port, terminating } => c.on_data(
            txid,
            seq_in_tx,
            op,
            port,
            terminating,
            call.now,
        ),
        Input::Idle { terminating } => c.on_idle(terminating, call.now),
        Input::Terminate => c.on_terminate(),
        Input::Reply(reply) => c.on_reply(reply, call.now),
    }
}

/// The coordinator after a sequence of calls.
pub open spec fn run(c: CoordinatorView, calls: Seq<Call>) -> CoordinatorView
    decreases calls.len(),
{
    if calls.len() == 0 {
        c
    } else {
        step(run(c, calls.drop_last()), calls.last()).state
    }
}

/// No call breaks what holds of every coordinator, none changes its
/// settings, and none moves the source's position or its last checkpoint
/// backwards.
pub proof fn lemma_step_keeps_order(c: CoordinatorView, call: Call)
    requires
        c.wf(),
    ensures
        step(c, call).state.wf(),
        reached(c.position, step(c, call).state.position),
        reached(c.durable, step(c, call).state.durable),
        step(c, call).state.source == c.source,
        step(c, call).state.commit_sz == c.commit_sz,
        step(c, call).state.commit_time_threshold == c.commit_time_threshold,
{
}

/// The same of any sequence of calls.
pub proof fn lemma_run_keeps_order(c: CoordinatorView, calls: Seq<Call>)
    requires
        c.wf(),
    ensures
        run(c, calls).wf(),
        reached(c.position, run(c, calls).position),
        reached(c.durable, run(c, calls).durable),
    decreases calls.len(),
{
    if calls.len() > 0 {
        lemma_run_keeps_order(c, calls.drop_last());
        lemma_step_keeps_order(run(c, calls.drop_last()), calls.last());
    }
}

/// Termination never goes ahead of the last checkpoint: whatever calls a
/// coordinator has seen, when it asks for the termination to be sent out
/// no forwarded operation is outstanding and the checkpoint that was last
/// written is the place where the source stands.
pub proof fn lemma_terminate_behind_checkpoint(c: CoordinatorView, calls: Seq<Call>, call: Call)
    requires
        c.wf(),
        step(run(c, calls), call).request is Terminate,
    ensures
        step(run(c, calls), call).state.uncommitted == 0,
        step(run(c, calls), call).state.durable == step(run(c, calls), call).state.position,
{
    lemma_run_keeps_order(c, calls);
    lemma_step_keeps_order(run(c, calls), call);
}

/// A commit is let out only behind its checkpoint: when a coordinator asks
/// for a commit to be flushed, the call that made it ask was the report
/// that the checkpoint of that epoch was written, and that checkpoint is
/// the position the commit carries.
pub proof fn lemma_commit_behind_checkpoint(c: CoordinatorView, calls: Seq<Call>, call: Call)
    requires
        c.wf(),
        step(run(c, calls), call).request is FlushCommit,
    ensures
        call.input matches Input::Reply(ReplyView::CheckpointWritten(outcome)) && outcome is Ok,
        run(c, calls).phase matches PhaseView::Persisting { epoch, .. } && epoch == step(
            run(c, calls),
            call,
        ).request->FlushCommit_epoch,
        step(run(c, calls), call).state.durable == Some(
            step(run(c, calls), call).request->FlushCommit_position,
        ),
{
    lemma_run_keeps_order(c, calls);
}

/// The checkpoint moves only when a write of it is reported as done, and
/// then to the place where the source stands.
pub proof fn lemma_checkpoint_moves_on_write(c: CoordinatorView, call: Call)
    requires
        c.wf(),
        step(c, call).state.durable != c.durable,
    ensures
        call.input matches Input::Reply(ReplyView::CheckpointWritten(outcome)) && outcome is Ok,
        c.phase is Persisting,
        step(c, call).state.durable == c.position,
{
}

/// A source that resumes from a checkpoint lets nothing through again:
/// whatever calls its coordinator has seen, an operation that it hands out
/// for forwarding lies strictly behind the place the coordinator started
/// from, and strictly behind everything handed out before.
pub proof fn lemma_forwards_only_ahead(c: CoordinatorView, calls: Seq<Call>, call: Call)
    requires
        c.wf(),
        step(run(c, calls), call).request is Forward,
    ensures
        call.input matches Input::Data { txid, seq_in_tx, op, port, .. } && {
            &&& step(run(c, calls), call).request == (RequestView::Forward { op, port })
            &&& step(run(c, calls), call).state.position == Some(OpIdentifier { txid, seq_in_tx })
            &&& c.position matches Some(start) ==> start.precedes(OpIdentifier { txid, seq_in_tx })
            &&& run(c, calls).position matches Some(last) ==> last.precedes(
                OpIdentifier { txid, seq_in_tx },
            )
        },
{
    lemma_run_keeps_order(c, calls);
}

/// A failure is final: a coordinator that has failed answers every call
/// with the error it failed with, and stays as it is.
pub proof fn lemma_failure_is_final(c: CoordinatorView, call: Call)
    requires
        c.phase is Failed,
    ensures
        step(c, call).state == c,
        step(c, call).request == RequestView::Done(Err(c.phase->Failed_0)),
{
}

/// The error that a reply reports, if it reports one.
pub open spec fn failure_of(reply: ReplyView) -> Option<ExecutionErrorView> {
    match reply {
        ReplyView::Forwarded(Err(e)) => Some(e),
        ReplyView::EpochAssigned(Err(e)) => Some(e),
        ReplyView::CheckpointWritten(Err(e)) => Some(e),
        ReplyView::CommitFlushed(Err(e)) => Some(e),
        ReplyView::Terminated(Err(e)) => Some(e),
        _ => None,
    }
}

/// The reply answers what a coordinator in this phase asked for.
pub open spec fn answers(phase: PhaseView, reply: ReplyView) -> bool {
    match (phase, reply) {
        (PhaseView::Forwarding { .. }, ReplyView::Forwarded(_)) => true,
        (PhaseView::AwaitingEpoch { .. }, ReplyView::EpochAssigned(_)) => true,
        (PhaseView::Persisting { .. }, ReplyView::CheckpointWritten(_)) => true,
        (PhaseView::Flushing { .. }, ReplyView::CommitFlushed(_)) => true,
        (PhaseView::Terminating, ReplyView::Terminated(_)) => true,
        _ => false,
    }
}

/// Any failure of what a coordinator asked for stops it with that very
/// error, whether it was forwarding, the assignment of an epoch, the
/// writing of a checkpoint, the flushing of a commit or the termination
/// that failed.
pub proof fn lemma_failure_stops(c: CoordinatorView, reply: ReplyView, now: u64)
    requires
        answers(c.phase, reply),
        failure_of(reply) is Some,
    ensures
        c.on_reply(reply, now).request == RequestView::Done(Err(failure_of(reply)->0)),
        c.on_reply(reply, now).state == (CoordinatorView {
            phase: PhaseView::Failed(failure_of(reply)->0),
            ..c
        }),
{
}

/// What a listener can be called with.
pub enum ListenerInput {
    /// A wait on the channel ended with this event, and the running flag
    /// read so.
    Event { event: ChannelEventView, running: bool },
    /// What the listener asked for has turned out so.
    Reply(ReplyView),
}

/// A call of a listener together with the time at which it is made.
pub struct ListenerCall {
    pub input: ListenerInput,
    pub now: u64,
}

/// One call of a listener.
pub open spec fn listener_step(l: ListenerView, call: ListenerCall) -> ListenerTurn {
    match call.input {
        ListenerInput::Event { event, running } => l.on_event(event, running, call.now),
        ListenerInput::Reply(reply) => l.on_reply(reply, call.now),
    }
}

/// The listener after a sequence of calls.
pub open spec fn listener_run(l: ListenerView, calls: Seq<ListenerCall>) -> ListenerView
    decreases calls.len(),
{
    if calls.len() == 0 {
        l
    } else {
        listener_step(listener_run(l, calls.drop_last()), calls.last()).state
    }
}

/// No call breaks what holds of every listener.
pub proof fn lemma_listener_step_wf(l: ListenerView, call: ListenerCall)
    requires
        l.wf(),
    ensures
        listener_step(l, call).state.wf(),
        reached(l.coordinator.position, listener_step(l, call).state.coordinator.position),
{
}

/// The same of any sequence of calls.
pub proof fn lemma_listener_run_wf(l: ListenerView, calls: Seq<ListenerCall>)
    requires
        l.wf(),
    ensures
        listener_run(l, calls).wf(),
        reached(l.coordinator.position, listener_run(l, calls).coordinator.position),
    decreases calls.len(),
{
    if calls.len() > 0 {
        lemma_listener_run_wf(l, calls.drop_last());
        lemma_listener_step_wf(listener_run(l, calls.drop_last()), calls.last());
    }
}

/// No listener sends its termination out ahead of its last checkpoint:
/// whatever it has seen, when its next step is to terminate, nothing that
/// it forwarded is outstanding and the checkpoint that was last written is
/// the place where its source stands.
pub proof fn lemma_listener_terminates_behind_checkpoint(
    l: ListenerView,
    calls: Seq<ListenerCall>,
    call: ListenerCall,
)
    requires
        l.wf(),
        listener_step(listener_run(l, calls), call).step is Terminate,
    ensures
        listener_step(listener_run(l, calls), call).state.coordinator.uncommitted == 0,
        listener_step(listener_run(l, calls), call).state.coordinator.durable == listener_step(
            listener_run(l, calls),
            call,
        ).state.coordinator.position,
{
    lemma_listener_run_wf(l, calls);
    lemma_listener_step_wf(listener_run(l, calls), call);
}

/// A listener leaves its loop in success only when the termination went
/// out, which it asked for behind its last checkpoint.
pub proof fn lemma_listener_exits_after_termination(l: ListenerView, call: ListenerCall)
    requires
        l.wf(),
        listener_step(l, call).step == ListenerStepView::Exit(Ok(())),
    ensures
        listener_step(l, call).state.coordinator.phase is Terminated,
        listener_step(l, call).state.coordinator.uncommitted == 0,
        listener_step(l, call).state.coordinator.durable == listener_step(
            l,
            call,
        ).state.coordinator.position,
{
}

/// A listener with nothing under way that finds its channel closed while
/// its source is still supposed to be running fails with
/// `ChannelDisconnected`: at once where no commit is due, and otherwise
/// when the commit is through.
pub proof fn lemma_disconnected_while_running(l: ListenerView, now: u64)
    requires
        l.wf(),
        l.coordinator.phase is Idle,
    ensures
        ({
            let turn = l.on_event(ChannelEventView::Disconnected, true, now);
            &&& turn.state.disconnected
            &&& !l.coordinator.commit_due(false, now) || l.coordinator.uncommitted == 0
                ==> turn.step == ListenerStepView::Exit(
                Err(ExecutionErrorView::ChannelDisconnected),
            )
            &&& l.coordinator.commit_due(false, now) && l.coordinator.uncommitted > 0 ==> turn.step
                == ListenerStepView::AcquireEpoch
        }),
{
}

/// A listener with nothing under way whose source is no longer running
/// never fails over a closed channel, and never waits again: it commits
/// what is outstanding, or terminates at once where nothing is.
pub proof fn lemma_stopped_source_terminates(l: ListenerView, event: ChannelEventView, now: u64)
    requires
        l.wf(),
        l.coordinator.phase is Idle,
        !(event is Data),
    ensures
        ({
            let turn = l.on_event(event, false, now);
            &&& !turn.state.disconnected
            &&& l.coordinator.uncommitted == 0 ==> turn.step == ListenerStepView::Terminate
            &&& l.coordinator.uncommitted > 0 ==> turn.step == ListenerStepView::AcquireEpoch
        }),
{
}

} // verus!
