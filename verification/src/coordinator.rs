use vstd::prelude::*;
use crate::epoch::OpIdentifier;
use crate::errors::ExecutionError;
use crate::errors::ExecutionErrorView;
use crate::node::NodeHandle;
use crate::node::NodeHandleView;
use crate::record::Operation;
use crate::record::OperationView;
use crate::record::PortHandle;

verus! {

/// Where a coordinator stands between the things it asks for.
#[derive(Debug, PartialEq, Eq)]
pub enum Phase {
    /// Nothing is under way.
    Idle,
    /// An operation was handed out for forwarding.
    Forwarding { terminating: bool },
    /// A commit was decided and waits for the identifier of its epoch.
    AwaitingEpoch { terminating: bool },
    /// The checkpoint of the epoch is being written.
    Persisting { epoch: u64, terminating: bool },
    /// The checkpoint is written and the commit is being sent downstream.
    Flushing { epoch: u64, terminating: bool },
    /// Termination is being sent downstream.
    Terminating,
    /// The source is done.
    Terminated,
    /// Something failed; nothing more will be asked for.
    Failed(ExecutionError),
}

/// Mathematical value of a [`Phase`].
pub enum PhaseView {
    Idle,
    Forwarding { terminating: bool },
    AwaitingEpoch { terminating: bool },
    Persisting { epoch: u64, terminating: bool },
    Flushing { epoch: u64, terminating: bool },
    Terminating,
    Terminated,
    Failed(ExecutionErrorView),
}

impl View for Phase {
    type V = PhaseView;

    open spec fn view(&self) -> PhaseView {
        match self {
            Phase::Idle => PhaseView::Idle,
            Phase::Forwarding { terminating } => PhaseView::Forwarding { terminating: *terminating },
            Phase::AwaitingEpoch { terminating } => PhaseView::AwaitingEpoch {
                terminating: *terminating,
            },
            Phase::Persisting { epoch, terminating } => PhaseView::Persisting {
                epoch: *epoch,
                terminating: *terminating,
            },
            Phase::Flushing { epoch, terminating } => PhaseView::Flushing {
                epoch: *epoch,
                terminating: *terminating,
            },
            Phase::Terminating => PhaseView::Terminating,
            Phase::Terminated => PhaseView::Terminated,
            Phase::Failed(e) => PhaseView::Failed(e@),
        }
    }
}

/// What a coordinator asks its surroundings to do next, or the result of
/// what it was asked to do.
#[derive(Debug, PartialEq, Eq)]
pub enum Request {
    /// Send the operation downstream on the port.
    Forward { op: Operation, port: PortHandle },
    /// Obtain the identifier of a new epoch from the epoch manager.
    AcquireEpoch,
    /// Write durably that the source has been folded into the epoch up to
    /// the position, together with the state that processors need to
    /// resume from there.
    WriteCheckpoint { epoch: u64, position: OpIdentifier },
    /// Tell downstream that the epoch is closed at the position.
    FlushCommit { epoch: u64, position: OpIdentifier },
    /// Tell downstream, and the epoch manager, that the source is done.
    Terminate,
    /// Nothing more to do: the call is answered, with whether the source is
    /// terminating, or with the error that stopped the coordinator.
    Done(Result<bool, ExecutionError>),
}

/// Mathematical value of a [`Request`].
pub enum RequestView {
    Forward { op: OperationView, port: PortHandle },
    AcquireEpoch,
    WriteCheckpoint { epoch: u64, position: OpIdentifier },
    FlushCommit { epoch: u64, position: OpIdentifier },
    Terminate,
    Done(Result<bool, ExecutionErrorView>),
}

impl View for Request {
    type V = RequestView;

    open spec fn view(&self) -> RequestView {
        match self {
            Request::Forward { op, port } => RequestView::Forward { op: op@, port: *port },
            Request::AcquireEpoch => RequestView::AcquireEpoch,
            Request::WriteCheckpoint { epoch, position } => RequestView::WriteCheckpoint {
                epoch: *epoch,
                position: *position,
            },
            Request::FlushCommit { epoch, position } => RequestView::FlushCommit {
                epoch: *epoch,
                position: *position,
            },
            Request::Terminate => RequestView::Terminate,
            Request::Done(Ok(terminating)) => RequestView::Done(Ok(*terminating)),
            Request::Done(Err(e)) => RequestView::Done(Err(e@)),
        }
    }
}

/// How what a coordinator asked for turned out.
#[derive(Debug, PartialEq, Eq)]
pub enum Reply {
    /// Answers [`Request::Forward`].
    Forwarded(Result<(), ExecutionError>),
    /// Answers [`Request::AcquireEpoch`], with the identifier obtained.
    EpochAssigned(Result<u64, ExecutionError>),
    /// Answers [`Request::WriteCheckpoint`].
    CheckpointWritten(Result<(), ExecutionError>),
    /// Answers [`Request::FlushCommit`].
    CommitFlushed(Result<(), ExecutionError>),
    /// Answers [`Request::Terminate`].
    Terminated(Result<(), ExecutionError>),
}

/// Mathematical value of a [`Reply`].
pub enum ReplyView {
    Forwarded(Result<(), ExecutionErrorView>),
    EpochAssigned(Result<u64, ExecutionErrorView>),
    CheckpointWritten(Result<(), ExecutionErrorView>),
    CommitFlushed(Result<(), ExecutionErrorView>),
    Terminated(Result<(), ExecutionErrorView>),
}

/// The value of the outcome of something that returns nothing.
pub open spec fn outcome_view(outcome: Result<(), ExecutionError>) -> Result<
    (),
    ExecutionErrorView,
> {
    match outcome {
        Ok(()) => Ok(()),
        Err(e) => Err(e@),
    }
}

impl View for Reply {
    type V = ReplyView;

    open spec fn view(&self) -> ReplyView {
        match self {
            Reply::Forwarded(outcome) => ReplyView::Forwarded(outcome_view(*outcome)),
            Reply::EpochAssigned(Ok(epoch)) => ReplyView::EpochAssigned(Ok(*epoch)),
            Reply::EpochAssigned(Err(e)) => ReplyView::EpochAssigned(Err(e@)),
            Reply::CheckpointWritten(outcome) => ReplyView::CheckpointWritten(
                outcome_view(*outcome),
            ),
            Reply::CommitFlushed(outcome) => ReplyView::CommitFlushed(outcome_view(*outcome)),
            Reply::Terminated(outcome) => ReplyView::Terminated(outcome_view(*outcome)),
        }
    }
}

/// Mathematical value of a [`SourceChannelManager`].
pub struct CoordinatorView {
    /// The source that the coordinator serves.
    pub source: NodeHandleView,
    /// The number of operations at which a commit is due.
    pub commit_sz: u32,
    /// The time since the last commit, in milliseconds, at which a commit
    /// is due.
    pub commit_time_threshold: u64,
    /// The number of operations forwarded since the last commit.
    pub uncommitted: nat,
    /// The time of the last commit, in milliseconds of the caller's clock.
    pub last_commit_at: u64,
    /// The position of the last operation forwarded, or where the source
    /// resumed from.
    pub position: Option<OpIdentifier>,
    /// The position of the last checkpoint that was written.
    pub durable: Option<OpIdentifier>,
    pub phase: PhaseView,
}

/// The position `to` is not behind the position `from`.
pub open spec fn reached(from: Option<OpIdentifier>, to: Option<OpIdentifier>) -> bool {
    match (from, to) {
        (None, _) => true,
        (Some(_), None) => false,
        (Some(a), Some(b)) => a.at_or_before(b),
    }
}

/// The error of a reply that answers nothing the coordinator asked for, or
/// of a call made while something is under way.
pub open spec fn out_of_turn() -> ExecutionErrorView {
    ExecutionErrorView::InternalError("coordinator called out of turn"@)
}

/// One step of a coordinator: its state afterwards and what it asks for.
pub struct Turn {
    pub state: CoordinatorView,
    pub request: RequestView,
}

impl CoordinatorView {
    /// The most operations that can be forwarded without a commit.
    pub open spec fn limit(self) -> nat {
        if self.commit_sz == 0 {
            1
        } else {
            self.commit_sz as nat
        }
    }

    /// What holds of every coordinator: operations that are forwarded but
    /// not committed are only as many as the commit size allows, the last
    /// checkpoint is not ahead of the source, and with no operation
    /// outstanding it is where the source stands.
    pub open spec fn wf(self) -> bool {
        &&& self.uncommitted > 0 ==> self.position is Some
        &&& reached(self.durable, self.position)
        &&& match self.phase {
            PhaseView::Idle => self.uncommitted < self.limit() && (self.uncommitted == 0
                ==> self.durable == self.position),
            PhaseView::Forwarding { .. } => 0 < self.uncommitted <= self.limit(),
            PhaseView::AwaitingEpoch { .. } => 0 < self.uncommitted <= self.limit(),
            PhaseView::Persisting { .. } => 0 < self.uncommitted <= self.limit(),
            PhaseView::Flushing { .. } => 0 < self.uncommitted <= self.limit() && self.durable
                == self.position,
            PhaseView::Terminating => self.uncommitted == 0 && self.durable == self.position,
            PhaseView::Terminated => self.uncommitted == 0 && self.durable == self.position,
            PhaseView::Failed(_) => true,
        }
    }

    /// A coordinator that starts at the time `now` for a source that
    /// resumes from `checkpoint`.
    pub open spec fn initial(
        source: NodeHandleView,
        commit_sz: u32,
        commit_time_threshold: u64,
        checkpoint: Option<OpIdentifier>,
        now: u64,
    ) -> CoordinatorView {
        CoordinatorView {
            source,
            commit_sz,
            commit_time_threshold,
            uncommitted: 0,
            last_commit_at: now,
            position: checkpoint,
            durable: checkpoint,
            phase: PhaseView::Idle,
        }
    }

    /// Milliseconds since the last commit; none where the clock went back.
    pub open spec fn elapsed(self, now: u64) -> int {
        if now >= self.last_commit_at {
            now - self.last_commit_at
        } else {
            0
        }
    }

    /// A commit is due: termination was asked for, or the operations since
    /// the last commit have reached the commit size, or the time since
    /// then has reached the threshold.
    pub open spec fn commit_due(self, terminating: bool, now: u64) -> bool {
        terminating || self.uncommitted >= self.commit_sz || self.elapsed(now)
            >= self.commit_time_threshold
    }

    /// The operation at `id` is at or before the place where the source
    /// stands: it was seen already and is not let through again.
    pub open spec fn is_stale(self, id: OpIdentifier) -> bool {
        self.position matches Some(p) && id.at_or_before(p)
    }

    /// The coordinator stops with the error `e`.
    pub open spec fn fail(self, e: ExecutionErrorView) -> Turn {
        Turn {
            state: CoordinatorView { phase: PhaseView::Failed(e), ..self },
            request: RequestView::Done(Err(e)),
        }
    }

    /// The answer to a call or a reply that does not fit the phase: a
    /// coordinator that failed repeats its error, one that terminated
    /// says so again, and any other fails.
    pub open spec fn refuse(self) -> Turn {
        match self.phase {
            PhaseView::Failed(e) => Turn { state: self, request: RequestView::Done(Err(e)) },
            PhaseView::Terminated => Turn { state: self, request: RequestView::Done(Ok(true)) },
            _ => self.fail(out_of_turn()),
        }
    }

    /// Decides on a commit with nothing under way.
    ///
    /// Where no commit is due, nothing changes. Where one is due and
    /// operations are outstanding, an epoch is asked for. Where one is due
    /// and nothing is outstanding, the last checkpoint already covers the
    /// source: the time of the last commit moves to `now`, and the call is
    /// answered with whether the source is terminating.
    pub open spec fn evaluate(self, terminating: bool, now: u64) -> Turn {
        if !self.commit_due(terminating, now) {
            Turn {
                state: CoordinatorView { phase: PhaseView::Idle, ..self },
                request: RequestView::Done(Ok(false)),
            }
        } else if self.uncommitted == 0 {
            Turn {
                state: CoordinatorView { phase: PhaseView::Idle, last_commit_at: now, ..self },
                request: RequestView::Done(Ok(terminating)),
            }
        } else {
            Turn {
                state: CoordinatorView { phase: PhaseView::AwaitingEpoch { terminating }, ..self },
                request: RequestView::AcquireEpoch,
            }
        }
    }

    /// An operation arrived from the source.
    ///
    /// One at or before the place where the source stands is dropped, and
    /// only a commit is decided on. Any other moves the source's position
    /// to its own, counts as outstanding, and is handed out for
    /// forwarding.
    pub open spec fn on_data(
        self,
        txid: u64,
        seq_in_tx: u64,
        op: OperationView,
        port: PortHandle,
        terminating: bool,
        now: u64,
    ) -> Turn {
        let id = OpIdentifier { txid, seq_in_tx };
        if !(self.phase is Idle) {
            self.refuse()
        } else if self.is_stale(id) {
            self.evaluate(terminating, now)
        } else {
            Turn {
                state: CoordinatorView {
                    position: Some(id),
                    uncommitted: self.uncommitted + 1,
                    phase: PhaseView::Forwarding { terminating },
                    ..self
                },
                request: RequestView::Forward { op, port },
            }
        }
    }

    /// Nothing arrived from the source: only a commit is decided on.
    pub open spec fn on_idle(self, terminating: bool, now: u64) -> Turn {
        if !(self.phase is Idle) {
            self.refuse()
        } else {
            self.evaluate(terminating, now)
        }
    }

    /// The source is to be terminated. This is granted only with nothing
    /// under way and nothing outstanding.
    pub open spec fn on_terminate(self) -> Turn {
        if self.phase is Idle && self.uncommitted == 0 {
            Turn {
                state: CoordinatorView { phase: PhaseView::Terminating, ..self },
                request: RequestView::Terminate,
            }
        } else {
            self.refuse()
        }
    }

    /// What the coordinator asked for has turned out as `reply` says.
    ///
    /// Any failure stops the coordinator with the error reported. After a
    /// forwarded operation a commit is decided on. The identifier of an
    /// epoch leads to the writing of the checkpoint, the written
    /// checkpoint to the flushing of the commit, and the flushed commit
    /// ends the call with nothing outstanding any more.
    pub open spec fn on_reply(self, reply: ReplyView, now: u64) -> Turn {
        match (self.phase, reply) {
            (PhaseView::Forwarding { terminating }, ReplyView::Forwarded(outcome)) => match outcome {
                Ok(()) => (CoordinatorView { phase: PhaseView::Idle, ..self }).evaluate(
                    terminating,
                    now,
                ),
                Err(e) => self.fail(e),
            },
            (PhaseView::AwaitingEpoch { terminating }, ReplyView::EpochAssigned(outcome)) => match (
                outcome,
                self.position,
            ) {
                (Ok(epoch), Some(position)) => Turn {
                    state: CoordinatorView {
                        phase: PhaseView::Persisting { epoch, terminating },
                        ..self
                    },
                    request: RequestView::WriteCheckpoint { epoch, position },
                },
                (Ok(_), None) => self.fail(out_of_turn()),
                (Err(e), _) => self.fail(e),
            },
            (
                PhaseView::Persisting { epoch, terminating },
                ReplyView::CheckpointWritten(outcome),
            ) => match (outcome, self.position) {
                (Ok(()), Some(position)) => Turn {
                    state: CoordinatorView {
                        durable: self.position,
                        phase: PhaseView::Flushing { epoch, terminating },
                        ..self
                    },
                    request: RequestView::FlushCommit { epoch, position },
                },
                (Ok(()), None) => self.fail(out_of_turn()),
                (Err(e), _) => self.fail(e),
            },
            (PhaseView::Flushing { epoch, terminating }, ReplyView::CommitFlushed(outcome)) => match outcome {
                Ok(()) => Turn {
                    state: CoordinatorView {
                        uncommitted: 0,
                        last_commit_at: now,
                        phase: PhaseView::Idle,
                        ..self
                    },
                    request: RequestView::Done(Ok(terminating)),
                },
                Err(e) => self.fail(e),
            },
            (PhaseView::Terminating, ReplyView::Terminated(outcome)) => match outcome {
                Ok(()) => Turn {
                    state: CoordinatorView { phase: PhaseView::Terminated, ..self },
                    request: RequestView::Done(Ok(true)),
                },
                Err(e) => self.fail(e),
            },
            _ => self.refuse(),
        }
    }
}

/// The commit coordinator of one source: it decides when an epoch is cut,
/// has the checkpoint written before the commit is let out, and lets the
/// source terminate only behind its last checkpoint.
///
/// The coordinator itself forwards, writes and waits for nothing. Each
/// call returns what is to be done next, and the outcome of that is handed
/// back through [`SourceChannelManager::resume`].
#[derive(Debug)]
pub struct SourceChannelManager {
    source_handle: NodeHandle,
    commit_sz: u32,
    commit_time_threshold: u64,
    num_uncommitted_ops: u64,
    last_commit_at: u64,
    position: Option<OpIdentifier>,
    durable: Option<OpIdentifier>,
    phase: Phase,
}

impl View for SourceChannelManager {
    type V = CoordinatorView;

    closed spec fn view(&self) -> CoordinatorView {
        CoordinatorView {
            source: self.source_handle@,
            commit_sz: self.commit_sz,
            commit_time_threshold: self.commit_time_threshold,
            uncommitted: self.num_uncommitted_ops as nat,
            last_commit_at: self.last_commit_at,
            position: self.position,
            durable: self.durable,
            phase: self.phase@,
        }
    }
}

/// The error of [`out_of_turn`].
fn out_of_turn_error() -> (e: ExecutionError)
    ensures
        e@ == out_of_turn(),
{
    ExecutionError::InternalError("coordinator called out of turn".to_string())
}

impl SourceChannelManager {
    /// A coordinator that starts at the time `now`, in milliseconds of the
    /// caller's clock, for a source that resumes from `checkpoint`.
    pub fn new(
        source_handle: NodeHandle,
        commit_sz: u32,
        commit_time_threshold: u64,
        checkpoint: Option<OpIdentifier>,
        now: u64,
    ) -> (manager: Self)
        ensures
            manager@.wf(),
            manager@ == CoordinatorView::initial(
                source_handle@,
                commit_sz,
                commit_time_threshold,
                checkpoint,
                now,
            ),
    {
        SourceChannelManager {
            source_handle,
            commit_sz,
            commit_time_threshold,
            num_uncommitted_ops: 0,
            last_commit_at: now,
            position: checkpoint,
            durable: checkpoint,
            phase: Phase::Idle,
        }
    }

    /// The source that the coordinator serves.
    pub fn source_handle(&self) -> (handle: &NodeHandle)
        ensures
            handle@ == self@.source,
    {
        &self.source_handle
    }

    /// The position of the last operation forwarded, or where the source
    /// resumed from.
    pub fn position(&self) -> (position: Option<OpIdentifier>)
        ensures
            position == self@.position,
    {
        self.position
    }

    /// The position of the last checkpoint that was written.
    pub fn durable_position(&self) -> (position: Option<OpIdentifier>)
        ensures
            position == self@.durable,
    {
        self.durable
    }

    /// The number of operations forwarded since the last commit.
    pub fn num_uncommitted_ops(&self) -> (n: u64)
        ensures
            n == self@.uncommitted,
    {
        self.num_uncommitted_ops
    }

    /// Whether the source is done.
    pub fn is_terminated(&self) -> (r: bool)
        ensures
            r == (self@.phase is Terminated),
    {
        match &self.phase {
            Phase::Terminated => true,
            _ => false,
        }
    }

    /// Stops the coordinator with the error `e`, as
    /// [`CoordinatorView::fail`] says.
    pub fn abort(&mut self, e: ExecutionError) -> (request: Request)
        requires
            old(self)@.wf(),
        ensures
            final(self)@.wf(),
            final(self)@ == old(self)@.fail(e@).state,
            request@ == old(self)@.fail(e@).request,
    {
        self.fail(e)
    }

    /// Whether a commit is due at the time `now`.
    pub fn should_commit(&self, terminating: bool, now: u64) -> (due: bool)
        ensures
            due == self@.commit_due(terminating, now),
    {
        let elapsed: u64 = if now >= self.last_commit_at {
            now - self.last_commit_at
        } else {
            0
        };
        terminating || self.num_uncommitted_ops >= self.commit_sz as u64 || elapsed
            >= self.commit_time_threshold
    }

    fn fail(&mut self, e: ExecutionError) -> (request: Request)
        ensures
            final(self)@ == old(self)@.fail(e@).state,
            request@ == old(self)@.fail(e@).request,
    {
        let reported = e.clone();
        self.phase = Phase::Failed(e);
        Request::Done(Err(reported))
    }

    fn refuse(&mut self) -> (request: Request)
        ensures
            final(self)@ == old(self)@.refuse().state,
            request@ == old(self)@.refuse().request,
    {
        match &self.phase {
            Phase::Failed(e) => Request::Done(Err(e.clone())),
            Phase::Terminated => Request::Done(Ok(true)),
            _ => self.fail(out_of_turn_error()),
        }
    }

    fn evaluate(&mut self, terminating: bool, now: u64) -> (request: Request)
        ensures
            final(self)@ == old(self)@.evaluate(terminating, now).state,
            request@ == old(self)@.evaluate(terminating, now).request,
    {
        if !self.should_commit(terminating, now) {
            self.phase = Phase::Idle;
            Request::Done(Ok(false))
        } else if self.num_uncommitted_ops == 0 {
            self.phase = Phase::Idle;
            self.last_commit_at = now;
            Request::Done(Ok(terminating))
        } else {
            self.phase = Phase::AwaitingEpoch { terminating };
            Request::AcquireEpoch
        }
    }

    /// Takes in an operation that arrived from the source at the position
    /// (`txid`, `seq_in_tx`), and decides on a commit, as
    /// [`CoordinatorView::on_data`] says.
    pub fn send_and_trigger_commit_if_needed(
        &mut self,
        txid: u64,
        seq_in_tx: u64,
        op: Operation,
        port: PortHandle,
        terminating: bool,
        now: u64,
    ) -> (request: Request)
        requires
            old(self)@.wf(),
        ensures
            final(self)@.wf(),
            final(self)@ == old(self)@.on_data(txid, seq_in_tx, op@, port, terminating, now).state,
            request@ == old(self)@.on_data(txid, seq_in_tx, op@, port, terminating, now).request,
    {
        let id = OpIdentifier::new(txid, seq_in_tx);
        let idle = match &self.phase {
            Phase::Idle => true,
            _ => false,
        };
        if !idle {
            return self.refuse();
        }
        let stale = match &self.position {
            Some(p) => id.is_at_or_before(p),
            None => false,
        };
        if stale {
            self.evaluate(terminating, now)
        } else {
            self.position = Some(id);
            self.num_uncommitted_ops = self.num_uncommitted_ops + 1;
            self.phase = Phase::Forwarding { terminating };
            Request::Forward { op, port }
        }
    }

    /// Decides on a commit when nothing arrived from the source, as
    /// [`CoordinatorView::on_idle`] says.
    pub fn trigger_commit_if_needed(&mut self, terminating: bool, now: u64) -> (request: Request)
        requires
            old(self)@.wf(),
        ensures
            final(self)@.wf(),
            final(self)@ == old(self)@.on_idle(terminating, now).state,
            request@ == old(self)@.on_idle(terminating, now).request,
    {
        let idle = match &self.phase {
            Phase::Idle => true,
            _ => false,
        };
        if !idle {
            self.refuse()
        } else {
            self.evaluate(terminating, now)
        }
    }

    /// Asks for the source's termination, as
    /// [`CoordinatorView::on_terminate`] says: it is granted only behind the
    /// last checkpoint.
    pub fn terminate(&mut self) -> (request: Request)
        requires
            old(self)@.wf(),
        ensures
            final(self)@.wf(),
            final(self)@ == old(self)@.on_terminate().state,
            request@ == old(self)@.on_terminate().request,
    {
        let idle = match &self.phase {
            Phase::Idle => true,
            _ => false,
        };
        if idle && self.num_uncommitted_ops == 0 {
            self.phase = Phase::Terminating;
            Request::Terminate
        } else {
            self.refuse()
        }
    }

    /// Takes in how the last request turned out, at the time `now`, and
    /// returns what is to be done next, as [`CoordinatorView::on_reply`]
    /// says.
    pub fn resume(&mut self, reply: Reply, now: u64) -> (request: Request)
        requires
            old(self)@.wf(),
        ensures
            final(self)@.wf(),
            final(self)@ == old(self)@.on_reply(reply@, now).state,
            request@ == old(self)@.on_reply(reply@, now).request,
    {
        match reply {
            Reply::Forwarded(outcome) => {
                let expected = match &self.phase {
                    Phase::Forwarding { terminating } => Some(*terminating),
                    _ => None,
                };
                match (expected, outcome) {
                    (Some(terminating), Ok(())) => {
                        self.phase = Phase::Idle;
                        self.evaluate(terminating, now)
                    },
                    (Some(_), Err(e)) => self.fail(e),
                    (None, _) => self.refuse(),
                }
            },
            Reply::EpochAssigned(outcome) => {
                let expected = match &self.phase {
                    Phase::AwaitingEpoch { terminating } => Some(*terminating),
                    _ => None,
                };
                match (expected, outcome, self.position) {
                    (Some(terminating), Ok(epoch), Some(position)) => {
                        self.phase = Phase::Persisting { epoch, terminating };
                        Request::WriteCheckpoint { epoch, position }
                    },
                    (Some(_), Ok(_), None) => self.fail(out_of_turn_error()),
                    (Some(_), Err(e), _) => self.fail(e),
                    (None, _, _) => self.refuse(),
                }
            },
            Reply::CheckpointWritten(outcome) => {
                let expected = match &self.phase {
                    Phase::Persisting { epoch, terminating } => Some((*epoch, *terminating)),
                    _ => None,
                };
                match (expected, outcome, self.position) {
                    (Some((epoch, terminating)), Ok(()), Some(position)) => {
                        self.durable = self.position;
                        self.phase = Phase::Flushing { epoch, terminating };
                        Request::FlushCommit { epoch, position }
                    },
                    (Some(_), Ok(()), None) => self.fail(out_of_turn_error()),
                    (Some(_), Err(e), _) => self.fail(e),
                    (None, _, _) => self.refuse(),
                }
            },
            Reply::CommitFlushed(outcome) => {
                let expected = match &self.phase {
                    Phase::Flushing { terminating, .. } => Some(*terminating),
                    _ => None,
                };
                match (expected, outcome) {
                    (Some(terminating), Ok(())) => {
                        self.num_uncommitted_ops = 0;
                        self.last_commit_at = now;
                        self.phase = Phase::Idle;
                        Request::Done(Ok(terminating))
                    },
                    (Some(_), Err(e)) => self.fail(e),
                    (None, _) => self.refuse(),
                }
            },
            Reply::Terminated(outcome) => {
                let expected = match &self.phase {
                    Phase::Terminating => true,
                    _ => false,
                };
                match (expected, outcome) {
                    (true, Ok(())) => {
                        self.phase = Phase::Terminated;
                        Request::Done(Ok(true))
                    },
                    (true, Err(e)) => self.fail(e),
                    (false, _) => self.refuse(),
                }
            },
        }
    }
}

} // verus!
