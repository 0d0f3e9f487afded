use std::sync::atomic::AtomicBool;
use std::sync::Arc;
use vstd::prelude::*;
use crossbeam::channel::Receiver;
use crate::channel::ChannelEvent;
use crate::channel::ChannelEventView;
use crate::channel::InternalChannelSourceForwarder;
use crate::channel::MAX_CHANNEL_CAPACITY;
use crate::channel::Message;
use crate::channel::bounded_channel;
use crate::channel::receive_message;
use crate::coordinator::CoordinatorView;
use crate::coordinator::Reply;
use crate::coordinator::ReplyView;
use crate::coordinator::Request;
use crate::coordinator::RequestView;
use crate::coordinator::SourceChannelManager;
use crate::coordinator::Turn;
use crate::epoch::OpIdentifier;
use crate::errors::ExecutionError;
use crate::errors::ExecutionErrorView;
use crate::node::NodeHandle;
use crate::node::NodeHandleView;
use crate::node::Source;
use crate::record::Operation;
use crate::record::OperationView;
use crate::record::PortHandle;

verus! {

/// What an executor is configured with.
#[derive(Clone, Copy, Debug, PartialEq, Eq, Structural)]
pub struct ExecutorOptions {
    /// The number of operations at which a source commits.
    pub commit_sz: u32,
    /// The capacity of the channel between a source and its listener.
    pub channel_buffer_sz: usize,
    /// The time, in milliseconds, after which a source commits, and for
    /// which its listener waits on the channel.
    pub commit_time_threshold: u64,
}

impl ExecutorOptions {
    /// The options can be used: the channel holds at least one message and
    /// no more than [`MAX_CHANNEL_CAPACITY`], beyond which no channel can
    /// be made.
    pub open spec fn valid(self) -> bool {
        1 <= self.channel_buffer_sz <= MAX_CHANNEL_CAPACITY
    }

    /// Whether the options can be used.
    pub fn is_valid(&self) -> (r: bool)
        ensures
            r == self.valid(),
    {
        1 <= self.channel_buffer_sz && self.channel_buffer_sz <= MAX_CHANNEL_CAPACITY
    }
}

/// The index of a node in a graph of the crate `daggy`.
#[verifier::external_type_specification]
#[verifier::external_body]
#[verifier::reject_recursive_types(Ix)]
pub struct ExNodeIndex<Ix>(daggy::NodeIndex<Ix>);

/// What `NodeIndex::index` returns for a node index: the place of its node
/// among the nodes of the graph.
pub uninterp spec fn node_index_value(index: daggy::NodeIndex) -> usize;

/// Largest place that a node index can stand for: one below the greatest
/// number of 32 bits, which marks the end.
pub const MAX_NODE_PLACE: usize = 0xffff_fffe;

/// Calls `NodeIndex::index`.
///
/// Trusted: nothing but that the call returns the same for the same
/// index, which gives the place its name.
#[verifier::external_body]
fn place_of(index: daggy::NodeIndex) -> (place: usize)
    ensures
        place == node_index_value(index),
{
    index.index()
}

/// Calls `NodeIndex::new`.
///
/// Trusted: that the index made of a place that 32 bits can hold stands
/// for that place. `new` cuts a greater number down to its low 32 bits,
/// which `requires` rules out.
#[verifier::external_body]
fn index_at(place: usize) -> (index: daggy::NodeIndex)
    requires
        place <= MAX_NODE_PLACE,
    ensures
        node_index_value(index) == place,
{
    daggy::NodeIndex::new(place)
}

/// What a node of the graph is.
pub enum NodeKind<S> {
    /// A source, with its connector and the checkpoint it resumes from.
    Source(S, Option<OpIdentifier>),
    Processor,
    Sink,
}

/// A node of the graph. Its kind is taken out when the node is set up for
/// running.
pub struct Node<S> {
    pub handle: NodeHandle,
    pub kind: Option<NodeKind<S>>,
}

/// The nodes of a dataflow graph, each known by its place, for which its
/// node index stands.
pub struct ExecutionDag<S> {
    nodes: Vec<Node<S>>,
}

impl<S> ExecutionDag<S> {
    /// The nodes by place.
    pub closed spec fn nodes(&self) -> Seq<Node<S>> {
        self.nodes@
    }

    /// The node at the place `place` is a source that was not set up
    /// yet.
    pub open spec fn is_source(&self, place: int) -> bool {
        &&& 0 <= place < self.nodes().len()
        &&& self.nodes()[place].kind matches Some(NodeKind::Source(_, _))
    }

    /// One more node can be added: the places that a node index can stand
    /// for are not used up.
    pub open spec fn has_room(&self) -> bool {
        self.nodes().len() <= MAX_NODE_PLACE
    }

    /// Whether one more node can be added.
    pub fn can_add_node(&self) -> (r: bool)
        ensures
            r == self.has_room(),
    {
        self.nodes.len() <= MAX_NODE_PLACE
    }

    /// A graph without nodes.
    pub fn new() -> (dag: Self)
        ensures
            dag.nodes() == Seq::<Node<S>>::empty(),
    {
        ExecutionDag { nodes: Vec::new() }
    }

    /// Adds a node behind the others and returns its index. The graph
    /// must have room for it.
    pub fn add_node(&mut self, handle: NodeHandle, kind: NodeKind<S>) -> (index: daggy::NodeIndex)
        requires
            old(self).has_room(),
        ensures
            node_index_value(index) == old(self).nodes().len(),
            final(self).nodes() == old(self).nodes().push(Node { handle, kind: Some(kind) }),
    {
        let place: usize = self.nodes.len();
        self.nodes.push(Node { handle, kind: Some(kind) });
        index_at(place)
    }

    /// The number of nodes.
    pub fn node_count(&self) -> (n: usize)
        ensures
            n == self.nodes().len(),
    {
        self.nodes.len()
    }

    /// Whether the node at `index` is a source that was not set up yet.
    pub fn has_source_at(&self, index: daggy::NodeIndex) -> (r: bool)
        ensures
            r == self.is_source(node_index_value(index) as int),
    {
        let place: usize = place_of(index);
        if place < self.nodes.len() {
            match &self.nodes[place].kind {
                Some(NodeKind::Source(_, _)) => true,
                _ => false,
            }
        } else {
            false
        }
    }

    fn take_kind(&mut self, index: usize) -> (kind: Option<NodeKind<S>>)
        requires
            index < old(self).nodes().len(),
        ensures
            kind == old(self).nodes()[index as int].kind,
            final(self).nodes() == old(self).nodes().update(
                index as int,
                Node { handle: old(self).nodes()[index as int].handle, kind: None },
            ),
    {
        let node = &mut self.nodes[index];
        node.kind.take()
    }
}

/// Calls `Arc::clone`.
///
/// Trusted: that the clone is another handle to the same flag.
#[verifier::external_body]
fn share_flag(flag: &Arc<AtomicBool>) -> (shared: Arc<AtomicBool>)
    ensures
        shared == *flag,
{
    Arc::clone(flag)
}

/// Where a connector is told to resume: behind the last checkpoint, where
/// there is one.
pub fn resume_point(last_checkpoint: Option<OpIdentifier>) -> (resume_from: Option<(u64, u64)>)
    ensures
        resume_from == match last_checkpoint {
            Some(id) => Some((id.txid, id.seq_in_tx)),
            None => None,
        },
{
    match last_checkpoint {
        Some(id) => Some((id.txid, id.seq_in_tx)),
        None => None,
    }
}

/// Clears the flag that tells the listener that its source is running,
/// and hands on the connector's result as it is.
pub fn signal_completion(running: &Arc<AtomicBool>, outcome: Result<(), ExecutionError>) -> (r:
    Result<(), ExecutionError>)
    ensures
        r == outcome,
{
    running.store(false, std::sync::atomic::Ordering::SeqCst);
    outcome
}

/// The sender half of a source: it runs the connector, which hands its
/// operations to the forwarder.
pub struct SourceSenderNode<S: Source> {
    /// Name of the node in the graph.
    node_handle: NodeHandle,
    /// The connector.
    source: S,
    /// The checkpoint the source resumes from.
    last_checkpoint: Option<OpIdentifier>,
    /// What the connector hands its operations to.
    forwarder: InternalChannelSourceForwarder,
    /// Whether the source is running; cleared when the connector returns.
    running: Arc<AtomicBool>,
}

impl<S: Source> SourceSenderNode<S> {
    /// Name of the node in the graph.
    pub closed spec fn spec_handle(&self) -> NodeHandleView {
        self.node_handle@
    }

    /// The connector.
    pub closed spec fn spec_source(&self) -> S {
        self.source
    }

    /// The checkpoint the source resumes from.
    pub closed spec fn spec_last_checkpoint(&self) -> Option<OpIdentifier> {
        self.last_checkpoint
    }

    /// The flag that tells whether the source is running.
    pub closed spec fn spec_running(&self) -> Arc<AtomicBool> {
        self.running
    }

    /// Capacity of the channel that the forwarder sends on.
    pub closed spec fn spec_capacity(&self) -> Option<usize> {
        self.forwarder.capacity()
    }

    /// Name of the node in the graph.
    pub fn handle(&self) -> (handle: &NodeHandle)
        ensures
            handle@ == self.spec_handle(),
    {
        &self.node_handle
    }

    /// The flag that tells whether the source is running.
    pub fn running(&self) -> (running: &Arc<AtomicBool>)
        ensures
            *running == self.spec_running(),
    {
        &self.running
    }

    /// The checkpoint the source resumes from.
    pub fn last_checkpoint(&self) -> (checkpoint: Option<OpIdentifier>)
        ensures
            checkpoint == self.spec_last_checkpoint(),
    {
        self.last_checkpoint
    }

    /// Capacity of the channel to the listener half.
    pub fn channel_capacity(&self) -> (capacity: Option<usize>)
        ensures
            capacity == self.spec_capacity(),
    {
        self.forwarder.channel_capacity()
    }

    /// Runs the connector from the resume point that [`resume_of`] gives for
    /// the last checkpoint until it returns, then clears the running flag
    /// and returns what the connector returned, success or failure, as it is.
    pub fn run(self) -> (r: Result<(), ExecutionError>)
        ensures
            self.spec_source().ends_with(resume_of(self.spec_last_checkpoint()), r),
    {
        let mut node = self;
        let outcome = node.source.start(&mut node.forwarder, resume_point(node.last_checkpoint));
        signal_completion(&node.running, outcome)
    }
}

/// Where a connector is told to resume: behind the last checkpoint, where
/// there is one.
pub open spec fn resume_of(last_checkpoint: Option<OpIdentifier>) -> Option<(u64, u64)> {
    match last_checkpoint {
        Some(id) => Some((id.txid, id.seq_in_tx)),
        None => None,
    }
}

/// What a listener does next.
#[derive(Debug, PartialEq, Eq)]
pub enum ListenerStep {
    /// Wait on the channel again.
    Receive,
    /// Send the operation downstream on the port.
    Forward { op: Operation, port: PortHandle },
    /// Obtain the identifier of a new epoch from the epoch manager.
    AcquireEpoch,
    /// Write the checkpoint of the epoch durably.
    WriteCheckpoint { epoch: u64, position: OpIdentifier },
    /// Tell downstream that the epoch is closed at the position.
    FlushCommit { epoch: u64, position: OpIdentifier },
    /// Tell downstream, and the epoch manager, that the source is done.
    Terminate,
    /// Leave the loop with this result.
    Exit(Result<(), ExecutionError>),
}

/// Mathematical value of a [`ListenerStep`].
pub enum ListenerStepView {
    Receive,
    Forward { op: OperationView, port: PortHandle },
    AcquireEpoch,
    WriteCheckpoint { epoch: u64, position: OpIdentifier },
    FlushCommit { epoch: u64, position: OpIdentifier },
    Terminate,
    Exit(Result<(), ExecutionErrorView>),
}

impl View for ListenerStep {
    type V = ListenerStepView;

    open spec fn view(&self) -> ListenerStepView {
        match self {
            ListenerStep::Receive => ListenerStepView::Receive,
            ListenerStep::Forward { op, port } => ListenerStepView::Forward { op: op@, port: *port },
            ListenerStep::AcquireEpoch => ListenerStepView::AcquireEpoch,
            ListenerStep::WriteCheckpoint { epoch, position } => ListenerStepView::WriteCheckpoint {
                epoch: *epoch,
                position: *position,
            },
            ListenerStep::FlushCommit { epoch, position } => ListenerStepView::FlushCommit {
                epoch: *epoch,
                position: *position,
            },
            ListenerStep::Terminate => ListenerStepView::Terminate,
            ListenerStep::Exit(Ok(())) => ListenerStepView::Exit(Ok(())),
            ListenerStep::Exit(Err(e)) => ListenerStepView::Exit(Err(e@)),
        }
    }
}

/// Mathematical value of a [`SourceListenerNode`].
pub struct ListenerView {
    pub handle: NodeHandleView,
    /// The time, in milliseconds, for which the listener waits on its
    /// channel.
    pub timeout: u64,
    /// The listener's coordinator.
    pub coordinator: CoordinatorView,
    /// The channel was found closed while the source was still supposed to
    /// be running.
    pub disconnected: bool,
}

/// One step of a listener: its state afterwards and what it does next.
pub struct ListenerTurn {
    pub state: ListenerView,
    pub step: ListenerStepView,
}

/// What was received, as the coordinator is told of it.
pub enum Arrival {
    Data { port: PortHandle, txid: u64, seq_in_tx: u64, op: OperationView },
    Nothing,
}

/// What a channel event brings for the coordinator.
pub open spec fn arrival_of(event: ChannelEventView) -> Arrival {
    match event {
        ChannelEventView::Data { port, txid, seq_in_tx, op } => Arrival::Data {
            port,
            txid,
            seq_in_tx,
            op,
        },
        _ => Arrival::Nothing,
    }
}

impl ListenerView {
    /// What holds of every listener: its coordinator is well formed.
    pub open spec fn wf(self) -> bool {
        self.coordinator.wf()
    }

    /// What the listener does about a step of its coordinator.
    ///
    /// A request is passed on. An error ends the loop with that error.
    /// When the coordinator reports that the source is terminating, the
    /// listener asks it for the termination; when the termination went
    /// out, the loop ends in success. When it reports that the source is
    /// not terminating, the loop ends with
    /// [`ExecutionErrorView::ChannelDisconnected`] if the channel was found
    /// closed while the source was still supposed to be running, and goes
    /// on otherwise.
    pub open spec fn conclude(self, turn: Turn) -> ListenerTurn {
        let passed = ListenerView { coordinator: turn.state, ..self };
        match turn.request {
            RequestView::Forward { op, port } => ListenerTurn {
                state: passed,
                step: ListenerStepView::Forward { op, port },
            },
            RequestView::AcquireEpoch => ListenerTurn {
                state: passed,
                step: ListenerStepView::AcquireEpoch,
            },
            RequestView::WriteCheckpoint { epoch, position } => ListenerTurn {
                state: passed,
                step: ListenerStepView::WriteCheckpoint { epoch, position },
            },
            RequestView::FlushCommit { epoch, position } => ListenerTurn {
                state: passed,
                step: ListenerStepView::FlushCommit { epoch, position },
            },
            RequestView::Terminate => ListenerTurn {
                state: passed,
                step: ListenerStepView::Terminate,
            },
            RequestView::Done(Err(e)) => ListenerTurn {
                state: passed,
                step: ListenerStepView::Exit(Err(e)),
            },
            RequestView::Done(Ok(terminating)) => if turn.state.phase is Terminated {
                ListenerTurn { state: passed, step: ListenerStepView::Exit(Ok(())) }
            } else if terminating {
                let asked = turn.state.on_terminate();
                ListenerTurn {
                    state: ListenerView { coordinator: asked.state, ..self },
                    step: match asked.request {
                        RequestView::Done(Err(e)) => ListenerStepView::Exit(Err(e)),
                        RequestView::Done(Ok(_)) => ListenerStepView::Exit(Ok(())),
                        _ => ListenerStepView::Terminate,
                    },
                }
            } else if self.disconnected {
                ListenerTurn {
                    state: ListenerView {
                        coordinator: turn.state.fail(ExecutionErrorView::ChannelDisconnected).state,
                        ..self
                    },
                    step: ListenerStepView::Exit(Err(ExecutionErrorView::ChannelDisconnected)),
                }
            } else {
                ListenerTurn { state: passed, step: ListenerStepView::Receive }
            },
        }
    }

    /// The listener hands what arrived to its coordinator, with the hint
    /// that the source is terminating exactly when it is no longer
    /// running.
    pub open spec fn on_arrival(self, arrival: Arrival, running: bool, now: u64) -> ListenerTurn {
        self.conclude(
            match arrival {
                Arrival::Data { port, txid, seq_in_tx, op } => self.coordinator.on_data(
                    txid,
                    seq_in_tx,
                    op,
                    port,
                    !running,
                    now,
                ),
                Arrival::Nothing => self.coordinator.on_idle(!running, now),
            },
        )
    }

    /// The listener's wait on its channel ended with `event`, and the
    /// running flag read `running` then.
    pub open spec fn on_event(self, event: ChannelEventView, running: bool, now: u64)
        -> ListenerTurn {
        (ListenerView {
            disconnected: event is Disconnected && running,
            ..self
        }).on_arrival(arrival_of(event), running, now)
    }

    /// What the listener asked for has turned out as `reply` says.
    pub open spec fn on_reply(self, reply: ReplyView, now: u64) -> ListenerTurn {
        self.conclude(self.coordinator.on_reply(reply, now))
    }
}

/// The listener half of a source: it takes the operations off the channel
/// and has its coordinator commit and terminate.
///
/// The listener does nothing to the outside but wait on its channel. Each
/// call returns the next [`ListenerStep`]; whoever runs the listener
/// performs it and hands the outcome back through
/// [`SourceListenerNode::resume`], or polls again after
/// [`ListenerStep::Receive`], until [`ListenerStep::Exit`].
pub struct SourceListenerNode {
    /// Name of the node in the graph.
    node_handle: NodeHandle,
    /// What the sender half put on the channel.
    receiver: Receiver<Message>,
    /// The time, in milliseconds, for which to wait on the channel.
    timeout: u64,
    /// Whether the source is running.
    running: Arc<AtomicBool>,
    /// The coordinator of the source.
    channel_manager: SourceChannelManager,
    /// The channel was found closed while the source was still supposed to
    /// be running.
    disconnected: bool,
}

impl View for SourceListenerNode {
    type V = ListenerView;

    closed spec fn view(&self) -> ListenerView {
        ListenerView {
            handle: self.node_handle@,
            timeout: self.timeout,
            coordinator: self.channel_manager@,
            disconnected: self.disconnected,
        }
    }
}

impl SourceListenerNode {
    /// The flag that tells whether the source is running.
    pub closed spec fn spec_running(&self) -> Arc<AtomicBool> {
        self.running
    }

    /// Name of the node in the graph.
    pub fn handle(&self) -> (handle: &NodeHandle)
        ensures
            handle@ == self@.handle,
    {
        &self.node_handle
    }

    /// The time, in milliseconds, for which the listener waits on its
    /// channel.
    pub fn timeout(&self) -> (timeout: u64)
        ensures
            timeout == self@.timeout,
    {
        self.timeout
    }

    /// The coordinator of the source.
    pub fn channel_manager(&self) -> (manager: &SourceChannelManager)
        ensures
            manager@ == self@.coordinator,
    {
        &self.channel_manager
    }

    fn conclude(&mut self, request: Request) -> (step: ListenerStep)
        requires
            old(self)@.coordinator.wf(),
        ensures
            final(self)@ == old(self)@.conclude(
                Turn { state: old(self)@.coordinator, request: request@ },
            ).state,
            step@ == old(self)@.conclude(
                Turn { state: old(self)@.coordinator, request: request@ },
            ).step,
            final(self).spec_running() == old(self).spec_running(),
    {
        match request {
            Request::Forward { op, port } => ListenerStep::Forward { op, port },
            Request::AcquireEpoch => ListenerStep::AcquireEpoch,
            Request::WriteCheckpoint { epoch, position } => ListenerStep::WriteCheckpoint {
                epoch,
                position,
            },
            Request::FlushCommit { epoch, position } => ListenerStep::FlushCommit {
                epoch,
                position,
            },
            Request::Terminate => ListenerStep::Terminate,
            Request::Done(Err(e)) => ListenerStep::Exit(Err(e)),
            Request::Done(Ok(terminating)) => {
                if self.channel_manager.is_terminated() {
                    ListenerStep::Exit(Ok(()))
                } else if terminating {
                    match self.channel_manager.terminate() {
                        Request::Done(Err(e)) => ListenerStep::Exit(Err(e)),
                        Request::Done(Ok(_)) => ListenerStep::Exit(Ok(())),
                        _ => ListenerStep::Terminate,
                    }
                } else if self.disconnected {
                    let _ = self.channel_manager.abort(ExecutionError::ChannelDisconnected);
                    ListenerStep::Exit(Err(ExecutionError::ChannelDisconnected))
                } else {
                    ListenerStep::Receive
                }
            },
        }
    }

    /// Hands what was taken off the channel, if anything, to the
    /// coordinator, together with the hint that the source is terminating
    /// exactly when `running` is false, as [`ListenerView::on_arrival`]
    /// says.
    pub fn send_and_trigger_commit_if_needed(
        &mut self,
        data: Option<Message>,
        running: bool,
        now: u64,
    ) -> (step: ListenerStep)
        requires
            old(self)@.wf(),
        ensures
            final(self)@.wf(),
            final(self)@ == old(self)@.on_arrival(
                arrival_of(event_of(data)@),
                running,
                now,
            ).state,
            step@ == old(self)@.on_arrival(arrival_of(event_of(data)@), running, now).step,
            final(self).spec_running() == old(self).spec_running(),
    {
        let terminating = !running;
        let request = match data {
            Some((port, txid, seq_in_tx, op)) => self.channel_manager.send_and_trigger_commit_if_needed(
                txid,
                seq_in_tx,
                op,
                port,
                terminating,
                now,
            ),
            None => self.channel_manager.trigger_commit_if_needed(terminating, now),
        };
        self.conclude(request)
    }

    /// Takes in how a wait on the channel ended and what the running flag
    /// read then, as [`ListenerView::on_event`] says.
    pub fn handle_event(&mut self, event: ChannelEvent, running: bool, now: u64) -> (step:
        ListenerStep)
        requires
            old(self)@.wf(),
        ensures
            final(self)@.wf(),
            final(self)@ == old(self)@.on_event(event@, running, now).state,
            step@ == old(self)@.on_event(event@, running, now).step,
            final(self).spec_running() == old(self).spec_running(),
    {
        let data = match event {
            ChannelEvent::Data(message) => {
                self.disconnected = false;
                Some(message)
            },
            ChannelEvent::Timeout => {
                self.disconnected = false;
                None
            },
            ChannelEvent::Disconnected => {
                self.disconnected = running;
                None
            },
        };
        self.send_and_trigger_commit_if_needed(data, running, now)
    }

    /// Waits on the channel for the time of the timeout, reads the running
    /// flag, and takes in what it found through
    /// [`SourceListenerNode::handle_event`]. What the wait brings and what
    /// the flag reads is for the other half of the source to decide.
    pub fn poll(&mut self, now: u64) -> (step: ListenerStep)
        requires
            old(self)@.wf(),
        ensures
            final(self)@.wf(),
            exists|event: ChannelEventView, running: bool|
                {
                    &&& final(self)@ == (#[trigger] old(self)@.on_event(event, running, now)).state
                    &&& step@ == old(self)@.on_event(event, running, now).step
                },
            final(self).spec_running() == old(self).spec_running(),
    {
        let event = receive_message(&self.receiver, self.timeout);
        let running = self.running.load(std::sync::atomic::Ordering::SeqCst);
        let ghost found = event@;
        let step = self.handle_event(event, running, now);
        assert(self@ == old(self)@.on_event(found, running, now).state);
        step
    }

    /// Takes in how the last step turned out, at the time `now`, as
    /// [`ListenerView::on_reply`] says.
    pub fn resume(&mut self, reply: Reply, now: u64) -> (step: ListenerStep)
        requires
            old(self)@.wf(),
        ensures
            final(self)@.wf(),
            final(self)@ == old(self)@.on_reply(reply@, now).state,
            step@ == old(self)@.on_reply(reply@, now).step,
            final(self).spec_running() == old(self).spec_running(),
    {
        let request = self.channel_manager.resume(reply, now);
        self.conclude(request)
    }
}

/// The channel event that stands for what was taken off the channel.
pub open spec fn event_of(data: Option<Message>) -> ChannelEvent {
    match data {
        Some(message) => ChannelEvent::Data(message),
        None => ChannelEvent::Timeout,
    }
}

/// Sets up the two halves of the source at `node_index`.
///
/// The connector and the checkpoint are taken out of the node, which
/// keeps its handle. The halves share a new channel of the capacity that
/// the options give and the running flag. The listener waits on the
/// channel for the time of the commit threshold, and its coordinator
/// starts at the time `now` from the node's checkpoint.
pub fn create_source_nodes<S: Source>(
    dag: &mut ExecutionDag<S>,
    node_index: daggy::NodeIndex,
    options: &ExecutorOptions,
    running: Arc<AtomicBool>,
    now: u64,
) -> (halves: (SourceSenderNode<S>, SourceListenerNode))
    requires
        old(dag).is_source(node_index_value(node_index) as int),
        options.valid(),
    ensures
        final(dag).nodes() == old(dag).nodes().update(
            node_index_value(node_index) as int,
            Node { handle: old(dag).nodes()[node_index_value(node_index) as int].handle, kind: None },
        ),
        old(dag).nodes()[node_index_value(node_index) as int].kind matches Some(NodeKind::Source(source, checkpoint))
            && {
            &&& halves.0.spec_source() == source
            &&& halves.0.spec_last_checkpoint() == checkpoint
            &&& halves.1@.coordinator == CoordinatorView::initial(
                old(dag).nodes()[node_index_value(node_index) as int].handle@,
                options.commit_sz,
                options.commit_time_threshold,
                checkpoint,
                now,
            )
        },
        halves.0.spec_handle() == old(dag).nodes()[node_index_value(node_index) as int].handle@,
        halves.0.spec_capacity() == Some(options.channel_buffer_sz),
        halves.0.spec_running() == running,
        halves.1.spec_running() == running,
        halves.1@.handle == old(dag).nodes()[node_index_value(node_index) as int].handle@,
        halves.1@.timeout == options.commit_time_threshold,
        halves.1@.disconnected == false,
        halves.1@.wf(),
{
    let place: usize = place_of(node_index);
    let node_handle = dag.nodes[place].handle.clone();
    let kind = dag.take_kind(place);
    match kind {
        Some(NodeKind::Source(source, last_checkpoint)) => {
            let (source_sender, source_receiver) = bounded_channel(options.channel_buffer_sz);
            let forwarder = InternalChannelSourceForwarder::new(source_sender);
            let source_sender_node = SourceSenderNode {
                node_handle: node_handle.clone(),
                source,
                last_checkpoint,
                forwarder,
                running: share_flag(&running),
            };
            let channel_manager = SourceChannelManager::new(
                node_handle.clone(),
                options.commit_sz,
                options.commit_time_threshold,
                last_checkpoint,
                now,
            );
            let source_listener_node = SourceListenerNode {
                node_handle,
                receiver: source_receiver,
                timeout: options.commit_time_threshold,
                running,
                channel_manager,
                disconnected: false,
            };
            (source_sender_node, source_listener_node)
        },
        _ => {
            proof {
                assert(false);
            }
            unreached()
        },
    }
}

} // verus!
