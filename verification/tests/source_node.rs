use crossbeam::channel::{bounded, RecvTimeoutError, TrySendError};
use daggy::NodeIndex;
use dozer_core::channel::{
    message_of, ChannelEvent, InternalChannelSourceForwarder, SourceChannelForwarder,
};
use dozer_core::coordinator::Reply;
use dozer_core::epoch::{EpochManager, OpIdentifier};
use dozer_core::errors::ExecutionError;
use dozer_core::field::Field;
use dozer_core::node::{NodeHandle, Source};
use dozer_core::record::{Operation, Record};
use dozer_core::source_node::{
    create_source_nodes, resume_point, signal_completion, ExecutionDag, ExecutorOptions,
    ListenerStep, NodeKind, SourceListenerNode, SourceSenderNode,
};
use std::sync::atomic::{AtomicBool, Ordering};
use std::sync::{Arc, Mutex};

fn op(n: i64) -> Operation {
    Operation::Insert { new: Record::new(vec![Field::Int(n)]) }
}

fn at(txid: u64, seq_in_tx: u64) -> OpIdentifier {
    OpIdentifier::new(txid, seq_in_tx)
}

fn handle(id: &str) -> NodeHandle {
    NodeHandle::new(None, id.to_string())
}

/// A connector that hands over a fixed list of operations, whatever it is
/// told to resume from, and remembers what it was told.
struct Scripted {
    ops: Vec<(u64, u64, i64, u16)>,
    told: Arc<Mutex<Vec<Option<(u64, u64)>>>>,
    outcome: Result<(), ExecutionError>,
}

impl Scripted {
    fn new(ops: Vec<(u64, u64, i64, u16)>) -> Scripted {
        Scripted { ops, told: Arc::new(Mutex::new(Vec::new())), outcome: Ok(()) }
    }
}

impl Source for Scripted {
    fn start<F: SourceChannelForwarder>(
        &self,
        forwarder: &mut F,
        resume_from: Option<(u64, u64)>,
    ) -> Result<(), ExecutionError> {
        self.told.lock().unwrap().push(resume_from);
        for (txid, seq, n, port) in &self.ops {
            forwarder.send(*txid, *seq, op(*n), *port)?;
        }
        self.outcome.clone()
    }
}

fn options(commit_sz: u32) -> ExecutorOptions {
    ExecutorOptions { commit_sz, channel_buffer_sz: 16, commit_time_threshold: 20 }
}

fn halves(
    source: Scripted,
    checkpoint: Option<OpIdentifier>,
    commit_sz: u32,
) -> (SourceSenderNode<Scripted>, SourceListenerNode, Arc<AtomicBool>) {
    let mut dag = ExecutionDag::new();
    assert!(dag.can_add_node());
    let sink = dag.add_node(handle("sink"), NodeKind::Sink);
    let index = dag.add_node(handle("users"), NodeKind::Source(source, checkpoint));
    assert_eq!(sink, NodeIndex::new(0));
    assert_eq!(index, NodeIndex::new(1));
    assert_eq!(index.index(), 1);
    assert!(dag.has_source_at(index));
    assert!(!dag.has_source_at(sink));
    assert!(!dag.has_source_at(NodeIndex::new(2)));
    let running = Arc::new(AtomicBool::new(true));
    let (sender, listener) =
        create_source_nodes(&mut dag, index, &options(commit_sz), running.clone(), 0);
    // The node keeps its place, and its source is taken out.
    assert_eq!(dag.node_count(), 2);
    assert!(!dag.has_source_at(index));
    (sender, listener, running)
}

/// What a listener asked its surroundings to do, in order.
#[derive(Debug, PartialEq, Clone)]
enum Done {
    Forwarded(Operation, u16),
    Epoch(u64),
    Checkpoint(u64, OpIdentifier),
    Commit(u64, OpIdentifier),
    Terminated,
}

/// Performs the steps of a listener after `first` until it wants to
/// receive again or leaves its loop.
fn carry_out(
    listener: &mut SourceListenerNode,
    epochs: &mut EpochManager,
    log: &mut Vec<Done>,
    first: ListenerStep,
) -> Option<Result<(), ExecutionError>> {
    let mut step = first;
    loop {
        step = match step {
            ListenerStep::Receive => return None,
            ListenerStep::Exit(result) => return Some(result),
            ListenerStep::Forward { op, port } => {
                log.push(Done::Forwarded(op, port));
                listener.resume(Reply::Forwarded(Ok(())), 0)
            }
            ListenerStep::AcquireEpoch => {
                let assigned = epochs.advance();
                if let Ok(epoch) = &assigned {
                    log.push(Done::Epoch(*epoch));
                }
                listener.resume(Reply::EpochAssigned(assigned), 0)
            }
            ListenerStep::WriteCheckpoint { epoch, position } => {
                log.push(Done::Checkpoint(epoch, position));
                listener.resume(Reply::CheckpointWritten(Ok(())), 0)
            }
            ListenerStep::FlushCommit { epoch, position } => {
                log.push(Done::Commit(epoch, position));
                listener.resume(Reply::CommitFlushed(Ok(())), 0)
            }
            ListenerStep::Terminate => {
                epochs.source_terminated();
                log.push(Done::Terminated);
                listener.resume(Reply::Terminated(Ok(())), 0)
            }
        };
    }
}

/// Runs a listener to its end.
fn run(
    listener: &mut SourceListenerNode,
    epochs: &mut EpochManager,
    log: &mut Vec<Done>,
) -> Result<(), ExecutionError> {
    loop {
        let step = listener.poll(0);
        if let Some(result) = carry_out(listener, epochs, log, step) {
            return result;
        }
    }
}

#[test]
fn the_halves_are_set_up_from_the_node_and_the_options() {
    let (sender, listener, running) = halves(Scripted::new(vec![]), Some(at(5, 3)), 7);
    assert_eq!(sender.handle(), &handle("users"));
    assert_eq!(listener.handle(), &handle("users"));
    assert_eq!(sender.last_checkpoint(), Some(at(5, 3)));
    assert_eq!(sender.channel_capacity(), Some(16));
    assert!(Arc::ptr_eq(sender.running(), &running));
    assert_eq!(listener.timeout(), 20);
    let coordinator = listener.channel_manager();
    assert_eq!(coordinator.source_handle(), &handle("users"));
    assert_eq!(coordinator.position(), Some(at(5, 3)));
    assert_eq!(coordinator.durable_position(), Some(at(5, 3)));
    assert_eq!(coordinator.num_uncommitted_ops(), 0);
    assert!(coordinator.should_commit(false, 20));
    assert!(!coordinator.should_commit(false, 19));
    assert!(options(1).is_valid());
    assert!(!ExecutorOptions { channel_buffer_sz: 0, ..options(1) }.is_valid());
    assert!(!ExecutorOptions { channel_buffer_sz: usize::MAX, ..options(1) }.is_valid());
}

#[test]
fn the_sender_runs_the_connector_and_clears_the_flag() {
    let source = Scripted::new(vec![(1, 0, 10, 3), (1, 1, 11, 4)]);
    let told = source.told.clone();
    let (sender, mut listener, running) = halves(source, None, 100);
    assert!(running.load(Ordering::SeqCst));
    assert_eq!(sender.run(), Ok(()));
    assert!(!running.load(Ordering::SeqCst));
    assert_eq!(*told.lock().unwrap(), vec![None]);

    // What the connector handed over is on the channel, in its order.
    assert_eq!(
        listener.handle_event(ChannelEvent::Timeout, true, 0),
        ListenerStep::Receive
    );
    running.store(true, Ordering::SeqCst);
    assert_eq!(listener.poll(0), ListenerStep::Forward { op: op(10), port: 3 });
    assert_eq!(listener.resume(Reply::Forwarded(Ok(())), 0), ListenerStep::Receive);
    assert_eq!(listener.poll(0), ListenerStep::Forward { op: op(11), port: 4 });
}

#[test]
fn the_sender_hands_on_the_failure_of_the_connector() {
    let mut source = Scripted::new(vec![]);
    source.outcome = Err(ExecutionError::ConnectorError("broker gone".to_string()));
    let (sender, _listener, running) = halves(source, None, 100);
    assert_eq!(sender.run(), Err(ExecutionError::ConnectorError("broker gone".to_string())));
    assert!(!running.load(Ordering::SeqCst));
}

#[test]
fn completion_clears_the_flag_and_keeps_the_result() {
    let flag = Arc::new(AtomicBool::new(true));
    assert_eq!(signal_completion(&flag, Ok(())), Ok(()));
    assert!(!flag.load(Ordering::SeqCst));
    let failure = ExecutionError::InternalError("x".to_string());
    assert_eq!(signal_completion(&flag, Err(failure.clone())), Err(failure));
    assert_eq!(resume_point(Some(at(5, 3))), Some((5, 3)));
    assert_eq!(resume_point(None), None);
}

#[test]
fn a_source_resumed_from_a_checkpoint_shows_nothing_at_or_before_it() {
    // The connector is told where to resume, and hands over operations at
    // and before that place all the same.
    let source = Scripted::new(vec![(5, 2, 52, 0), (5, 3, 53, 0), (5, 4, 54, 0), (6, 0, 60, 0)]);
    let told = source.told.clone();
    let (sender, mut listener, running) = halves(source, Some(at(5, 3)), 100);
    assert_eq!(sender.run(), Ok(()));
    assert_eq!(*told.lock().unwrap(), vec![Some((5, 3))]);
    running.store(true, Ordering::SeqCst);

    let mut epochs = EpochManager::new(1);
    let mut log = Vec::new();
    for _ in 0..4 {
        let step = listener.poll(0);
        assert_eq!(carry_out(&mut listener, &mut epochs, &mut log, step), None);
    }
    assert_eq!(log, vec![Done::Forwarded(op(54), 0), Done::Forwarded(op(60), 0)]);
    assert_eq!(listener.channel_manager().position(), Some(at(6, 0)));
}

#[test]
fn a_full_channel_holds_the_sender_back() {
    let (sender, receiver) = bounded(1);
    let mut forwarder = InternalChannelSourceForwarder::new(sender.clone());
    assert_eq!(forwarder.channel_capacity(), Some(1));
    assert_eq!(forwarder.send(1, 0, op(0), 7), Ok(()));
    // The channel is full: a second send would have to wait.
    assert!(sender.is_full());
    assert!(matches!(sender.try_send((7, 1, 1, op(1))), Err(TrySendError::Full(_))));

    let (done, finished) = bounded(1);
    crossbeam::scope(|scope| {
        let blocked = scope.spawn(move |_| {
            let result = forwarder.send(1, 1, op(1), 7);
            done.send(()).unwrap();
            result
        });
        // The second send does not return while the first message is there.
        assert_eq!(
            finished.recv_timeout(std::time::Duration::from_millis(150)),
            Err(RecvTimeoutError::Timeout)
        );
        // Draining the first message lets the second through; nothing is
        // lost and nothing fails.
        assert_eq!(receiver.recv().unwrap(), (7, 1, 0, op(0)));
        assert_eq!(finished.recv_timeout(std::time::Duration::from_secs(10)), Ok(()));
        assert_eq!(blocked.join().unwrap(), Ok(()));
        assert_eq!(receiver.recv().unwrap(), (7, 1, 1, op(1)));
    })
    .unwrap();
}

#[test]
fn a_message_holds_port_transaction_place_and_operation() {
    assert_eq!(message_of(5, 4, op(9), 7), (7, 5, 4, op(9)));
    let (sender, receiver) = bounded(2);
    let mut forwarder = InternalChannelSourceForwarder::new(sender);
    // Making the forwarder puts nothing on the channel.
    assert_eq!(receiver.len(), 0);
    assert_eq!(forwarder.send(5, 4, op(9), 7), Ok(()));
    assert_eq!(receiver.len(), 1);
    assert_eq!(receiver.recv().unwrap(), (7, 5, 4, op(9)));
}

#[test]
fn a_channel_can_be_as_large_as_one_can_be_made() {
    let largest = usize::MAX / 1024;
    assert!(ExecutorOptions { channel_buffer_sz: largest, ..options(1) }.is_valid());
    assert!(!ExecutorOptions { channel_buffer_sz: largest + 1, ..options(1) }.is_valid());
    assert!(ExecutorOptions { channel_buffer_sz: 1, ..options(1) }.is_valid());
}

#[test]
fn sending_fails_only_when_the_listener_is_gone() {
    let (sender, receiver) = bounded(2);
    let mut forwarder = InternalChannelSourceForwarder::new(sender);
    assert_eq!(forwarder.send(1, 0, op(0), 0), Ok(()));
    drop(receiver);
    assert_eq!(
        forwarder.send(1, 1, op(1), 0),
        Err(ExecutionError::InternalError("sending on a disconnected channel".to_string()))
    );
}

#[test]
fn the_listener_waits_no_longer_than_its_timeout() {
    let (_sender, mut listener, _running) = halves(Scripted::new(vec![]), None, 100);
    let started = std::time::Instant::now();
    // Nothing is on the channel and the sender half is alive.
    assert_eq!(listener.poll(0), ListenerStep::Receive);
    let waited = started.elapsed();
    assert!(waited >= std::time::Duration::from_millis(20));
    assert!(waited < std::time::Duration::from_secs(5));
}

#[test]
fn a_channel_closed_under_a_running_source_is_an_error() {
    let (sender, mut listener, running) = halves(Scripted::new(vec![(1, 0, 1, 0)]), None, 100);
    // The sender half dies without clearing the flag.
    let mut forwarder_side = sender;
    let _ = &mut forwarder_side;
    drop(forwarder_side);
    assert!(running.load(Ordering::SeqCst));
    let mut epochs = EpochManager::new(1);
    let mut log = Vec::new();
    assert_eq!(
        run(&mut listener, &mut epochs, &mut log),
        Err(ExecutionError::ChannelDisconnected)
    );
    assert_eq!(log, vec![]);
    assert!(!epochs.all_terminated());
    // The error is final.
    assert_eq!(
        listener.handle_event(ChannelEvent::Timeout, false, 0),
        ListenerStep::Exit(Err(ExecutionError::ChannelDisconnected))
    );
}

#[test]
fn a_closed_channel_with_a_due_commit_commits_and_then_fails() {
    let (_sender, mut listener, _running) = halves(Scripted::new(vec![]), None, 100);
    assert_eq!(
        listener.handle_event(ChannelEvent::Data((0, 1, 0, op(1))), true, 0),
        ListenerStep::Forward { op: op(1), port: 0 }
    );
    assert_eq!(listener.resume(Reply::Forwarded(Ok(())), 0), ListenerStep::Receive);
    assert_eq!(
        listener.handle_event(ChannelEvent::Disconnected, true, 20),
        ListenerStep::AcquireEpoch
    );
    assert_eq!(
        listener.resume(Reply::EpochAssigned(Ok(0)), 20),
        ListenerStep::WriteCheckpoint { epoch: 0, position: at(1, 0) }
    );
    assert_eq!(
        listener.resume(Reply::CheckpointWritten(Ok(())), 20),
        ListenerStep::FlushCommit { epoch: 0, position: at(1, 0) }
    );
    assert_eq!(
        listener.resume(Reply::CommitFlushed(Ok(())), 20),
        ListenerStep::Exit(Err(ExecutionError::ChannelDisconnected))
    );
}

#[test]
fn a_source_that_ended_is_committed_and_terminated() {
    let source = Scripted::new(vec![(1, 0, 10, 0)]);
    let (sender, mut listener, _running) = halves(source, None, 100);
    assert_eq!(sender.run(), Ok(()));
    let mut epochs = EpochManager::new(1);
    let mut log = Vec::new();
    assert_eq!(run(&mut listener, &mut epochs, &mut log), Ok(()));
    assert_eq!(
        log,
        vec![
            Done::Forwarded(op(10), 0),
            Done::Epoch(0),
            Done::Checkpoint(0, at(1, 0)),
            Done::Commit(0, at(1, 0)),
            Done::Terminated,
        ]
    );
    assert!(epochs.all_terminated());
    assert!(listener.channel_manager().is_terminated());
    // A listener that left its loop leaves it again.
    assert_eq!(
        listener.handle_event(ChannelEvent::Timeout, true, 0),
        ListenerStep::Exit(Ok(()))
    );
}

#[test]
fn a_source_that_ended_idle_terminates_without_a_commit() {
    let (sender, mut listener, _running) = halves(Scripted::new(vec![]), Some(at(5, 3)), 100);
    assert_eq!(sender.run(), Ok(()));
    let mut epochs = EpochManager::new(1);
    let mut log = Vec::new();
    assert_eq!(run(&mut listener, &mut epochs, &mut log), Ok(()));
    assert_eq!(log, vec![Done::Terminated]);
}

#[test]
fn a_failure_downstream_ends_the_loop_with_that_failure() {
    let (_sender, mut listener, _running) = halves(Scripted::new(vec![]), None, 1);
    let disk = ExecutionError::InternalError("disk full".to_string());
    assert_eq!(
        listener.send_and_trigger_commit_if_needed(Some((0, 1, 0, op(1))), true, 0),
        ListenerStep::Forward { op: op(1), port: 0 }
    );
    assert_eq!(listener.resume(Reply::Forwarded(Ok(())), 0), ListenerStep::AcquireEpoch);
    assert_eq!(
        listener.resume(Reply::EpochAssigned(Ok(0)), 0),
        ListenerStep::WriteCheckpoint { epoch: 0, position: at(1, 0) }
    );
    assert_eq!(
        listener.resume(Reply::CheckpointWritten(Err(disk.clone())), 0),
        ListenerStep::Exit(Err(disk.clone()))
    );
    // No commit went out, and none will.
    assert_eq!(listener.channel_manager().durable_position(), None);
    assert_eq!(
        listener.send_and_trigger_commit_if_needed(None, false, 50),
        ListenerStep::Exit(Err(disk))
    );
}

#[test]
fn no_terminate_goes_before_the_last_checkpoint_of_its_source() {
    // Two sources of one pipeline, their steps interleaved.
    let first = Scripted::new(vec![(1, 0, 10, 0), (1, 1, 11, 0), (2, 0, 20, 0)]);
    let second = Scripted::new(vec![(9, 0, 90, 1)]);
    let (first_sender, mut first_listener, first_running) = halves(first, None, 2);
    let (second_sender, mut second_listener, second_running) = halves(second, None, 2);
    let mut epochs = EpochManager::new(2);
    let mut first_log = Vec::new();
    let mut second_log = Vec::new();

    assert_eq!(first_sender.run(), Ok(()));
    assert_eq!(second_sender.run(), Ok(()));
    first_running.store(true, Ordering::SeqCst);
    second_running.store(true, Ordering::SeqCst);
    // While both run, the first source commits an epoch of two operations.
    for _ in 0..2 {
        let step = first_listener.poll(0);
        assert_eq!(carry_out(&mut first_listener, &mut epochs, &mut first_log, step), None);
    }
    let step = second_listener.poll(0);
    assert_eq!(carry_out(&mut second_listener, &mut epochs, &mut second_log, step), None);
    // Both stop.
    first_running.store(false, Ordering::SeqCst);
    second_running.store(false, Ordering::SeqCst);
    assert_eq!(run(&mut second_listener, &mut epochs, &mut second_log), Ok(()));
    assert!(!epochs.all_terminated());
    assert_eq!(run(&mut first_listener, &mut epochs, &mut first_log), Ok(()));
    assert!(epochs.all_terminated());

    assert_eq!(
        first_log,
        vec![
            Done::Forwarded(op(10), 0),
            Done::Forwarded(op(11), 0),
            Done::Epoch(0),
            Done::Checkpoint(0, at(1, 1)),
            Done::Commit(0, at(1, 1)),
            Done::Forwarded(op(20), 0),
            Done::Epoch(2),
            Done::Checkpoint(2, at(2, 0)),
            Done::Commit(2, at(2, 0)),
            Done::Terminated,
        ]
    );
    assert_eq!(
        second_log,
        vec![
            Done::Forwarded(op(90), 1),
            Done::Epoch(1),
            Done::Checkpoint(1, at(9, 0)),
            Done::Commit(1, at(9, 0)),
            Done::Terminated,
        ]
    );
    for (log, last) in [(&first_log, at(2, 0)), (&second_log, at(9, 0))] {
        let terminated = log.iter().position(|d| *d == Done::Terminated).unwrap();
        let written = log
            .iter()
            .position(|d| matches!(d, Done::Checkpoint(_, position) if *position == last))
            .unwrap();
        assert!(written < terminated);
        assert_eq!(terminated, log.len() - 1);
    }
}
