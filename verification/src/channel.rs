use vstd::prelude::*;
use crossbeam::channel::Receiver;
use crossbeam::channel::Sender;
use crate::errors::ExecutionError;
use crate::errors::ExecutionErrorView;
use crate::record::Operation;
use crate::record::OperationView;
use crate::record::PortHandle;

verus! {

/// The sending half of a channel of the crate `crossbeam`.
#[verifier::external_type_specification]
#[verifier::external_body]
#[verifier::reject_recursive_types(T)]
pub struct ExSender<T>(crossbeam::channel::Sender<T>);

/// The receiving half of a channel of the crate `crossbeam`.
#[verifier::external_type_specification]
#[verifier::external_body]
#[verifier::reject_recursive_types(T)]
pub struct ExReceiver<T>(crossbeam::channel::Receiver<T>);

/// What travels from a source to its listener: the port an operation
/// leaves on, its place in the source's stream, and the operation.
pub type Message = (PortHandle, u64, u64, Operation);

/// Largest capacity a source's channel may be given. A channel numbers its
/// slots with the capacity plus one, rounded up to a power of two and
/// doubled, within the machine's word, and its buffer of that many slots
/// must not outgrow what can be allocated; both hold up to here.
pub const MAX_CHANNEL_CAPACITY: usize = usize::MAX / 1024;

/// What `Sender::capacity` returns for a sender: the capacity that its
/// channel was created with, `None` for an unbounded one.
pub uninterp spec fn sender_capacity(sender: Sender<Message>) -> Option<usize>;

/// What a listener finds when it waits on its channel.
#[derive(Debug, PartialEq, Eq)]
pub enum ChannelEvent {
    /// A message arrived.
    Data(Message),
    /// Nothing arrived within the time allowed.
    Timeout,
    /// The channel is empty and every sender is gone.
    Disconnected,
}

/// Mathematical value of a [`ChannelEvent`].
pub enum ChannelEventView {
    Data { port: PortHandle, txid: u64, seq_in_tx: u64, op: OperationView },
    Timeout,
    Disconnected,
}

impl View for ChannelEvent {
    type V = ChannelEventView;

    open spec fn view(&self) -> ChannelEventView {
        match self {
            ChannelEvent::Data(message) => ChannelEventView::Data {
                port: message.0,
                txid: message.1,
                seq_in_tx: message.2,
                op: message.3@,
            },
            ChannelEvent::Timeout => ChannelEventView::Timeout,
            ChannelEvent::Disconnected => ChannelEventView::Disconnected,
        }
    }
}

/// Calls `crossbeam::channel::bounded`.
///
/// Trusted: that the channel has the capacity asked for. `bounded` panics
/// where the capacity plus one, rounded up to a power of two and doubled,
/// does not fit the machine's word, or where the buffer of that many slots
/// is larger than can be asked of the allocator; `requires` rules out
/// both.
#[verifier::external_body]
pub(crate) fn bounded_channel(capacity: usize) -> (ends: (Sender<Message>, Receiver<Message>))
    requires
        capacity <= MAX_CHANNEL_CAPACITY,
    ensures
        sender_capacity(ends.0) == Some(capacity),
{
    crossbeam::channel::bounded(capacity)
}

/// Calls `Sender::capacity`.
///
/// Trusted: nothing but that the call returns the same for the same
/// sender, which gives the capacity its name.
#[verifier::external_body]
pub(crate) fn capacity_of(sender: &Sender<Message>) -> (capacity: Option<usize>)
    ensures
        capacity == sender_capacity(*sender),
{
    sender.capacity()
}

/// Calls `Sender::send`, which blocks while the channel is full and fails
/// only once every receiver is gone.
///
/// Trusted: that a send that fails hands back the very message it was
/// given. Whether it fails depends on the other side of the channel, and
/// nothing is promised of that.
#[verifier::external_body]
pub(crate) fn send_message(sender: &Sender<Message>, message: Message) -> (r: Result<
    (),
    Message,
>)
    ensures
        r matches Err(unsent) ==> unsent == message,
{
    match sender.send(message) {
        Ok(()) => Ok(()),
        Err(crossbeam::channel::SendError(unsent)) => Err(unsent),
    }
}

/// Calls `Receiver::recv_timeout` with a timeout of `timeout_ms`
/// milliseconds.
///
/// Nothing is promised of the outcome: it depends on the other side of the
/// channel and on the clock.
#[verifier::external_body]
pub(crate) fn receive_message(receiver: &Receiver<Message>, timeout_ms: u64) -> (event:
    ChannelEvent) {
    match receiver.recv_timeout(std::time::Duration::from_millis(timeout_ms)) {
        Ok(message) => ChannelEvent::Data(message),
        Err(crossbeam::channel::RecvTimeoutError::Timeout) => ChannelEvent::Timeout,
        Err(crossbeam::channel::RecvTimeoutError::Disconnected) => ChannelEvent::Disconnected,
    }
}

/// What a connector hands its operations to.
pub trait SourceChannelForwarder {
    /// Sends one operation, with its place in the source's stream, on a
    /// port. Blocks while the receiving side has no room.
    fn send(&mut self, txid: u64, seq_in_tx: u64, op: Operation, port: PortHandle) -> (r: Result<
        (),
        ExecutionError,
    >)
        ensures
            r matches Err(e) ==> e@ == send_failure(),
    ;
}

/// The error of a send that found the receiving side gone.
pub open spec fn send_failure() -> ExecutionErrorView {
    ExecutionErrorView::InternalError("sending on a disconnected channel"@)
}

/// The message that carries an operation through the channel: the port
/// first, then the transaction, then the place within it, then the
/// operation as it is.
pub fn message_of(txid: u64, seq_in_tx: u64, op: Operation, port: PortHandle) -> (message: Message)
    ensures
        message.0 == port,
        message.1 == txid,
        message.2 == seq_in_tx,
        message.3 == op,
{
    (port, txid, seq_in_tx, op)
}

/// What [`InternalChannelSourceForwarder::send`] returns for each outcome
/// of handing the message to the channel.
pub fn send_outcome(delivery: Result<(), Message>) -> (r: Result<(), ExecutionError>)
    ensures
        delivery is Ok ==> r is Ok,
        delivery is Err ==> r is Err && r->Err_0@ == send_failure(),
{
    match delivery {
        Ok(()) => Ok(()),
        Err(_) => Err(
            ExecutionError::InternalError("sending on a disconnected channel".to_string()),
        ),
    }
}

/// Forwarder over the bounded channel between a source and its listener.
pub struct InternalChannelSourceForwarder {
    sender: Sender<Message>,
}

impl InternalChannelSourceForwarder {
    /// A forwarder that sends through `sender`, and so on the channel behind
    /// it.
    pub fn new(sender: Sender<Message>) -> (forwarder: Self)
        ensures
            forwarder.spec_sender() == sender,
            forwarder.capacity() == sender_capacity(sender),
    {
        Self { sender }
    }

    /// The sender that the forwarder sends through.
    pub closed spec fn spec_sender(&self) -> Sender<Message> {
        self.sender
    }

    /// Capacity of the channel the forwarder sends on.
    pub open spec fn capacity(&self) -> Option<usize> {
        sender_capacity(self.spec_sender())
    }

    /// Capacity of the channel the forwarder sends on: the number of
    /// messages that can wait in it before a send blocks.
    pub fn channel_capacity(&self) -> (capacity: Option<usize>)
        ensures
            capacity == self.capacity(),
    {
        capacity_of(&self.sender)
    }
}

impl SourceChannelForwarder for InternalChannelSourceForwarder {
    /// Puts the operation on the channel as the message that
    /// [`message_of`] makes of it. Blocks while the channel is full; fails,
    /// with an internal error, only when the listener's side of the channel
    /// is gone. The forwarder goes on sending through the same sender.
    fn send(&mut self, txid: u64, seq_in_tx: u64, op: Operation, port: PortHandle) -> (r: Result<
        (),
        ExecutionError,
    >)
        ensures
            final(self).spec_sender() == old(self).spec_sender(),
            final(self).capacity() == old(self).capacity(),
    {
        send_outcome(send_message(&self.sender, message_of(txid, seq_in_tx, op, port)))
    }
}

} // verus!
