use vstd::prelude::*;

use crate::protocol::{encode, Message, ParseHeaderError, Protocol};
use crate::protocol_buffer::{frames, ProtocolBuffer};

verus! {

/// Relies on std's `std::io::Error`: carried unread as the cause of a failed
/// socket operation.
#[verifier::external_type_specification]
#[verifier::external_body]
pub struct ExIoError(std::io::Error);

/// The time settings of a connection.
#[derive(Debug, Clone, Copy, PartialEq, Eq, Structural)]
pub struct ClientConfig {
    /// The time the server has to accept a TCP connection.
    pub connect_wait_time_ms: u64,
    /// The time to wait after the connection is accepted, for the server to
    /// initialise and the read thread to start.
    pub after_connect_wait_time_ms: u64,
    /// The time the read thread sleeps between checks for new bytes. Very
    /// small values can yield high CPU usage.
    pub read_iteration_wait_time_ns: u64,
    /// The time given to the read thread to accept a shutdown request.
    pub shutdown_wait_time_in_ns: u64,
}

/// The errors of the read thread, delivered through the message queue.
#[derive(Debug)]
pub enum ReadThreadErrors<P: Protocol> {
    /// Writing an immediate reply failed.
    WriteError(std::io::Error),
    /// Reading from the socket failed.
    ReadError(std::io::Error),
    /// An immediate reply could not be built: its command and payload. This
    /// typically means that the protocol implementation has a flaw.
    ImmediateMessageConstructError((P::Commands, Vec<u8>)),
    /// A received header did not parse. The read thread stops: a malformed
    /// header means that the two sides do not speak the same protocol.
    HeaderParseError(ParseHeaderError),
    /// The read thread is gone.
    Disconnected,
}

/// The errors of connecting.
#[derive(Debug)]
pub enum ConnectErrors {
    /// The address list could not be parsed, for example for want of a port.
    SocketListParseError(std::io::Error),
    /// The address list is empty.
    SocketListIsEmpty,
    /// No address accepted a connection: the error of the last attempt.
    ConnectionError(std::io::Error),
    /// The socket handle could not be duplicated for the read thread.
    TryCloneError(std::io::Error),
    /// The socket could not be put into non-blocking mode.
    SetNonblockingError,
}

/// The outcome of a busy state update.
#[derive(Debug, Clone, Copy, PartialEq, Eq, Structural)]
pub enum BusyStateUpdateResult {
    /// The update was handed to the read thread.
    Success,
    /// The read thread is gone, so the connection is already closed.
    Disconnected,
}

/// The errors of writing a message.
#[derive(Debug)]
pub enum WriteMessageErrors {
    /// The message could not be built: its length cannot be represented.
    MessageConstructionFailed,
    /// The message could not be sent.
    MessageSendFailed(std::io::Error),
}

/// The outcome of a failed shutdown: which of its two steps failed.
#[derive(Debug, Clone, Copy, PartialEq, Eq, Structural)]
pub struct ShutdownError {
    /// Whether the shutdown request reached the read thread.
    pub shutdown_requested_succesfully: bool,
    /// Whether the socket was closed.
    pub shutdown_succesfully: bool,
}

/// What the read thread does with a message that the automaton handed out.
pub enum ReaderAction<P: Protocol> {
    /// Queue the message for the owner of the connection.
    Forward(Message<P>),
    /// Write these bytes, an immediate reply, back on the socket.
    Reply(Vec<u8>),
    /// Report to the owner that the immediate reply, given here, could not be built.
    ReplyConstructionFailed(Message<P>),
}

/// The action owed to a received message in a busy state: an immediate reply
/// where the protocol asks for one, written as wire bytes or reported where it
/// cannot be built; otherwise the message itself, for the owner.
pub open spec fn routes<P: Protocol>(
    action: ReaderAction<P>,
    command: P::Commands,
    message: Seq<u8>,
    busy_state: P::BusyStates,
) -> bool {
    match P::spec_immediate_route(command, message, busy_state) {
        None => action matches ReaderAction::Forward(m) && m.0 == command && m.1@ == message,
        Some((reply_command, reply)) => match encode::<P>(reply_command, reply) {
            Some(bytes) => action matches ReaderAction::Reply(b) && b@ == bytes,
            None => action matches ReaderAction::ReplyConstructionFailed(m) && m.0 == reply_command
                && m.1@ == reply,
        },
    }
}

/// Decides what the read thread does with a received message. A message that
/// the protocol answers at once is never forwarded to the owner.
pub fn route_message<P: Protocol>(busy_state: &P::BusyStates, message: Message<P>) -> (r:
    ReaderAction<P>)
    ensures
        routes::<P>(r, message.0, message.1@, *busy_state),
        P::spec_immediate_route(message.0, message.1@, *busy_state) is Some ==> !(r is Forward),
{
    let (command, payload) = message;
    match P::message_is_answered_via_immediate_route(&command, payload.as_slice(), busy_state) {
        Some((reply_command, reply)) => match P::construct_message(
            reply_command,
            reply.as_slice(),
        ) {
            Some(bytes) => ReaderAction::Reply(bytes),
            None => ReaderAction::ReplyConstructionFailed((reply_command, reply)),
        },
        None => ReaderAction::Forward((command, payload)),
    }
}

/// Feeds a chunk read from the socket to the automaton and decides, in order,
/// what to do with each message that it completes. The header error that stops
/// the connection, if one occurs, comes last.
pub fn handle_incoming<P: Protocol>(buffer: &mut ProtocolBuffer<P>, incoming: &[u8]) -> (r: (
    Vec<ReaderAction<P>>,
    Option<ParseHeaderError>,
))
    requires
        old(buffer).wf(),
    ensures
        final(buffer).wf(),
        final(buffer).busy() == old(buffer).busy(),
        ({
            let (messages, left, error) = frames::<P>(old(buffer).pending() + incoming@);
            &&& final(buffer).pending() == left
            &&& r.1 == error
            &&& r.0@.len() == messages.len()
            &&& forall|i: int|
                0 <= i < messages.len() ==> #[trigger] routes::<P>(
                    r.0@[i],
                    messages[i].0,
                    messages[i].1,
                    old(buffer).busy(),
                )
        }),
{
    let busy_state = buffer.get_busy_state();
    let (messages, error) = buffer.process_chunk(incoming);
    let mut actions: Vec<ReaderAction<P>> = Vec::new();
    let mut i: usize = 0;
    while i < messages.len()
        invariant
            i <= messages@.len(),
            actions@.len() == i,
            forall|j: int|
                0 <= j < i ==> #[trigger] routes::<P>(
                    actions@[j],
                    messages@[j].0,
                    messages@[j].1@,
                    busy_state,
                ),
        decreases messages@.len() - i,
    {
        let mut payload: Vec<u8> = Vec::new();
        payload.extend_from_slice(messages[i].1.as_slice());
        assert(payload@ =~= messages@[i as int].1@);
        actions.push(route_message::<P>(&busy_state, (messages[i].0, payload)));
        i = i + 1;
    }
    (actions, error)
}

/// Builds the wire bytes of an outgoing message.
pub fn build_outgoing_message<P: Protocol>(command: P::Commands, message: &[u8]) -> (r: Result<
    Vec<u8>,
    WriteMessageErrors,
>)
    ensures
        match encode::<P>(command, message@) {
            Some(bytes) => r matches Ok(b) && b@ == bytes,
            None => r matches Err(WriteMessageErrors::MessageConstructionFailed),
        },
{
    match P::construct_message(command, message) {
        Some(bytes) => Ok(bytes),
        None => Err(WriteMessageErrors::MessageConstructionFailed),
    }
}

impl BusyStateUpdateResult {
    /// The outcome of a busy state update, from whether the read thread took it.
    pub fn from_send(sent: bool) -> (r: Self)
        ensures
            sent ==> r == BusyStateUpdateResult::Success,
            !sent ==> r == BusyStateUpdateResult::Disconnected,
    {
        if sent {
            BusyStateUpdateResult::Success
        } else {
            BusyStateUpdateResult::Disconnected
        }
    }
}

/// The outcome of a shutdown, from whether the request reached the read
/// thread and whether the socket was closed: success only where both did.
pub fn shutdown_result(requested: bool, closed: bool) -> (r: Result<(), ShutdownError>)
    ensures
        r is Ok <==> requested && closed,
        r matches Err(e) ==> e.shutdown_requested_succesfully == requested
            && e.shutdown_succesfully == closed,
{
    if !requested || !closed {
        Err(ShutdownError { shutdown_requested_succesfully: requested, shutdown_succesfully: closed })
    } else {
        Ok(())
    }
}

/// The error of a connection attempt that found no server: the error of the
/// last address tried, or `SocketListIsEmpty` where there was none to try.
pub fn connect_failure(last_error: Option<std::io::Error>) -> (r: ConnectErrors)
    ensures
        match last_error {
            Some(e) => r == ConnectErrors::ConnectionError(e),
            None => r == ConnectErrors::SocketListIsEmpty,
        },
{
    match last_error {
        Some(e) => ConnectErrors::ConnectionError(e),
        None => ConnectErrors::SocketListIsEmpty,
    }
}

/// The outcome of a non-blocking poll of a channel.
#[derive(Debug, Clone, Copy, PartialEq, Eq, Structural)]
pub enum ChannelPoll {
    /// A value was waiting.
    Received,
    /// No value was waiting.
    Empty,
    /// The other end is gone.
    Disconnected,
}

/// Whether the read thread goes on after polling its shutdown channel: it
/// stops on the shutdown signal and when the owner is gone.
pub fn keeps_reading(shutdown: ChannelPoll) -> (r: bool)
    ensures
        r <==> shutdown == ChannelPoll::Empty,
{
    match shutdown {
        ChannelPoll::Empty => true,
        ChannelPoll::Received => false,
        ChannelPoll::Disconnected => false,
    }
}

/// What the read thread does after a read from the non-blocking socket.
#[derive(Debug, Clone, Copy, PartialEq, Eq, Structural)]
pub enum ReadStep {
    /// Nothing arrived: wait for the next iteration.
    Wait,
    /// This many bytes arrived: feed them to the automaton.
    Feed(usize),
    /// The read failed: report the error to the owner.
    Report,
}

/// Classifies a read: `Some(n)` for `n` bytes read, `None` for an error, which
/// is a would-block error or another one. A read of no bytes is no disconnect
/// here, just nothing to do; so is a read that would block.
pub fn classify_read(n: Option<usize>, would_block: bool) -> (r: ReadStep)
    ensures
        match n {
            Some(k) => if k == 0 {
                r == ReadStep::Wait
            } else {
                r == ReadStep::Feed(k)
            },
            None => if would_block {
                r == ReadStep::Wait
            } else {
                r == ReadStep::Report
            },
        },
{
    match n {
        Some(k) => if k == 0 {
            ReadStep::Wait
        } else {
            ReadStep::Feed(k)
        },
        None => if would_block {
            ReadStep::Wait
        } else {
            ReadStep::Report
        },
    }
}

/// What waiting for a message does after one poll of the message queue.
pub enum PollStep<P: Protocol> {
    /// Nothing was waiting: sleep and poll again, while time is left.
    Again,
    /// The wait ends with this result: a message or an error.
    Finish(Result<Option<Message<P>>, ReadThreadErrors<P>>),
}

/// Decides one step of waiting for a message: poll again on an empty queue,
/// otherwise end with what the poll gave.
pub fn await_step<P: Protocol>(polled: Result<Option<Message<P>>, ReadThreadErrors<P>>) -> (r:
    PollStep<P>)
    ensures
        r is Again <==> polled matches Ok(None),
        r matches PollStep::Finish(x) ==> x == polled,
{
    match polled {
        Ok(None) => PollStep::Again,
        other => PollStep::Finish(other),
    }
}

/// Decides one step of clearing the message queue: `None` to drop the
/// message and poll again; `Some(Ok(()))` once the queue is empty; the error
/// where one comes.
pub fn clear_step<P: Protocol>(polled: Result<Option<Message<P>>, ReadThreadErrors<P>>) -> (r:
    Option<Result<(), ReadThreadErrors<P>>>)
    ensures
        r is None <==> polled matches Ok(Some(_)),
        polled matches Ok(None) ==> r matches Some(Ok(())),
        polled matches Err(e) ==> r matches Some(Err(f)) && f == e,
{
    match polled {
        Ok(Some(_)) => None,
        Ok(None) => Some(Ok(())),
        Err(e) => Some(Err(e)),
    }
}

} // verus!
