//! Interprocess communication over a TCP byte stream with a pluggable,
//! length-prefixed, command-tagged framing protocol.
//!
//! A message is a command together with a payload. On the wire it is a
//! fixed-size header, which the protocol splits into a command field and a
//! length field, followed by the payload bytes. The reassembly automaton turns
//! chunks of received bytes into messages, whatever the split of the stream;
//! the decisions of the connection's read thread and of its owner are made by
//! the functions of `client`.
pub mod client;
pub mod example;
pub mod protocol;
pub mod protocol_buffer;

pub use client::{
    await_step, build_outgoing_message, classify_read, clear_step, connect_failure,
    handle_incoming, keeps_reading, route_message, shutdown_result, BusyStateUpdateResult,
    ChannelPoll, ClientConfig, ConnectErrors, PollStep, ReadStep, ReadThreadErrors, ReaderAction,
    ShutdownError, WriteMessageErrors,
};
pub use protocol::{Message, ParseHeaderError, Protocol};
pub use protocol_buffer::ProtocolBuffer;
