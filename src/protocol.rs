use vstd::prelude::*;

verus! {

/// The error type for parsing a header which was transferred via TCP.
#[derive(Debug, Clone, Copy, PartialEq, Eq, Structural)]
pub enum ParseHeaderError {
    /// Parsing of the command failed: the command field names no known command.
    CommandParseFailed,
    /// Parsing of the length failed: the length field holds no representable length.
    LengthParseFailed,
}

/// A command together with its payload, as the executable code holds it.
pub type Message<P> = (<P as Protocol>::Commands, Vec<u8>);

/// The wire format of one application protocol.
///
/// A message is a fixed-size header followed by a payload. The header holds a
/// command field and a length field, whose encodings and order are the
/// protocol's own. Each operation is described by a spec function.
pub trait Protocol: Sized + 'static {
    /// The possible commands, such as Start, Stop or Pause.
    type Commands: Copy + core::fmt::Debug + Send + Sync + 'static;

    /// The possible busy states, such as Idle or Working.
    type BusyStates: Copy + core::fmt::Debug + Send + 'static;

    /// Number of bytes in every header.
    spec fn spec_header_size() -> nat;

    /// The busy state of a fresh connection.
    spec fn spec_idle() -> Self::BusyStates;

    /// The reply that answers a message at once, if any.
    spec fn spec_immediate_route(
        command: Self::Commands,
        message: Seq<u8>,
        busy_state: Self::BusyStates,
    ) -> Option<(Self::Commands, Seq<u8>)>;

    /// The command that a command field names, if any.
    spec fn spec_parse_command(command: Seq<u8>) -> Option<Self::Commands>;

    /// The payload length that a length field holds, if any.
    spec fn spec_parse_length(length: Seq<u8>) -> Option<usize>;

    /// The command field and the length field of an incoming header.
    spec fn spec_split_header(header: Seq<u8>) -> (Seq<u8>, Seq<u8>);

    /// The command field written for a command.
    spec fn spec_command_bytes(command: Self::Commands) -> Seq<u8>;

    /// The length field written for a payload, or `None` where its length
    /// cannot be represented.
    spec fn spec_length_bytes(command: Self::Commands, message: Seq<u8>) -> Option<Seq<u8>>;

    /// The outgoing header built from a command field and a length field.
    spec fn spec_construct_header(command: Seq<u8>, length: Seq<u8>) -> Seq<u8>;

    /// A header is never empty, so every message takes at least one byte.
    proof fn lemma_header_size_positive()
        ensures
            Self::spec_header_size() > 0,
    ;

    /// Returns the default busy state, "Idle".
    fn idle() -> (r: Self::BusyStates)
        ensures
            r == Self::spec_idle(),
    ;

    /// Decides whether a message is answered at once instead of being handed to
    /// the user, and if so with which command and payload. A possible use is a
    /// heartbeat that is answered while the user is busy with a computation.
    fn message_is_answered_via_immediate_route(
        command: &Self::Commands,
        message: &[u8],
        busy_state: &Self::BusyStates,
    ) -> (r: Option<(Self::Commands, Vec<u8>)>)
        ensures
            match r {
                Some((c, m)) => Self::spec_immediate_route(*command, message@, *busy_state)
                    == Some((c, m@)),
                None => Self::spec_immediate_route(*command, message@, *busy_state) is None,
            },
    ;

    /// Parses a command field into a command.
    fn parse_command(command: &[u8]) -> (r: Option<Self::Commands>)
        ensures
            r == Self::spec_parse_command(command@),
    ;

    /// Parses a length field into a payload length.
    fn parse_length(length: &[u8]) -> (r: Option<usize>)
        ensures
            r == Self::spec_parse_length(length@),
    ;

    /// Splits the header off the front of the received bytes; `None` while
    /// fewer bytes than a header have arrived.
    fn message_slice_to_header_array(input: &[u8]) -> (r: Option<(Vec<u8>, Vec<u8>)>)
        ensures
            match r {
                Some((header, rest)) => {
                    &&& input@.len() >= Self::spec_header_size()
                    &&& header@ == input@.take(Self::spec_header_size() as int)
                    &&& rest@ == input@.skip(Self::spec_header_size() as int)
                },
                None => input@.len() < Self::spec_header_size(),
            },
    ;

    /// Splits a header into its command field and its length field.
    fn split_header_array(header: &[u8]) -> (r: (Vec<u8>, Vec<u8>))
        requires
            header@.len() == Self::spec_header_size(),
        ensures
            (r.0@, r.1@) == Self::spec_split_header(header@),
    ;

    /// Writes the command field of a command.
    fn command_to_array(command: Self::Commands) -> (r: Vec<u8>)
        ensures
            r@ == Self::spec_command_bytes(command),
    ;

    /// Writes the length field for a payload; `None` where its length cannot
    /// be represented.
    fn get_length_as_array(command: Self::Commands, message: &[u8]) -> (r: Option<Vec<u8>>)
        ensures
            match r {
                Some(length) => Self::spec_length_bytes(command, message@) == Some(length@),
                None => Self::spec_length_bytes(command, message@) is None,
            },
    ;

    /// Builds an outgoing header from a command field and a length field.
    fn construct_header(command: Vec<u8>, length: Vec<u8>) -> (r: Vec<u8>)
        ensures
            r@ == Self::spec_construct_header(command@, length@),
    ;

    /// Parses a header into a command and a payload length.
    fn parse_header(header: &[u8]) -> (r: Result<(Self::Commands, usize), (ParseHeaderError, &[u8])>)
        requires
            header@.len() == Self::spec_header_size(),
        ensures
            ({
                let (c, l) = Self::spec_split_header(header@);
                match r {
                    Ok((command, length)) => Self::spec_parse_command(c) == Some(command)
                        && Self::spec_parse_length(l) == Some(length),
                    Err((e, h)) => h@ == header@ && match Self::spec_parse_command(c) {
                        Some(_) => Self::spec_parse_length(l) is None && e
                            == ParseHeaderError::LengthParseFailed,
                        None => e == ParseHeaderError::CommandParseFailed,
                    },
                }
            }),
    {
        let (command, length) = Self::split_header_array(header);
        match Self::parse_command(command.as_slice()) {
            Some(command) => match Self::parse_length(length.as_slice()) {
                Some(length) => Ok((command, length)),
                None => Err((ParseHeaderError::LengthParseFailed, header)),
            },
            None => Err((ParseHeaderError::CommandParseFailed, header)),
        }
    }

    /// Builds the wire bytes of a message: header, then payload. `None` where
    /// the payload length cannot be represented; no partial header is produced.
    fn construct_message(command: Self::Commands, message: &[u8]) -> (r: Option<Vec<u8>>)
        ensures
            match r {
                Some(bytes) => match Self::spec_length_bytes(command, message@) {
                    Some(length) => bytes@ == Self::spec_construct_header(
                        Self::spec_command_bytes(command),
                        length,
                    ) + message@,
                    None => false,
                },
                None => Self::spec_length_bytes(command, message@) is None,
            },
    {
        match Self::get_length_as_array(command, message) {
            Some(length) => {
                let command = Self::command_to_array(command);
                let mut new_message = Self::construct_header(command, length);
                new_message.extend_from_slice(message);
                Some(new_message)
            },
            None => None,
        }
    }
}

/// What a header decodes to: the command and the payload length, or the first
/// field that fails to parse.
pub open spec fn decode_header<P: Protocol>(header: Seq<u8>) -> Result<
    (P::Commands, usize),
    ParseHeaderError,
> {
    let (c, l) = P::spec_split_header(header);
    match P::spec_parse_command(c) {
        Some(command) => match P::spec_parse_length(l) {
            Some(length) => Ok((command, length)),
            None => Err(ParseHeaderError::LengthParseFailed),
        },
        None => Err(ParseHeaderError::CommandParseFailed),
    }
}

/// A header built for the payload, where its length can be represented, has
/// the header size and decodes to the command and the payload length. Not
/// every protocol promises this: the order used to split incoming headers may
/// differ from the order used to build outgoing ones.
pub open spec fn header_round_trips<P: Protocol>(command: P::Commands, message: Seq<u8>) -> bool {
    P::spec_length_bytes(command, message) is Some ==> {
        let header = P::spec_construct_header(
            P::spec_command_bytes(command),
            P::spec_length_bytes(command, message)->Some_0,
        );
        &&& header.len() == P::spec_header_size()
        &&& decode_header::<P>(header) == Ok::<(P::Commands, usize), ParseHeaderError>(
            (command, message.len() as usize),
        )
    }
}

/// The wire bytes of a message, or `None` where its length cannot be represented.
pub open spec fn encode<P: Protocol>(command: P::Commands, message: Seq<u8>) -> Option<Seq<u8>> {
    match P::spec_length_bytes(command, message) {
        Some(length) => Some(
            P::spec_construct_header(P::spec_command_bytes(command), length) + message,
        ),
        None => None,
    }
}

} // verus!
