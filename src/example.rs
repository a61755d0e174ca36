use vstd::prelude::*;

use crate::protocol::{header_round_trips, Protocol};

verus! {

/// Number of bytes in the length field.
pub const LENGTH_SIZE: usize = 3;

/// Number of bytes in the command field.
pub const COMMAND_SIZE: usize = 2;

/// Number of bytes in a header: the length field, then the command field.
pub const HEADER_SIZE: usize = 5;

/// The character `0`.
pub const CHAR_ZERO: u8 = 48;

/// The character `2`.
pub const CHAR_TWO: u8 = 50;

/// The character `4`.
pub const CHAR_FOUR: u8 = 52;

/// Longest payload whose length the three decimal digits can hold.
pub const MAX_PAYLOAD: usize = 999;

/// The commands of the example protocol.
#[derive(Debug, Clone, Copy, PartialEq, Eq, Structural)]
pub enum Commands {
    /// Written as the two characters `00`.
    Start,
    /// Written as the two characters `42`.
    Funny,
}

/// The busy states of the example protocol.
#[derive(Debug, Clone, Copy, PartialEq, Eq, Structural)]
pub enum BusyStates {
    Idle,
    Working,
}

/// The error of `parse`.
#[derive(Debug, Clone, Copy, PartialEq, Eq, Structural)]
pub enum ParseErrors {
    /// The command field names no command.
    CommandParseError,
}

/// The command that a command field names, if any.
pub open spec fn command_of(bytes: Seq<u8>) -> Option<Commands> {
    if bytes == seq![48u8, 48u8] {
        Some(Commands::Start)
    } else if bytes == seq![52u8, 50u8] {
        Some(Commands::Funny)
    } else {
        None
    }
}

/// The command field of a command.
pub open spec fn bytes_of(command: Commands) -> Seq<u8> {
    match command {
        Commands::Start => seq![48u8, 48u8],
        Commands::Funny => seq![52u8, 50u8],
    }
}

/// The value of a length field of three decimal digits, most significant
/// first. Each byte is a digit's value, not its character.
pub open spec fn digits_value(d: Seq<u8>) -> int {
    100 * d[0] + 10 * d[1] + d[2]
}

/// The three decimal digits of a length below one thousand.
pub open spec fn digits_of(n: nat) -> Seq<u8> {
    seq![(n / 100) as u8, (n / 10 % 10) as u8, (n % 10) as u8]
}

/// Parses a command field.
pub fn array_to_enum(input: &[u8; 2]) -> (r: Option<Commands>)
    ensures
        r == command_of(input@),
{
    if input[0] == CHAR_ZERO && input[1] == CHAR_ZERO {
        assert(input@ =~= seq![48u8, 48u8]);
        Some(Commands::Start)
    } else if input[0] == CHAR_FOUR && input[1] == CHAR_TWO {
        assert(input@ =~= seq![52u8, 50u8]);
        Some(Commands::Funny)
    } else {
        None
    }
}

/// Parses a header: a length field of three decimal digits, then a command
/// field. An unknown command gives the error and the header's bytes.
pub fn parse(header: &[u8; HEADER_SIZE]) -> (r: Result<(Commands, usize), (ParseErrors, Vec<u8>)>)
    ensures
        match command_of(header@.subrange(3, 5)) {
            Some(command) => r == Ok::<(Commands, usize), (ParseErrors, Vec<u8>)>(
                (command, digits_value(header@) as usize),
            ),
            None => r matches Err((e, bytes)) && e == ParseErrors::CommandParseError && bytes@
                == header@,
        },
{
    let command = [header[3], header[4]];
    assert(command@ =~= header@.subrange(3, 5));
    match array_to_enum(&command) {
        Some(command) => {
            let length = 100 * (header[0] as usize) + 10 * (header[1] as usize) + header[2] as usize;
            Ok((command, length))
        },
        None => {
            let mut bytes = Vec::new();
            bytes.extend_from_slice(header.as_slice());
            Err((ParseErrors::CommandParseError, bytes))
        },
    }
}

/// A protocol whose header is a length field of three decimal digits followed
/// by a command field of two characters. Payloads hold at most 999 bytes.
/// While the user is working, a `Funny` message is answered at once with the
/// same command and payload, as a heartbeat.
#[derive(Debug)]
pub struct ProtocolExample;

impl Protocol for ProtocolExample {
    type Commands = Commands;

    type BusyStates = BusyStates;

    open spec fn spec_header_size() -> nat {
        5
    }

    open spec fn spec_idle() -> BusyStates {
        BusyStates::Idle
    }

    open spec fn spec_immediate_route(
        command: Commands,
        message: Seq<u8>,
        busy_state: BusyStates,
    ) -> Option<(Commands, Seq<u8>)> {
        if command == Commands::Funny && busy_state == BusyStates::Working {
            Some((Commands::Funny, message))
        } else {
            None
        }
    }

    open spec fn spec_parse_command(command: Seq<u8>) -> Option<Commands> {
        command_of(command)
    }

    open spec fn spec_parse_length(length: Seq<u8>) -> Option<usize> {
        if length.len() == 3 {
            Some(digits_value(length) as usize)
        } else {
            None
        }
    }

    open spec fn spec_split_header(header: Seq<u8>) -> (Seq<u8>, Seq<u8>) {
        (header.subrange(3, 5), header.subrange(0, 3))
    }

    open spec fn spec_command_bytes(command: Commands) -> Seq<u8> {
        bytes_of(command)
    }

    open spec fn spec_length_bytes(command: Commands, message: Seq<u8>) -> Option<Seq<u8>> {
        if message.len() <= 999 {
            Some(digits_of(message.len()))
        } else {
            None
        }
    }

    open spec fn spec_construct_header(command: Seq<u8>, length: Seq<u8>) -> Seq<u8> {
        length + command
    }

    proof fn lemma_header_size_positive() {
    }

    fn idle() -> BusyStates {
        BusyStates::Idle
    }

    fn message_is_answered_via_immediate_route(
        command: &Commands,
        message: &[u8],
        busy_state: &BusyStates,
    ) -> Option<(Commands, Vec<u8>)> {
        if *command == Commands::Funny && *busy_state == BusyStates::Working {
            let mut reply = Vec::new();
            reply.extend_from_slice(message);
            assert(reply@ =~= message@);
            Some((Commands::Funny, reply))
        } else {
            None
        }
    }

    fn parse_command(command: &[u8]) -> Option<Commands> {
        if command.len() == COMMAND_SIZE {
            let array = [command[0], command[1]];
            assert(array@ =~= command@);
            array_to_enum(&array)
        } else {
            assert(command@ != seq![48u8, 48u8] && command@ != seq![52u8, 50u8]);
            None
        }
    }

    fn parse_length(length: &[u8]) -> Option<usize> {
        if length.len() == LENGTH_SIZE {
            Some(100 * (length[0] as usize) + 10 * (length[1] as usize) + length[2] as usize)
        } else {
            None
        }
    }

    fn message_slice_to_header_array(input: &[u8]) -> Option<(Vec<u8>, Vec<u8>)> {
        if input.len() >= HEADER_SIZE {
            let mut header = Vec::new();
            header.extend_from_slice(vstd::slice::slice_subrange(input, 0, HEADER_SIZE));
            let mut rest = Vec::new();
            rest.extend_from_slice(vstd::slice::slice_subrange(input, HEADER_SIZE, input.len()));
            assert(header@ =~= input@.take(5));
            assert(rest@ =~= input@.skip(5));
            Some((header, rest))
        } else {
            None
        }
    }

    fn split_header_array(header: &[u8]) -> (Vec<u8>, Vec<u8>) {
        let mut command = Vec::new();
        command.extend_from_slice(vstd::slice::slice_subrange(header, LENGTH_SIZE, HEADER_SIZE));
        let mut length = Vec::new();
        length.extend_from_slice(vstd::slice::slice_subrange(header, 0, LENGTH_SIZE));
        assert(command@ =~= header@.subrange(3, 5));
        assert(length@ =~= header@.subrange(0, 3));
        (command, length)
    }

    fn command_to_array(command: Commands) -> Vec<u8> {
        match command {
            Commands::Start => {
                let r = vec![CHAR_ZERO, CHAR_ZERO];
                assert(r@ =~= seq![48u8, 48u8]);
                r
            },
            Commands::Funny => {
                let r = vec![CHAR_FOUR, CHAR_TWO];
                assert(r@ =~= seq![52u8, 50u8]);
                r
            },
        }
    }

    fn get_length_as_array(_command: Commands, message: &[u8]) -> Option<Vec<u8>> {
        let n = message.len();
        if n > MAX_PAYLOAD {
            None
        } else {
            let r = vec![(n / 100) as u8, (n / 10 % 10) as u8, (n % 10) as u8];
            assert(r@ =~= digits_of(n as nat));
            Some(r)
        }
    }

    fn construct_header(command: Vec<u8>, length: Vec<u8>) -> Vec<u8> {
        let mut header = length;
        let mut command = command;
        header.append(&mut command);
        header
    }
}

/// The example protocol's headers decode to what they encode: the length
/// field is written and read as the same three decimal digits.
pub proof fn lemma_example_round_trips(command: Commands, message: Seq<u8>)
    ensures
        header_round_trips::<ProtocolExample>(command, message),
{
    let n = message.len();
    if n <= 999 {
        let length = digits_of(n);
        let header = length + bytes_of(command);
        assert(header.subrange(3, 5) =~= bytes_of(command));
        assert(header.subrange(0, 3) =~= length);
        assert(100 * (n / 100) + 10 * (n / 10 % 10) + n % 10 == n) by (nonlinear_arith)
            requires
                n <= 999,
        ;
    }
}

} // verus!
