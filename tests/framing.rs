use rust_tcp_ipc::example::{
    array_to_enum, parse, BusyStates, Commands, ParseErrors, ProtocolExample,
};
use rust_tcp_ipc::{ParseHeaderError, Protocol, ProtocolBuffer};

fn drain(buffer: &mut ProtocolBuffer<ProtocolExample>, chunk: &[u8]) -> Vec<(Commands, Vec<u8>)> {
    let (messages, error) = buffer.process_chunk(chunk);
    assert_eq!(error, None);
    messages
}

#[test]
fn construct_message_example() {
    let bytes = ProtocolExample::construct_message(Commands::Start, &[0x61]).unwrap();
    assert_eq!(bytes, vec![0x00, 0x00, 0x01, 0x30, 0x30, 0x61]);
}

#[test]
fn six_bytes_split_two_then_four() {
    let bytes = [0x00u8, 0x00, 0x01, 0x30, 0x30, 0x61];
    let mut buffer = ProtocolBuffer::<ProtocolExample>::new();
    assert_eq!(buffer.process_new_buffer(&bytes[0..2]), Ok(None));
    assert_eq!(
        buffer.process_new_buffer(&bytes[2..6]),
        Ok(Some((Commands::Start, vec![0x61])))
    );
    assert_eq!(buffer.process_new_buffer(&[]), Ok(None));
}

#[test]
fn decode_of_encode_round_trips() {
    let payload: Vec<u8> = (0..250u8).collect();
    let bytes = ProtocolExample::construct_message(Commands::Funny, &payload).unwrap();
    let mut buffer = ProtocolBuffer::<ProtocolExample>::new();
    assert_eq!(drain(&mut buffer, &bytes), vec![(Commands::Funny, payload)]);
    assert_eq!(drain(&mut buffer, &[]), vec![]);
}

#[test]
fn empty_payload_round_trips() {
    let bytes = ProtocolExample::construct_message(Commands::Start, &[]).unwrap();
    assert_eq!(bytes, vec![0, 0, 0, 0x30, 0x30]);
    let mut buffer = ProtocolBuffer::<ProtocolExample>::new();
    assert_eq!(drain(&mut buffer, &bytes), vec![(Commands::Start, vec![])]);
}

#[test]
fn one_byte_at_a_time_gives_the_same_message() {
    let payload = b"hello world".to_vec();
    let bytes = ProtocolExample::construct_message(Commands::Funny, &payload).unwrap();
    let mut buffer = ProtocolBuffer::<ProtocolExample>::new();
    let mut received = Vec::new();
    for b in bytes.iter() {
        received.extend(drain(&mut buffer, &[*b]));
    }
    assert_eq!(received, vec![(Commands::Funny, payload)]);
}

#[test]
fn every_split_point_gives_the_same_message() {
    let payload = vec![7u8, 0, 255, 3, 9, 1];
    let bytes = ProtocolExample::construct_message(Commands::Start, &payload).unwrap();
    for at in 0..=bytes.len() {
        let mut buffer = ProtocolBuffer::<ProtocolExample>::new();
        let mut received = drain(&mut buffer, &bytes[0..at]);
        received.extend(drain(&mut buffer, &bytes[at..]));
        assert_eq!(received, vec![(Commands::Start, payload.clone())]);
    }
}

#[test]
fn two_messages_back_to_back() {
    let first = ProtocolExample::construct_message(Commands::Start, b"ab").unwrap();
    let second = ProtocolExample::construct_message(Commands::Funny, b"xyz").unwrap();
    let mut stream = first.clone();
    stream.extend_from_slice(&second);
    let expected = vec![(Commands::Start, b"ab".to_vec()), (Commands::Funny, b"xyz".to_vec())];

    let mut buffer = ProtocolBuffer::<ProtocolExample>::new();
    assert_eq!(drain(&mut buffer, &stream), expected);

    for a in 0..=stream.len() {
        for b in a..=stream.len() {
            let mut buffer = ProtocolBuffer::<ProtocolExample>::new();
            let mut received = drain(&mut buffer, &stream[0..a]);
            received.extend(drain(&mut buffer, &stream[a..b]));
            received.extend(drain(&mut buffer, &stream[b..]));
            assert_eq!(received, expected);
        }
    }
}

#[test]
fn one_chunk_completes_several_messages_one_call_at_a_time() {
    let mut stream = ProtocolExample::construct_message(Commands::Start, b"1").unwrap();
    stream.extend(ProtocolExample::construct_message(Commands::Funny, b"22").unwrap());
    stream.extend(ProtocolExample::construct_message(Commands::Start, b"").unwrap());
    let mut buffer = ProtocolBuffer::<ProtocolExample>::new();
    assert_eq!(buffer.process_new_buffer(&stream), Ok(Some((Commands::Start, b"1".to_vec()))));
    assert_eq!(buffer.process_new_buffer(&[]), Ok(Some((Commands::Funny, b"22".to_vec()))));
    assert_eq!(buffer.process_new_buffer(&[]), Ok(Some((Commands::Start, vec![]))));
    assert_eq!(buffer.process_new_buffer(&[]), Ok(None));
}

#[test]
fn header_with_partial_payload_waits_for_the_rest() {
    let bytes = ProtocolExample::construct_message(Commands::Funny, b"abcdef").unwrap();
    let mut buffer = ProtocolBuffer::<ProtocolExample>::new();
    assert_eq!(buffer.process_new_buffer(&bytes[0..7]), Ok(None));
    assert_eq!(buffer.process_new_buffer(&bytes[7..9]), Ok(None));
    assert_eq!(
        buffer.process_new_buffer(&bytes[9..]),
        Ok(Some((Commands::Funny, b"abcdef".to_vec())))
    );
}

#[test]
fn unknown_command_is_a_fatal_header_error() {
    let mut buffer = ProtocolBuffer::<ProtocolExample>::new();
    let bytes = [0u8, 0, 1, 0x31, 0x31, 0x61];
    assert_eq!(buffer.process_new_buffer(&bytes), Err(ParseHeaderError::CommandParseFailed));
    assert_eq!(buffer.process_new_buffer(&[]), Err(ParseHeaderError::CommandParseFailed));
    let (messages, error) = buffer.process_chunk(&[0, 0, 0]);
    assert!(messages.is_empty());
    assert_eq!(error, Some(ParseHeaderError::CommandParseFailed));
}

#[test]
fn messages_before_a_bad_header_are_kept() {
    let mut stream = ProtocolExample::construct_message(Commands::Funny, b"ok").unwrap();
    stream.extend_from_slice(&[0, 0, 0, 0x39, 0x39]);
    let mut buffer = ProtocolBuffer::<ProtocolExample>::new();
    let (messages, error) = buffer.process_chunk(&stream);
    assert_eq!(messages, vec![(Commands::Funny, b"ok".to_vec())]);
    assert_eq!(error, Some(ParseHeaderError::CommandParseFailed));
}

#[test]
fn fresh_automaton_is_idle_until_updated() {
    let mut buffer = ProtocolBuffer::<ProtocolExample>::new();
    assert_eq!(buffer.get_busy_state(), BusyStates::Idle);
    let bytes = ProtocolExample::construct_message(Commands::Start, b"x").unwrap();
    drain(&mut buffer, &bytes);
    assert_eq!(buffer.get_busy_state(), BusyStates::Idle);
    buffer.update_busy_state(BusyStates::Working);
    assert_eq!(buffer.get_busy_state(), BusyStates::Working);
    buffer.update_busy_state(BusyStates::Idle);
    assert_eq!(buffer.get_busy_state(), BusyStates::Idle);
}

#[test]
fn payload_over_the_representable_range_is_refused() {
    let payload = vec![1u8; 1000];
    assert_eq!(ProtocolExample::construct_message(Commands::Start, &payload), None);
    assert_eq!(ProtocolExample::get_length_as_array(Commands::Start, &payload), None);
    let payload = vec![1u8; 999];
    let bytes = ProtocolExample::construct_message(Commands::Start, &payload).unwrap();
    assert_eq!(&bytes[0..5], &[9, 9, 9, 0x30, 0x30]);
    assert_eq!(bytes.len(), 1004);
}

#[test]
fn length_field_is_decimal_digits() {
    assert_eq!(ProtocolExample::get_length_as_array(Commands::Funny, &[0u8; 123]), Some(vec![1, 2, 3]));
    assert_eq!(ProtocolExample::parse_length(&[1, 2, 3]), Some(123));
    assert_eq!(ProtocolExample::parse_length(&[1, 2]), None);
}

#[test]
fn header_parts() {
    let header = [0u8, 4, 2, 0x34, 0x32];
    let (command, length) = ProtocolExample::split_header_array(&header);
    assert_eq!(command, vec![0x34, 0x32]);
    assert_eq!(length, vec![0, 4, 2]);
    assert_eq!(ProtocolExample::parse_header(&header), Ok((Commands::Funny, 42)));
    assert_eq!(
        ProtocolExample::parse_header(&[0, 0, 0, 0x30, 0x31]),
        Err((ParseHeaderError::CommandParseFailed, &[0u8, 0, 0, 0x30, 0x31][..]))
    );
    assert_eq!(ProtocolExample::command_to_array(Commands::Start), vec![0x30, 0x30]);
    assert_eq!(ProtocolExample::construct_header(vec![0x34, 0x32], vec![0, 1, 2]), vec![0, 1, 2, 0x34, 0x32]);
    assert_eq!(ProtocolExample::message_slice_to_header_array(&[1, 2, 3, 4]), None);
    assert_eq!(
        ProtocolExample::message_slice_to_header_array(&[1, 2, 3, 4, 5, 6]),
        Some((vec![1, 2, 3, 4, 5], vec![6]))
    );
}

#[test]
fn array_to_enum_names_the_two_commands() {
    assert_eq!(array_to_enum(&[0x30, 0x30]), Some(Commands::Start));
    assert_eq!(array_to_enum(&[0x34, 0x32]), Some(Commands::Funny));
    assert_eq!(array_to_enum(&[0x34, 0x30]), None);
}

#[test]
fn parse_reads_length_then_command() {
    assert_eq!(parse(&[0, 0, 6, 0x30, 0x30]), Ok((Commands::Start, 6)));
    assert_eq!(parse(&[2, 5, 5, 0x34, 0x32]), Ok((Commands::Funny, 255)));
    assert_eq!(
        parse(&[0, 0, 1, 0x30, 0x39]),
        Err((ParseErrors::CommandParseError, vec![0, 0, 1, 0x30, 0x39]))
    );
}

#[test]
fn chunks_of_one_message_in_any_split_give_that_message() {
    let payload = b"chunked".to_vec();
    let bytes = ProtocolExample::construct_message(Commands::Funny, &payload).unwrap();
    let single: Vec<Vec<u8>> = bytes.iter().map(|b| vec![*b]).collect();
    let mut buffer = ProtocolBuffer::<ProtocolExample>::new();
    assert_eq!(buffer.process_chunks(&single), (vec![(Commands::Funny, payload.clone())], None));
    let uneven = vec![bytes[0..1].to_vec(), vec![], bytes[1..6].to_vec(), bytes[6..].to_vec()];
    let mut buffer = ProtocolBuffer::<ProtocolExample>::new();
    assert_eq!(buffer.process_chunks(&uneven), (vec![(Commands::Funny, payload)], None));
}

#[test]
fn chunks_of_two_messages_give_both_in_order() {
    let mut stream = ProtocolExample::construct_message(Commands::Funny, b"one").unwrap();
    stream.extend(ProtocolExample::construct_message(Commands::Start, b"two!").unwrap());
    let chunks = vec![stream[0..3].to_vec(), stream[3..10].to_vec(), stream[10..].to_vec()];
    let mut buffer = ProtocolBuffer::<ProtocolExample>::new();
    let (messages, error) = buffer.process_chunks(&chunks);
    assert_eq!(error, None);
    assert_eq!(
        messages,
        vec![(Commands::Funny, b"one".to_vec()), (Commands::Start, b"two!".to_vec())]
    );
    assert_eq!(buffer.process_chunks(&[]), (vec![], None));
}

#[test]
fn chunks_stop_at_a_bad_header() {
    let mut stream = ProtocolExample::construct_message(Commands::Start, b"x").unwrap();
    stream.extend_from_slice(&[0, 0, 0, 0x35, 0x35]);
    let chunks = vec![stream[0..4].to_vec(), stream[4..].to_vec(), vec![1, 2, 3]];
    let mut buffer = ProtocolBuffer::<ProtocolExample>::new();
    let (messages, error) = buffer.process_chunks(&chunks);
    assert_eq!(messages, vec![(Commands::Start, b"x".to_vec())]);
    assert_eq!(error, Some(ParseHeaderError::CommandParseFailed));
}
