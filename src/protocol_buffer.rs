use vstd::prelude::*;

use crate::protocol::{decode_header, encode, header_round_trips, Message, ParseHeaderError, Protocol};

verus! {

/// A decoded message: its command and its payload.
pub type SpecMessage<P> = (<P as Protocol>::Commands, Seq<u8>);

/// The first message at the front of a byte stream: its command, its payload
/// and the bytes after it. `Ok(None)` while the header or the payload is not
/// complete; `Err` where the header at the front does not parse.
pub open spec fn next_frame<P: Protocol>(s: Seq<u8>) -> Result<
    Option<(P::Commands, Seq<u8>, Seq<u8>)>,
    ParseHeaderError,
> {
    let h = P::spec_header_size();
    if s.len() < h {
        Ok(None)
    } else {
        match decode_header::<P>(s.take(h as int)) {
            Err(e) => Err(e),
            Ok((command, length)) => if s.len() < h + length {
                Ok(None)
            } else {
                Ok(Some((command, s.subrange(h as int, h + length), s.skip(h + length))))
            },
        }
    }
}

/// All messages that a byte stream frames, in order; the bytes left over
/// after them; and the header error that stops framing, if one does.
pub open spec fn frames<P: Protocol>(s: Seq<u8>) -> (
    Seq<SpecMessage<P>>,
    Seq<u8>,
    Option<ParseHeaderError>,
)
    decreases s.len(),
{
    match next_frame::<P>(s) {
        Ok(Some((command, payload, rest))) => if rest.len() < s.len() {
            let (messages, left, error) = frames::<P>(rest);
            (seq![(command, payload)] + messages, left, error)
        } else {
            (seq![(command, payload)], rest, None)
        },
        Ok(None) => (seq![], s, None),
        Err(e) => (seq![], s, Some(e)),
    }
}

/// The decoded form of executable messages.
pub open spec fn messages_view<P: Protocol>(messages: Seq<Message<P>>) -> Seq<SpecMessage<P>> {
    messages.map_values(|m: Message<P>| (m.0, m.1@))
}

/// The bytes of each chunk.
pub open spec fn chunks_view(chunks: Seq<Vec<u8>>) -> Seq<Seq<u8>> {
    chunks.map_values(|c: Vec<u8>| c@)
}

/// What an automaton holding `pending` hands out when the chunks arrive one
/// after the other, each drained until no message is left: the messages in
/// order, the bytes left over, and the header error that stops it, if any.
pub open spec fn feed<P: Protocol>(pending: Seq<u8>, chunks: Seq<Seq<u8>>) -> (
    Seq<SpecMessage<P>>,
    Seq<u8>,
    Option<ParseHeaderError>,
)
    decreases chunks.len(),
{
    if chunks.len() == 0 {
        frames::<P>(pending)
    } else {
        let (messages, left, _) = frames::<P>(pending + chunks[0]);
        let (more, rest, error) = feed::<P>(left, chunks.drop_first());
        (messages + more, rest, error)
    }
}

/// A message framed off the front of a stream leaves fewer bytes behind.
proof fn lemma_next_frame_shrinks<P: Protocol>(s: Seq<u8>)
    ensures
        next_frame::<P>(s) matches Ok(Some((_, _, rest))) ==> rest.len() < s.len(),
{
    P::lemma_header_size_positive();
}

/// Framing `s` and then the bytes it leaves over followed by `b` gives what
/// framing `s + b` at once gives.
pub proof fn lemma_frames_append<P: Protocol>(s: Seq<u8>, b: Seq<u8>)
    ensures
        ({
            let (m1, left, _) = frames::<P>(s);
            let (m2, rest, error) = frames::<P>(left + b);
            frames::<P>(s + b) == (m1 + m2, rest, error)
        }),
    decreases s.len(),
{
    lemma_next_frame_shrinks::<P>(s);
    lemma_next_frame_shrinks::<P>(s + b);
    let h = P::spec_header_size();
    match next_frame::<P>(s) {
        Ok(Some((command, payload, rest))) => {
            let length = payload.len() as int;
            assert((s + b).take(h as int) =~= s.take(h as int));
            assert((s + b).subrange(h as int, h + length) =~= payload);
            assert((s + b).skip(h + length) =~= rest + b);
            lemma_frames_append::<P>(rest, b);
            let (m1, left, _) = frames::<P>(rest);
            let (m2, _, _) = frames::<P>(left + b);
            assert(seq![(command, payload)] + (m1 + m2) =~= seq![(command, payload)] + m1 + m2);
        },
        Ok(None) => {
            assert(Seq::<SpecMessage<P>>::empty() + frames::<P>(s + b).0 =~= frames::<P>(s + b).0);
        },
        Err(_) => {
            assert(Seq::<SpecMessage<P>>::empty() + frames::<P>(s + b).0 =~= frames::<P>(s + b).0);
        },
    }
}

/// The bytes that framing leaves over frame no further message.
pub proof fn lemma_frames_left_over<P: Protocol>(s: Seq<u8>)
    ensures
        ({
            let (_, left, error) = frames::<P>(s);
            frames::<P>(left) == (Seq::<SpecMessage<P>>::empty(), left, error)
        }),
    decreases s.len(),
{
    lemma_next_frame_shrinks::<P>(s);
    if let Ok(Some((_, _, rest))) = next_frame::<P>(s) {
        lemma_frames_left_over::<P>(rest);
    }
}

/// Chunking invariance: whatever the split of a byte stream into chunks, the
/// automaton hands out the messages, the leftover bytes and the error that
/// framing the whole stream at once gives.
pub proof fn lemma_feed_is_frames<P: Protocol>(pending: Seq<u8>, chunks: Seq<Seq<u8>>)
    ensures
        feed::<P>(pending, chunks) == frames::<P>(pending + chunks.flatten()),
    decreases chunks.len(),
{
    if chunks.len() == 0 {
        assert(pending + chunks.flatten() =~= pending);
    } else {
        let (m1, left, _) = frames::<P>(pending + chunks[0]);
        lemma_feed_is_frames::<P>(left, chunks.drop_first());
        lemma_frames_append::<P>(pending + chunks[0], chunks.drop_first().flatten());
        assert(pending + chunks.flatten() =~= pending + chunks[0] + chunks.drop_first().flatten());
    }
}

/// Decoding the wire bytes of a message whose length is representable gives
/// back exactly that message, with no byte left over, for a protocol whose
/// headers decode to what they encode.
pub proof fn lemma_decode_encoded<P: Protocol>(command: P::Commands, message: Seq<u8>)
    requires
        encode::<P>(command, message) is Some,
        header_round_trips::<P>(command, message),
        message.len() <= usize::MAX,
    ensures
        next_frame::<P>(encode::<P>(command, message)->Some_0) == Ok::<
            Option<(P::Commands, Seq<u8>, Seq<u8>)>,
            ParseHeaderError,
        >(Some((command, message, Seq::<u8>::empty()))),
        frames::<P>(encode::<P>(command, message)->Some_0) == (
            seq![(command, message)],
            Seq::<u8>::empty(),
            None::<ParseHeaderError>,
        ),
{
    P::lemma_header_size_positive();
    let h = P::spec_header_size();
    let header = P::spec_construct_header(
        P::spec_command_bytes(command),
        P::spec_length_bytes(command, message)->Some_0,
    );
    let bytes = encode::<P>(command, message)->Some_0;
    assert(bytes.take(h as int) =~= header);
    assert(bytes.subrange(h as int, h + message.len() as int) =~= message);
    assert(bytes.skip(h + message.len() as int) =~= Seq::<u8>::empty());
    assert(frames::<P>(Seq::<u8>::empty()).0 =~= Seq::<SpecMessage<P>>::empty());
    assert(seq![(command, message)] + Seq::<SpecMessage<P>>::empty() =~= seq![(command, message)]);
}

/// The wire bytes of one message, split into chunks at any points (one byte
/// per chunk included), give a fresh automaton that message and nothing else,
/// for a protocol whose headers decode to what they encode.
pub proof fn lemma_chunked_message<P: Protocol>(
    command: P::Commands,
    message: Seq<u8>,
    chunks: Seq<Seq<u8>>,
)
    requires
        encode::<P>(command, message) is Some,
        header_round_trips::<P>(command, message),
        message.len() <= usize::MAX,
        chunks.flatten() == encode::<P>(command, message)->Some_0,
    ensures
        feed::<P>(Seq::<u8>::empty(), chunks) == (
            seq![(command, message)],
            Seq::<u8>::empty(),
            None::<ParseHeaderError>,
        ),
{
    lemma_feed_is_frames::<P>(Seq::<u8>::empty(), chunks);
    assert(Seq::<u8>::empty() + chunks.flatten() =~= chunks.flatten());
    lemma_decode_encoded::<P>(command, message);
}

/// The wire bytes of two messages, one after the other and split into chunks
/// at any points, give a fresh automaton exactly those two messages, in order,
/// for a protocol whose headers decode to what they encode.
pub proof fn lemma_back_to_back<P: Protocol>(
    first_command: P::Commands,
    first_message: Seq<u8>,
    second_command: P::Commands,
    second_message: Seq<u8>,
    chunks: Seq<Seq<u8>>,
)
    requires
        encode::<P>(first_command, first_message) is Some,
        encode::<P>(second_command, second_message) is Some,
        header_round_trips::<P>(first_command, first_message),
        header_round_trips::<P>(second_command, second_message),
        first_message.len() <= usize::MAX,
        second_message.len() <= usize::MAX,
        chunks.flatten() == encode::<P>(first_command, first_message)->Some_0 + encode::<P>(
            second_command,
            second_message,
        )->Some_0,
    ensures
        feed::<P>(Seq::<u8>::empty(), chunks) == (
            seq![(first_command, first_message), (second_command, second_message)],
            Seq::<u8>::empty(),
            None::<ParseHeaderError>,
        ),
{
    let first = encode::<P>(first_command, first_message)->Some_0;
    let second = encode::<P>(second_command, second_message)->Some_0;
    lemma_feed_is_frames::<P>(Seq::<u8>::empty(), chunks);
    assert(Seq::<u8>::empty() + chunks.flatten() =~= first + second);
    lemma_decode_encoded::<P>(first_command, first_message);
    lemma_decode_encoded::<P>(second_command, second_message);
    lemma_frames_append::<P>(first, second);
    assert(Seq::<u8>::empty() + second =~= second);
    assert(seq![(first_command, first_message)] + seq![(second_command, second_message)] =~= seq![
        (first_command, first_message),
        (second_command, second_message),
    ]);
}

/// The automaton that reassembles messages from chunks of a byte stream.
///
/// It waits either for a header (no message in progress) or for the rest of a
/// payload (command and payload length known). Bytes beyond the message in
/// progress are kept for the next header.
pub struct ProtocolBuffer<P: Protocol> {
    current_command: Option<P::Commands>,
    current_target: usize,
    current_message: Vec<u8>,
    incoming_buffer_vec: Vec<u8>,
    busy_state: P::BusyStates,
    current_header: Ghost<Seq<u8>>,
}

impl<P: Protocol> ProtocolBuffer<P> {
    /// The bytes received and not yet handed out as part of a message, the
    /// header of the message in progress included.
    pub closed spec fn pending(&self) -> Seq<u8> {
        match self.current_command {
            Some(_) => self.current_header@ + self.current_message@ + self.incoming_buffer_vec@,
            None => self.incoming_buffer_vec@,
        }
    }

    /// The busy state that decides immediate replies.
    pub closed spec fn busy(&self) -> P::BusyStates {
        self.busy_state
    }

    /// The message in progress has a parsed header and an incomplete payload.
    pub closed spec fn wf(&self) -> bool {
        match self.current_command {
            Some(command) => {
                &&& self.current_header@.len() == P::spec_header_size()
                &&& decode_header::<P>(self.current_header@) == Ok::<
                    (P::Commands, usize),
                    ParseHeaderError,
                >((command, self.current_target))
                &&& self.current_message@.len() < self.current_target
                &&& self.incoming_buffer_vec@.len() == 0
            },
            None => true,
        }
    }

    /// Creates an empty automaton in the protocol's idle busy state.
    pub fn new() -> (r: Self)
        ensures
            r.wf(),
            r.pending() == Seq::<u8>::empty(),
            r.busy() == P::spec_idle(),
    {
        Self {
            current_command: None,
            current_target: 0,
            current_message: Vec::new(),
            incoming_buffer_vec: Vec::new(),
            busy_state: P::idle(),
            current_header: Ghost(Seq::empty()),
        }
    }

    /// Takes a newly received chunk and returns the next complete message, if
    /// the bytes received so far hold one. Call again with an empty chunk until
    /// it returns `Ok(None)`: one chunk may complete several messages. A header
    /// that does not parse is a fatal error of the connection: it is returned,
    /// and returned again on every later call.
    pub fn process_new_buffer(&mut self, incoming_buffer: &[u8]) -> (r: Result<
        Option<Message<P>>,
        ParseHeaderError,
    >)
        requires
            old(self).wf(),
        ensures
            final(self).wf(),
            final(self).busy() == old(self).busy(),
            match next_frame::<P>(old(self).pending() + incoming_buffer@) {
                Ok(Some((command, payload, rest))) => r matches Ok(Some((c, m))) && c == command
                    && m@ == payload && final(self).pending() == rest,
                Ok(None) => r matches Ok(None) && final(self).pending() == old(self).pending()
                    + incoming_buffer@,
                Err(e) => r == Err::<Option<Message<P>>, ParseHeaderError>(e)
                    && final(self).pending() == old(self).pending() + incoming_buffer@,
            },
    {
        let ghost s = old(self).pending() + incoming_buffer@;
        let ghost h = P::spec_header_size();
        self.incoming_buffer_vec.extend_from_slice(incoming_buffer);
        if self.current_command.is_none() {
            assert(self.incoming_buffer_vec@ =~= s);
            match P::message_slice_to_header_array(self.incoming_buffer_vec.as_slice()) {
                None => {
                    return Ok(None);
                },
                Some((header, rest)) => {
                    match P::parse_header(header.as_slice()) {
                        Err((e, _)) => {
                            return Err(e);
                        },
                        Ok((command, length)) => {
                            let mut message = rest;
                            let available = message.len();
                            let tail = if length <= available {
                                message.split_off(length)
                            } else {
                                Vec::new()
                            };
                            self.current_command = Some(command);
                            self.current_target = length;
                            self.current_message = message;
                            self.incoming_buffer_vec = tail;
                            self.current_header = Ghost(header@);
                            assert(self.pending() =~= s);
                        },
                    }
                },
            }
        }
        assert(self.pending() == s);
        assert(s.take(h as int) == self.current_header@) by {
            assert(s.take(h as int) =~= self.current_header@);
        }
        let command = self.current_command.unwrap();
        let target = self.current_target;
        if self.incoming_buffer_vec.len() < self.current_target - self.current_message.len() {
            self.current_message.append(&mut self.incoming_buffer_vec);
            assert(self.pending() =~= s);
            Ok(None)
        } else {
            let mut completed_message = self.current_message.split_off(0);
            let at = self.current_target - completed_message.len();
            let mut to_append = self.incoming_buffer_vec.split_off(at);
            completed_message.append(&mut self.incoming_buffer_vec);
            self.incoming_buffer_vec.append(&mut to_append);
            self.current_target = 0;
            self.current_command = None;
            assert(completed_message@ =~= s.subrange(h as int, h + target));
            assert(self.pending() =~= s.skip(h + target));
            Ok(Some((command, completed_message)))
        }
    }

    /// Takes a newly received chunk and returns every message that it
    /// completes, in order, with the header error that stops the connection,
    /// if one does.
    pub fn process_chunk(&mut self, incoming_buffer: &[u8]) -> (r: (
        Vec<Message<P>>,
        Option<ParseHeaderError>,
    ))
        requires
            old(self).wf(),
        ensures
            final(self).wf(),
            final(self).busy() == old(self).busy(),
            frames::<P>(old(self).pending() + incoming_buffer@) == (
                messages_view::<P>(r.0@),
                final(self).pending(),
                r.1,
            ),
            frames::<P>(final(self).pending()) == (
                Seq::<SpecMessage<P>>::empty(),
                final(self).pending(),
                r.1,
            ),
    {
        let ghost s = old(self).pending() + incoming_buffer@;
        let empty: Vec<u8> = Vec::new();
        let mut messages: Vec<Message<P>> = Vec::new();
        proof {
            lemma_next_frame_shrinks::<P>(s);
        }
        let mut result = self.process_new_buffer(incoming_buffer);
        loop
            invariant
                self.wf(),
                self.busy() == old(self).busy(),
                empty@ == Seq::<u8>::empty(),
                s == old(self).pending() + incoming_buffer@,
                match result {
                    Ok(Some(m)) => frames::<P>(s) == (
                        messages_view::<P>(messages@) + seq![(m.0, m.1@)] + frames::<P>(
                            self.pending(),
                        ).0,
                        frames::<P>(self.pending()).1,
                        frames::<P>(self.pending()).2,
                    ),
                    Ok(None) => frames::<P>(s) == (
                        messages_view::<P>(messages@),
                        self.pending(),
                        None::<ParseHeaderError>,
                    ),
                    Err(e) => frames::<P>(s) == (
                        messages_view::<P>(messages@),
                        self.pending(),
                        Some(e),
                    ),
                },
            decreases self.pending().len() + if result is Ok && result->Ok_0 is Some {
                1int
            } else {
                0int
            },
        {
            match result {
                Ok(Some(m)) => {
                    let ghost before = messages@;
                    messages.push(m);
                    let ghost p = self.pending();
                    assert(p + empty@ =~= p);
                    proof {
                        lemma_next_frame_shrinks::<P>(p);
                        assert(messages_view::<P>(messages@) =~= messages_view::<P>(before) + seq![
                            (m.0, m.1@),
                        ]);
                    }
                    result = self.process_new_buffer(empty.as_slice());
                    proof {
                        if let Ok(Some((command, payload, rest))) = next_frame::<P>(p) {
                            assert(messages_view::<P>(messages@) + seq![(command, payload)]
                                + frames::<P>(rest).0 =~= messages_view::<P>(messages@) + (seq![
                                (command, payload),
                            ] + frames::<P>(rest).0));
                        } else {
                            assert(messages_view::<P>(messages@) + frames::<P>(p).0
                                =~= messages_view::<P>(messages@));
                        }
                    }
                },
                Ok(None) => {
                    proof {
                        lemma_frames_left_over::<P>(s);
                    }
                    return (messages, None);
                },
                Err(e) => {
                    proof {
                        lemma_frames_left_over::<P>(s);
                    }
                    return (messages, Some(e));
                },
            }
        }
    }

    /// Takes several chunks, one after the other, and returns every message
    /// that they complete, in order, with the header error that stops the
    /// connection, if one occurs. The result is that of the bytes joined into
    /// one chunk, whatever the split.
    pub fn process_chunks(&mut self, chunks: &[Vec<u8>]) -> (r: (
        Vec<Message<P>>,
        Option<ParseHeaderError>,
    ))
        requires
            old(self).wf(),
        ensures
            final(self).wf(),
            final(self).busy() == old(self).busy(),
            frames::<P>(old(self).pending() + chunks_view(chunks@).flatten()) == (
                messages_view::<P>(r.0@),
                final(self).pending(),
                r.1,
            ),
            feed::<P>(old(self).pending(), chunks_view(chunks@)) == (
                messages_view::<P>(r.0@),
                final(self).pending(),
                r.1,
            ),
    {
        let ghost p0 = old(self).pending();
        let ghost cs = chunks_view(chunks@);
        let empty: Vec<u8> = Vec::new();
        let (mut messages, mut error) = self.process_chunk(empty.as_slice());
        assert(p0 + cs.take(0).flatten() =~= p0 + empty@);
        let mut i: usize = 0;
        while i < chunks.len()
            invariant
                self.wf(),
                self.busy() == old(self).busy(),
                i <= chunks@.len(),
                cs == chunks_view(chunks@),
                p0 == old(self).pending(),
                frames::<P>(p0 + cs.take(i as int).flatten()) == (
                    messages_view::<P>(messages@),
                    self.pending(),
                    error,
                ),
            decreases chunks@.len() - i,
        {
            let ghost before = messages@;
            let ghost prefix = p0 + cs.take(i as int).flatten();
            let (mut more, e) = self.process_chunk(chunks[i].as_slice());
            proof {
                lemma_frames_append::<P>(prefix, cs[i as int]);
                assert(cs.take(i + 1) =~= cs.take(i as int).push(cs[i as int]));
                cs.take(i as int).lemma_flatten_push(cs[i as int]);
                assert(p0 + cs.take(i + 1).flatten() =~= prefix + cs[i as int]);
            }
            let ghost added = more@;
            messages.append(&mut more);
            assert(messages_view::<P>(messages@) =~= messages_view::<P>(before) + messages_view::<P>(
                added,
            ));
            error = e;
            i = i + 1;
        }
        proof {
            assert(cs.take(chunks@.len() as int) =~= cs);
            lemma_feed_is_frames::<P>(p0, cs);
        }
        (messages, error)
    }

    /// Sets the busy state that decides immediate replies.
    pub fn update_busy_state(&mut self, busy_state: P::BusyStates)
        requires
            old(self).wf(),
        ensures
            final(self).wf(),
            final(self).pending() == old(self).pending(),
            final(self).busy() == busy_state,
    {
        self.busy_state = busy_state;
    }

    /// Returns the busy state that decides immediate replies.
    pub fn get_busy_state(&self) -> (r: P::BusyStates)
        ensures
            r == self.busy(),
    {
        self.busy_state
    }
}

} // verus!
