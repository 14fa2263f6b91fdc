//! Wire protocol for TCP-based MIDI streaming.
//!
//! Messages use length-prefixed framing: `[u16 BE length][u8 type][payload]`
//! where the length covers the type byte and the payload.

use vstd::prelude::*;

verus! {

/// Type byte of a MIDI data message.
pub const TYPE_MIDI_DATA: u8 = 0x01;

/// Type byte of a configure message.
pub const TYPE_CONFIGURE: u8 = 0x02;

/// Type byte of an acknowledgement.
pub const TYPE_ACK: u8 = 0x03;

/// Type byte of a disconnect message.
pub const TYPE_DISCONNECT: u8 = 0x04;

/// Type byte of a heartbeat.
pub const TYPE_HEARTBEAT: u8 = 0x05;

/// Wire protocol message types.
#[derive(Debug, Clone, PartialEq, Eq)]
pub enum Message {
    /// Raw MIDI bytes (type 0x01).
    MidiData(Vec<u8>),
    /// Configuration update (type 0x02).
    Configure { key: u8, mode: u8, octave_mode: u8, voice_count: u8 },
    /// Acknowledgement (type 0x03).
    Ack,
    /// Client disconnect (type 0x04).
    Disconnect,
    /// Keep-alive heartbeat (type 0x05).
    Heartbeat,
}

/// A message as a mathematical value.
pub enum MessageView {
    MidiData(Seq<u8>),
    Configure { key: u8, mode: u8, octave_mode: u8, voice_count: u8 },
    Ack,
    Disconnect,
    Heartbeat,
}

impl View for Message {
    type V = MessageView;

    open spec fn view(&self) -> MessageView {
        match self {
            Message::MidiData(d) => MessageView::MidiData(d@),
            Message::Configure { key, mode, octave_mode, voice_count } => MessageView::Configure {
                key: *key,
                mode: *mode,
                octave_mode: *octave_mode,
                voice_count: *voice_count,
            },
            Message::Ack => MessageView::Ack,
            Message::Disconnect => MessageView::Disconnect,
            Message::Heartbeat => MessageView::Heartbeat,
        }
    }
}

/// Why a message could not be read.
#[derive(Debug, Clone, Copy, PartialEq, Eq, Structural)]
pub enum ProtocolError {
    /// The stream ended before the frame was complete.
    UnexpectedEof,
    /// A frame announced zero length.
    ZeroLength,
    /// The message buffer was empty.
    EmptyBuffer,
    /// A configure message's payload was shorter than 4 bytes (its length).
    ConfigureTooShort(usize),
    /// The type byte is not a known message type.
    UnknownType(u8),
}

/// Type byte and payload of a message.
pub open spec fn spec_serialize(m: MessageView) -> Seq<u8> {
    match m {
        MessageView::MidiData(d) => seq![TYPE_MIDI_DATA] + d,
        MessageView::Configure { key, mode, octave_mode, voice_count } => seq![
            TYPE_CONFIGURE,
            key,
            mode,
            octave_mode,
            voice_count,
        ],
        MessageView::Ack => seq![TYPE_ACK],
        MessageView::Disconnect => seq![TYPE_DISCONNECT],
        MessageView::Heartbeat => seq![TYPE_HEARTBEAT],
    }
}

/// The message encoded by a type byte and payload.
pub open spec fn spec_parse(buf: Seq<u8>) -> Result<MessageView, ProtocolError> {
    if buf.len() == 0 {
        Err(ProtocolError::EmptyBuffer)
    } else {
        let payload = buf.subrange(1, buf.len() as int);
        if buf[0] == TYPE_MIDI_DATA {
            Ok(MessageView::MidiData(payload))
        } else if buf[0] == TYPE_CONFIGURE {
            if payload.len() < 4 {
                Err(ProtocolError::ConfigureTooShort(payload.len() as usize))
            } else {
                Ok(
                    MessageView::Configure {
                        key: payload[0],
                        mode: payload[1],
                        octave_mode: payload[2],
                        voice_count: payload[3],
                    },
                )
            }
        } else if buf[0] == TYPE_ACK {
            Ok(MessageView::Ack)
        } else if buf[0] == TYPE_DISCONNECT {
            Ok(MessageView::Disconnect)
        } else if buf[0] == TYPE_HEARTBEAT {
            Ok(MessageView::Heartbeat)
        } else {
            Err(ProtocolError::UnknownType(buf[0]))
        }
    }
}

/// A parse result as a mathematical value.
pub open spec fn result_view(r: Result<Message, ProtocolError>) -> Result<MessageView, ProtocolError> {
    match r {
        Ok(m) => Ok(m@),
        Err(e) => Err(e),
    }
}

/// The big-endian length prefix of a body of `n` bytes (`n` modulo 2^16,
/// as the prefix has 16 bits).
pub open spec fn spec_length_prefix(n: nat) -> Seq<u8> {
    seq![((n % 65536) / 256) as u8, (n % 256) as u8]
}

/// A message framed for the wire.
pub open spec fn spec_frame(m: MessageView) -> Seq<u8> {
    spec_length_prefix(spec_serialize(m).len()) + spec_serialize(m)
}

/// Reading one framed message from the unread bytes `s`: the result and the
/// bytes left unread. A stream that ends early is consumed entirely.
pub open spec fn spec_read(s: Seq<u8>) -> (Result<MessageView, ProtocolError>, Seq<u8>) {
    if s.len() < 2 {
        (Err(ProtocolError::UnexpectedEof), Seq::empty())
    } else {
        let len = s[0] * 256 + s[1];
        let rest = s.subrange(2, s.len() as int);
        if len == 0 {
            (Err(ProtocolError::ZeroLength), rest)
        } else if rest.len() < len {
            (Err(ProtocolError::UnexpectedEof), Seq::empty())
        } else {
            (spec_parse(rest.subrange(0, len)), rest.subrange(len, rest.len() as int))
        }
    }
}

/// An in-memory byte stream that messages are read from.
pub struct ByteCursor {
    data: Vec<u8>,
    pos: usize,
}

impl ByteCursor {
    #[verifier::type_invariant]
    spec fn inv(self) -> bool {
        self.pos <= self.data@.len()
    }

    /// The bytes not read yet.
    pub closed spec fn remaining_bytes(self) -> Seq<u8> {
        self.data@.subrange(self.pos as int, self.data@.len() as int)
    }
}

impl View for ByteCursor {
    type V = Seq<u8>;

    open spec fn view(&self) -> Seq<u8> {
        self.remaining_bytes()
    }
}

impl ByteCursor {
    /// A cursor at the start of `data`.
    pub fn new(data: Vec<u8>) -> (r: ByteCursor)
        ensures
            r@ == data@,
    {
        let r = ByteCursor { data, pos: 0 };
        assert(r.data@.subrange(0, r.data@.len() as int) =~= r.data@);
        r
    }

    /// Number of bytes not read yet.
    pub fn remaining(&self) -> (r: usize)
        ensures
            r == self@.len(),
    {
        proof {
            use_type_invariant(self);
        }
        self.data.len() - self.pos
    }

    /// Reads exactly `n` bytes; if fewer remain, consumes them all and
    /// returns `None`.
    pub fn read_exact(&mut self, n: usize) -> (r: Option<Vec<u8>>)
        ensures
            old(self)@.len() >= n ==> (r matches Some(v) && v@ == old(self)@.subrange(0, n as int)
                && final(self)@ == old(self)@.subrange(n as int, old(self)@.len() as int)),
            old(self)@.len() < n ==> r is None && final(self)@ == Seq::<u8>::empty(),
    {
        proof {
            use_type_invariant(&*self);
        }
        let avail = self.data.len() - self.pos;
        if avail < n {
            self.pos = self.data.len();
            assert(self@ =~= Seq::<u8>::empty());
            return None;
        }
        let ghost old_rest = self@;
        let start = self.pos;
        let mut v: Vec<u8> = Vec::new();
        let mut i: usize = 0;
        while i < n
            invariant
                i <= n,
                start == self.pos,
                start + n <= self.data.len(),
                old_rest == self.data@.subrange(self.pos as int, self.data@.len() as int),
                v@ == old_rest.subrange(0, i as int),
            decreases n - i,
        {
            v.push(self.data[start + i]);
            i = i + 1;
            assert(v@ =~= old_rest.subrange(0, i as int));
        }
        self.pos = self.pos + n;
        assert(self@ =~= old_rest.subrange(n as int, old_rest.len() as int));
        Some(v)
    }
}

/// Parses a type byte + payload buffer into a message.
pub fn parse_message(buf: &[u8]) -> (r: Result<Message, ProtocolError>)
    ensures
        result_view(r) == spec_parse(buf@),
{
    if buf.len() == 0 {
        return Err(ProtocolError::EmptyBuffer);
    }
    let msg_type = buf[0];
    let plen = buf.len() - 1;
    if msg_type == TYPE_MIDI_DATA {
        let mut payload: Vec<u8> = Vec::new();
        let mut i: usize = 1;
        while i < buf.len()
            invariant
                1 <= i <= buf@.len(),
                payload@ == buf@.subrange(1, i as int),
            decreases buf@.len() - i,
        {
            payload.push(buf[i]);
            i = i + 1;
            assert(payload@ =~= buf@.subrange(1, i as int));
        }
        Ok(Message::MidiData(payload))
    } else if msg_type == TYPE_CONFIGURE {
        if plen < 4 {
            return Err(ProtocolError::ConfigureTooShort(plen));
        }
        Ok(Message::Configure { key: buf[1], mode: buf[2], octave_mode: buf[3], voice_count: buf[4] })
    } else if msg_type == TYPE_ACK {
        Ok(Message::Ack)
    } else if msg_type == TYPE_DISCONNECT {
        Ok(Message::Disconnect)
    } else if msg_type == TYPE_HEARTBEAT {
        Ok(Message::Heartbeat)
    } else {
        Err(ProtocolError::UnknownType(msg_type))
    }
}

/// Serializes a message to type byte + payload.
pub fn serialize_message(msg: &Message) -> (r: Vec<u8>)
    ensures
        r@ == spec_serialize(msg@),
{
    match msg {
        Message::MidiData(data) => {
            let mut buf: Vec<u8> = Vec::new();
            buf.push(TYPE_MIDI_DATA);
            let mut i: usize = 0;
            while i < data.len()
                invariant
                    i <= data@.len(),
                    buf@ == seq![TYPE_MIDI_DATA] + data@.subrange(0, i as int),
                decreases data@.len() - i,
            {
                buf.push(data[i]);
                i = i + 1;
                assert(buf@ =~= seq![TYPE_MIDI_DATA] + data@.subrange(0, i as int));
            }
            assert(data@.subrange(0, data@.len() as int) =~= data@);
            buf
        },
        Message::Configure { key, mode, octave_mode, voice_count } => {
            let r = vec![TYPE_CONFIGURE, *key, *mode, *octave_mode, *voice_count];
            assert(r@ =~= spec_serialize(msg@));
            r
        },
        Message::Ack => {
            let r = vec![TYPE_ACK];
            assert(r@ =~= spec_serialize(msg@));
            r
        },
        Message::Disconnect => {
            let r = vec![TYPE_DISCONNECT];
            assert(r@ =~= spec_serialize(msg@));
            r
        },
        Message::Heartbeat => {
            let r = vec![TYPE_HEARTBEAT];
            assert(r@ =~= spec_serialize(msg@));
            r
        },
    }
}

/// Appends a length-prefixed message to `out`. The 16-bit prefix holds the
/// body length modulo 2^16.
pub fn write_message(out: &mut Vec<u8>, msg: &Message) -> (r: Result<(), ProtocolError>)
    ensures
        r is Ok,
        final(out)@ == old(out)@ + spec_frame(msg@),
{
    let body = serialize_message(msg);
    let len: usize = body.len() % 65536;
    out.push((len / 256) as u8);
    out.push((len % 256) as u8);
    let ghost start = out@;
    let mut i: usize = 0;
    while i < body.len()
        invariant
            i <= body@.len(),
            out@ == start + body@.subrange(0, i as int),
        decreases body@.len() - i,
    {
        out.push(body[i]);
        i = i + 1;
        assert(out@ =~= start + body@.subrange(0, i as int));
    }
    assert(body@.subrange(0, body@.len() as int) =~= body@);
    assert(start =~= old(out)@ + spec_length_prefix(body@.len()));
    assert(out@ =~= old(out)@ + spec_frame(msg@));
    Ok(())
}

/// The body length a frame header announces (big-endian).
pub fn frame_body_len(hi: u8, lo: u8) -> (r: usize)
    ensures
        r == hi * 256 + lo,
{
    hi as usize * 256 + lo as usize
}

/// Reads one length-prefixed message from a stream.
pub fn read_message(stream: &mut ByteCursor) -> (r: Result<Message, ProtocolError>)
    ensures
        (result_view(r), final(stream)@) == spec_read(old(stream)@),
{
    let header = match stream.read_exact(2) {
        Some(h) => h,
        None => return Err(ProtocolError::UnexpectedEof),
    };
    let len: usize = header[0] as usize * 256 + header[1] as usize;
    if len == 0 {
        return Err(ProtocolError::ZeroLength);
    }
    let body = match stream.read_exact(len) {
        Some(b) => b,
        None => return Err(ProtocolError::UnexpectedEof),
    };
    parse_message(body.as_slice())
}

/// Parsing a serialized message gives the message back.
pub proof fn lemma_parse_serialize(m: MessageView)
    ensures
        spec_parse(spec_serialize(m)) == Ok::<MessageView, ProtocolError>(m),
{
    let s = spec_serialize(m);
    match m {
        MessageView::MidiData(d) => {
            assert(s.subrange(1, s.len() as int) =~= d);
        },
        _ => {},
    }
}

/// Reading a written message gives the message back and leaves the bytes
/// that follow it unread, for every message whose body fits the 16-bit
/// length prefix.
pub proof fn lemma_read_written(m: MessageView, tail: Seq<u8>)
    requires
        spec_serialize(m).len() < 65536,
    ensures
        spec_read(spec_frame(m) + tail) == (Ok::<MessageView, ProtocolError>(m), tail),
{
    let body = spec_serialize(m);
    let s = spec_frame(m) + tail;
    let n = body.len();
    assert(n >= 1) by {
        match m {
            MessageView::MidiData(d) => {},
            _ => {},
        }
    }
    assert(s[0] * 256 + s[1] == n);
    let rest = s.subrange(2, s.len() as int);
    assert(rest =~= body + tail);
    assert(rest.subrange(0, n as int) =~= body);
    assert(rest.subrange(n as int, rest.len() as int) =~= tail);
    lemma_parse_serialize(m);
}

} // verus!
