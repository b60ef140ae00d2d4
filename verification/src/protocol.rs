//! The wire format: a header of fixed fields and one counted identity, then the payload.

use crate::be::{
    be, be_len, be_of_from_be, from_be, from_be_bound, from_be_of_be, get_be, pow256_values, put_be,
};
use crate::peer::{peer_id_of_bytes, valid_peer_id, PeerId};
use vstd::prelude::*;
use vstd::slice::{slice_subrange, slice_to_vec};

verus! {

/// Wire message types.
#[derive(Debug, Clone, Copy, PartialEq, Eq, Structural)]
pub enum MessageType {
    Unexpected,
    Expected,
    RmaPut,
    RmaGetReq,
    RmaGetResp,
}

impl MessageType {
    /// The byte that stands for a type.
    pub open spec fn code(self) -> u8 {
        match self {
            MessageType::Unexpected => 1,
            MessageType::Expected => 2,
            MessageType::RmaPut => 3,
            MessageType::RmaGetReq => 4,
            MessageType::RmaGetResp => 5,
        }
    }

    /// The type that a byte stands for.
    pub fn from_u8(v: u8) -> (r: Option<Self>)
        ensures
            r == type_of_code(v),
    {
        match v {
            1 => Some(Self::Unexpected),
            2 => Some(Self::Expected),
            3 => Some(Self::RmaPut),
            4 => Some(Self::RmaGetReq),
            5 => Some(Self::RmaGetResp),
            _ => None,
        }
    }

    /// The byte that stands for this type.
    pub fn to_u8(self) -> (r: u8)
        ensures
            r == self.code(),
            1 <= r <= 5,
    {
        match self {
            Self::Unexpected => 1,
            Self::Expected => 2,
            Self::RmaPut => 3,
            Self::RmaGetReq => 4,
            Self::RmaGetResp => 5,
        }
    }
}

/// The type that a byte stands for, if any.
pub open spec fn type_of_code(v: u8) -> Option<MessageType> {
    if v == 1 {
        Some(MessageType::Unexpected)
    } else if v == 2 {
        Some(MessageType::Expected)
    } else if v == 3 {
        Some(MessageType::RmaPut)
    } else if v == 4 {
        Some(MessageType::RmaGetReq)
    } else if v == 5 {
        Some(MessageType::RmaGetResp)
    } else {
        None
    }
}

/// The header of a message.
#[derive(Debug, PartialEq, Eq)]
pub struct WireHeader {
    pub msg_type: MessageType,
    pub tag: u32,
    pub payload_size: u32,
    pub source_peer_id: PeerId,
    pub handle_id: u64,
    pub offset: u64,
    pub rma_length: u64,
    pub local_handle_id: u64,
    pub local_offset: u64,
}

/// The header of a message, as a mathematical value.
pub struct HeaderView {
    pub msg_type: MessageType,
    pub tag: u32,
    pub payload_size: u32,
    pub source: Seq<u8>,
    pub handle_id: u64,
    pub offset: u64,
    pub rma_length: u64,
    pub local_handle_id: u64,
    pub local_offset: u64,
}

impl View for WireHeader {
    type V = HeaderView;

    open spec fn view(&self) -> HeaderView {
        HeaderView {
            msg_type: self.msg_type,
            tag: self.tag,
            payload_size: self.payload_size,
            source: self.source_peer_id@,
            handle_id: self.handle_id,
            offset: self.offset,
            rma_length: self.rma_length,
            local_handle_id: self.local_handle_id,
            local_offset: self.local_offset,
        }
    }
}

/// The fields before the sender's identity; the last two bytes count the bytes of the identity.
pub open spec fn front_bytes(h: HeaderView) -> Seq<u8> {
    seq![h.msg_type.code()] + be(h.tag as nat, 4) + be(h.payload_size as nat, 4) + be(
        h.source.len(),
        2,
    )
}

/// The fields after the sender's identity.
pub open spec fn rma_bytes(h: HeaderView) -> Seq<u8> {
    be(h.handle_id as nat, 8) + be(h.offset as nat, 8) + be(h.rma_length as nat, 8) + be(
        h.local_handle_id as nat,
        8,
    ) + be(h.local_offset as nat, 8)
}

/// The bytes of a message on the wire.
pub open spec fn wire_bytes(h: HeaderView, payload: Seq<u8>) -> Seq<u8> {
    front_bytes(h) + h.source + rma_bytes(h) + payload
}

/// Lays out a complete message (header and payload) as the bytes to be sent.
pub fn write_message(header: &WireHeader, payload: &[u8]) -> (r: Vec<u8>)
    ensures
        r@ == wire_bytes(header@, payload@),
{
    let mut buf: Vec<u8> = Vec::new();
    buf.push(header.msg_type.to_u8());
    put_be(&mut buf, header.tag as u64, 4);
    put_be(&mut buf, header.payload_size as u64, 4);
    let peer_bytes = header.source_peer_id.to_bytes();
    put_be(&mut buf, peer_bytes.len() as u64, 2);
    assert(buf@ == front_bytes(header@));
    append_bytes(&mut buf, peer_bytes.as_slice());
    let ghost before = buf@;
    put_be(&mut buf, header.handle_id, 8);
    put_be(&mut buf, header.offset, 8);
    put_be(&mut buf, header.rma_length, 8);
    put_be(&mut buf, header.local_handle_id, 8);
    put_be(&mut buf, header.local_offset, 8);
    assert(buf@ == before + rma_bytes(header@));
    append_bytes(&mut buf, payload);
    buf
}

/// Appends a slice.
pub fn append_bytes(out: &mut Vec<u8>, data: &[u8])
    ensures
        final(out)@ == old(out)@ + data@,
{
    let ghost before = out@;
    let mut i: usize = 0;
    while i < data.len()
        invariant
            i <= data@.len(),
            out@ == before + data@.subrange(0, i as int),
        decreases data@.len() - i,
    {
        out.push(data[i]);
        i += 1;
        assert(data@.subrange(0, i as int) == data@.subrange(0, i - 1).push(data@[i - 1]));
    }
    assert(data@.subrange(0, i as int) == data@);
}

/// Why no message could be read.
#[derive(Debug, Clone, Copy, PartialEq, Eq, Structural)]
pub enum ReadError {
    /// The stream ended before the message was complete.
    UnexpectedEof,
    /// The first byte stands for no message type.
    BadMessageType,
    /// The sender's identity is malformed.
    BadPeerId,
}

/// What a stream of bytes starts with.
pub enum Reading {
    /// A complete message, and what follows it.
    Message { header: HeaderView, payload: Seq<u8>, rest: Seq<u8> },
    /// No message, for this reason.
    Fails(ReadError),
}

/// What the remaining bytes of a stream read as. An error in the data shows before the end of the
/// stream does, as soon as the bytes that hold it are there.
pub open spec fn read_as(input: Seq<u8>) -> Reading {
    if input.len() < 1 {
        Reading::Fails(ReadError::UnexpectedEof)
    } else if type_of_code(input[0]) is None {
        Reading::Fails(ReadError::BadMessageType)
    } else if input.len() < 11 {
        Reading::Fails(ReadError::UnexpectedEof)
    } else {
        let n = from_be(input.subrange(9, 11)) as int;
        if input.len() < 11 + n {
            Reading::Fails(ReadError::UnexpectedEof)
        } else {
            match peer_id_of_bytes(input.subrange(11, 11 + n)) {
                None => Reading::Fails(ReadError::BadPeerId),
                Some(source) => read_tail(
                    type_of_code(input[0])->0,
                    from_be(input.subrange(1, 5)) as u32,
                    from_be(input.subrange(5, 9)) as u32,
                    source,
                    input.subrange(11 + n, input.len() as int),
                ),
            }
        }
    }
}

/// What the bytes after the sender's identity read as.
pub open spec fn read_tail(
    msg_type: MessageType,
    tag: u32,
    payload_size: u32,
    source: Seq<u8>,
    input: Seq<u8>,
) -> Reading {
    if input.len() < 40 {
        Reading::Fails(ReadError::UnexpectedEof)
    } else {
        let header = HeaderView {
            msg_type,
            tag,
            payload_size,
            source,
            handle_id: from_be(input.subrange(0, 8)) as u64,
            offset: from_be(input.subrange(8, 16)) as u64,
            rma_length: from_be(input.subrange(16, 24)) as u64,
            local_handle_id: from_be(input.subrange(24, 32)) as u64,
            local_offset: from_be(input.subrange(32, 40)) as u64,
        };
        read_payload(header, input.subrange(40, input.len() as int))
    }
}

/// What the bytes after the header read as.
pub open spec fn read_payload(header: HeaderView, input: Seq<u8>) -> Reading {
    if input.len() < header.payload_size {
        Reading::Fails(ReadError::UnexpectedEof)
    } else {
        Reading::Message {
            header,
            payload: input.subrange(0, header.payload_size as int),
            rest: input.subrange(header.payload_size as int, input.len() as int),
        }
    }
}

/// How far the reader of one message has come.
#[derive(Debug, PartialEq, Eq)]
pub enum ReadStage {
    /// Nothing has been read.
    Type,
    /// The type is known.
    Front { msg_type: MessageType },
    /// The length of the sender's identity is known.
    Peer { msg_type: MessageType, tag: u32, payload_size: u32, peer_id_len: u16 },
    /// The sender is known.
    Rma { msg_type: MessageType, tag: u32, payload_size: u32, source_peer_id: PeerId },
    /// The header is complete.
    Payload { header: WireHeader },
}

/// What came of one step of the reader.
#[derive(Debug, PartialEq, Eq)]
pub enum ReadStep {
    /// The next stage.
    Next(ReadStage),
    /// The message is complete.
    Done(WireHeader, Vec<u8>),
    /// The bytes hold no message.
    Failed(ReadError),
}

impl ReadStage {
    /// How many bytes the stage takes.
    pub open spec fn width(self) -> nat {
        match self {
            ReadStage::Type => 1,
            ReadStage::Front { .. } => 10,
            ReadStage::Peer { peer_id_len, .. } => peer_id_len as nat,
            ReadStage::Rma { .. } => 40,
            ReadStage::Payload { header } => header.payload_size as nat,
        }
    }

    /// What the rest of the stream reads as, from this stage on.
    pub open spec fn resume(self, input: Seq<u8>) -> Reading {
        match self {
            ReadStage::Type => read_as(input),
            ReadStage::Front { msg_type } => read_as(seq![msg_type.code()] + input),
            ReadStage::Peer { msg_type, tag, payload_size, peer_id_len } => if input.len()
                < peer_id_len {
                Reading::Fails(ReadError::UnexpectedEof)
            } else {
                match peer_id_of_bytes(input.subrange(0, peer_id_len as int)) {
                    None => Reading::Fails(ReadError::BadPeerId),
                    Some(source) => read_tail(
                        msg_type,
                        tag,
                        payload_size,
                        source,
                        input.subrange(peer_id_len as int, input.len() as int),
                    ),
                }
            },
            ReadStage::Rma { msg_type, tag, payload_size, source_peer_id } => read_tail(
                msg_type,
                tag,
                payload_size,
                source_peer_id@,
                input,
            ),
            ReadStage::Payload { header } => read_payload(header@, input),
        }
    }

    /// How many bytes the reader needs before it can take the next step.
    pub fn needed(&self) -> (n: usize)
        ensures
            n == self.width(),
    {
        match self {
            ReadStage::Type => 1,
            ReadStage::Front { .. } => 10,
            ReadStage::Peer { peer_id_len, .. } => *peer_id_len as usize,
            ReadStage::Rma { .. } => 40,
            ReadStage::Payload { header } => header.payload_size as usize,
        }
    }

    /// Takes exactly the bytes that the stage needs.
    pub fn advance(self, chunk: &[u8]) -> (r: ReadStep)
        requires
            chunk@.len() == self.width(),
        ensures
            forall|rest: Seq<u8>| #[trigger]
                self.resume(chunk@ + rest) == (match r {
                    ReadStep::Next(stage) => stage.resume(rest),
                    ReadStep::Done(header, payload) => Reading::Message {
                        header: header@,
                        payload: payload@,
                        rest,
                    },
                    ReadStep::Failed(e) => Reading::Fails(e),
                }),
            r matches ReadStep::Failed(e) ==> e != ReadError::UnexpectedEof,
            r matches ReadStep::Next(stage) ==> self.rank() > stage.rank(),
    {
        proof {
            pow256_values();
        }
        match self {
            ReadStage::Type => {
                let r = match MessageType::from_u8(chunk[0]) {
                    Some(msg_type) => ReadStep::Next(ReadStage::Front { msg_type }),
                    None => ReadStep::Failed(ReadError::BadMessageType),
                };
                assert forall|rest: Seq<u8>| r matches ReadStep::Next(stage) implies #[trigger] self.resume(
                    chunk@ + rest,
                ) == (r->Next_0).resume(rest) by {
                    assert(chunk@ + rest == seq![(r->Next_0)->Front_msg_type.code()] + rest);
                }
                r
            },
            ReadStage::Front { msg_type } => {
                let tag = get_be(chunk, 0, 4) as u32;
                let payload_size = get_be(chunk, 4, 4) as u32;
                let peer_id_len = get_be(chunk, 8, 2) as u16;
                let stage = ReadStage::Peer { msg_type, tag, payload_size, peer_id_len };
                assert forall|rest: Seq<u8>| #[trigger] self.resume(chunk@ + rest) == stage.resume(
                    rest,
                ) by {
                    let input = seq![msg_type.code()] + (chunk@ + rest);
                    assert(input.subrange(1, 5) == chunk@.subrange(0, 4));
                    assert(input.subrange(5, 9) == chunk@.subrange(4, 8));
                    assert(input.subrange(9, 11) == chunk@.subrange(8, 10));
                    let n = peer_id_len as int;
                    if rest.len() >= n {
                        assert(input.subrange(11, 11 + n) == rest.subrange(0, n));
                        assert(input.subrange(11 + n, input.len() as int) == rest.subrange(
                            n,
                            rest.len() as int,
                        ));
                    }
                }
                ReadStep::Next(stage)
            },
            ReadStage::Peer { msg_type, tag, payload_size, peer_id_len } => {
                let r = match PeerId::from_bytes(chunk) {
                    Some(source_peer_id) => ReadStep::Next(
                        ReadStage::Rma { msg_type, tag, payload_size, source_peer_id },
                    ),
                    None => ReadStep::Failed(ReadError::BadPeerId),
                };
                assert forall|rest: Seq<u8>| true implies (chunk@ + rest).subrange(
                    0,
                    peer_id_len as int,
                ) == chunk@ && #[trigger] (chunk@ + rest).subrange(
                    peer_id_len as int,
                    (chunk@ + rest).len() as int,
                ) == rest by {
                    assert((chunk@ + rest).subrange(0, peer_id_len as int) == chunk@);
                    assert((chunk@ + rest).subrange(
                        peer_id_len as int,
                        (chunk@ + rest).len() as int,
                    ) == rest);
                }
                r
            },
            ReadStage::Rma { msg_type, tag, payload_size, source_peer_id } => {
                let header = WireHeader {
                    msg_type,
                    tag,
                    payload_size,
                    source_peer_id,
                    handle_id: get_be(chunk, 0, 8),
                    offset: get_be(chunk, 8, 8),
                    rma_length: get_be(chunk, 16, 8),
                    local_handle_id: get_be(chunk, 24, 8),
                    local_offset: get_be(chunk, 32, 8),
                };
                assert forall|rest: Seq<u8>| #[trigger] read_tail(
                    msg_type,
                    tag,
                    payload_size,
                    header@.source,
                    chunk@ + rest,
                ) == read_payload(header@, rest) by {
                    let input = chunk@ + rest;
                    assert(input.subrange(0, 8) == chunk@.subrange(0, 8));
                    assert(input.subrange(8, 16) == chunk@.subrange(8, 16));
                    assert(input.subrange(16, 24) == chunk@.subrange(16, 24));
                    assert(input.subrange(24, 32) == chunk@.subrange(24, 32));
                    assert(input.subrange(32, 40) == chunk@.subrange(32, 40));
                    assert(input.subrange(40, input.len() as int) == rest);
                }
                ReadStep::Next(ReadStage::Payload { header })
            },
            ReadStage::Payload { header } => {
                let payload = slice_to_vec(chunk);
                assert forall|rest: Seq<u8>| #[trigger] read_payload(header@, chunk@ + rest)
                    == (Reading::Message { header: header@, payload: chunk@, rest }) by {
                    let input = chunk@ + rest;
                    assert(input.subrange(0, header.payload_size as int) == chunk@);
                    assert(input.subrange(header.payload_size as int, input.len() as int) == rest);
                }
                ReadStep::Done(header, payload)
            },
        }
    }

    /// How many stages are left.
    pub open spec fn rank(self) -> nat {
        match self {
            ReadStage::Type => 4,
            ReadStage::Front { .. } => 3,
            ReadStage::Peer { .. } => 2,
            ReadStage::Rma { .. } => 1,
            ReadStage::Payload { .. } => 0,
        }
    }
}

/// Too few bytes for the next step of the reader: the stream ends inside the message.
pub proof fn short_stream_is_cut_off(stage: ReadStage, input: Seq<u8>)
    requires
        input.len() < stage.width(),
    ensures
        stage.resume(input) == Reading::Fails(ReadError::UnexpectedEof),
{
}

/// The value that an outcome of `read_message` stands for.
pub open spec fn reading_of(r: Result<(WireHeader, Vec<u8>, usize), ReadError>, input: Seq<u8>) -> Reading {
    match r {
        Ok((header, payload, used)) => Reading::Message {
            header: header@,
            payload: payload@,
            rest: input.subrange(used as int, input.len() as int),
        },
        Err(e) => Reading::Fails(e),
    }
}

/// Reads a complete message (header and payload) from the bytes that a stream still holds, and says
/// how many of them it took.
pub fn read_message(input: &[u8]) -> (r: Result<(WireHeader, Vec<u8>, usize), ReadError>)
    ensures
        reading_of(r, input@) == read_as(input@),
        r matches Ok(m) ==> m.2 <= input@.len(),
{
    let mut stage = ReadStage::Type;
    let mut pos: usize = 0;
    assert(input@.subrange(0, input@.len() as int) == input@);
    loop
        invariant
            pos <= input@.len(),
            stage.resume(input@.subrange(pos as int, input@.len() as int)) == read_as(input@),
        decreases stage.rank(),
    {
        let n = stage.needed();
        let ghost left = input@.subrange(pos as int, input@.len() as int);
        if input.len() - pos < n {
            proof {
                short_stream_is_cut_off(stage, left);
            }
            return Err(ReadError::UnexpectedEof);
        }
        let chunk = slice_subrange(input, pos, pos + n);
        let ghost rest = input@.subrange(pos + n, input@.len() as int);
        assert(left == chunk@ + rest);
        match stage.advance(chunk) {
            ReadStep::Next(next) => {
                stage = next;
                pos = pos + n;
            },
            ReadStep::Done(header, payload) => {
                return Ok((header, payload, pos + n));
            },
            ReadStep::Failed(e) => {
                return Err(e);
            },
        }
    }
}

/// A type and its byte stand for each other, and no other byte stands for a type.
pub proof fn law_type_codes(t: MessageType, v: u8)
    ensures
        type_of_code(t.code()) == Some(t),
        type_of_code(v) is Some <==> 1 <= v <= 5,
        type_of_code(v) is Some ==> (type_of_code(v)->0).code() == v,
{
}

proof fn front_parts(h: HeaderView, tail: Seq<u8>)
    requires
        h.source.len() < 0x1_0000,
    ensures
        front_bytes(h).len() == 11,
        ({
            let input = front_bytes(h) + tail;
            &&& input[0] == h.msg_type.code()
            &&& from_be(input.subrange(1, 5)) == h.tag
            &&& from_be(input.subrange(5, 9)) == h.payload_size
            &&& from_be(input.subrange(9, 11)) == h.source.len()
        }),
{
    broadcast use be_len;

    pow256_values();
    let input = front_bytes(h) + tail;
    assert(input.subrange(1, 5) == be(h.tag as nat, 4));
    assert(input.subrange(5, 9) == be(h.payload_size as nat, 4));
    assert(input.subrange(9, 11) == be(h.source.len(), 2));
    from_be_of_be(h.tag as nat, 4);
    from_be_of_be(h.payload_size as nat, 4);
    from_be_of_be(h.source.len(), 2);
}

proof fn rma_parts(h: HeaderView, tail: Seq<u8>)
    ensures
        rma_bytes(h).len() == 40,
        read_tail(h.msg_type, h.tag, h.payload_size, h.source, rma_bytes(h) + tail) == read_payload(
            h,
            tail,
        ),
{
    broadcast use be_len;

    pow256_values();
    let input = rma_bytes(h) + tail;
    assert(input.subrange(0, 8) == be(h.handle_id as nat, 8));
    assert(input.subrange(8, 16) == be(h.offset as nat, 8));
    assert(input.subrange(16, 24) == be(h.rma_length as nat, 8));
    assert(input.subrange(24, 32) == be(h.local_handle_id as nat, 8));
    assert(input.subrange(32, 40) == be(h.local_offset as nat, 8));
    assert(input.subrange(40, input.len() as int) == tail);
    from_be_of_be(h.handle_id as nat, 8);
    from_be_of_be(h.offset as nat, 8);
    from_be_of_be(h.rma_length as nat, 8);
    from_be_of_be(h.local_handle_id as nat, 8);
    from_be_of_be(h.local_offset as nat, 8);
}

/// A message that was written is read back, whatever follows it on the stream.
pub proof fn law_read_gives_back_write(h: HeaderView, payload: Seq<u8>, rest: Seq<u8>)
    requires
        valid_peer_id(h.source),
        payload.len() == h.payload_size,
    ensures
        read_as(wire_bytes(h, payload) + rest) == (Reading::Message { header: h, payload, rest }),
        wire_bytes(h, payload).len() == 51 + h.source.len() + payload.len(),
{
    let n = h.source.len() as int;
    let tail = rma_bytes(h) + (payload + rest);
    let input = wire_bytes(h, payload) + rest;
    assert(input == front_bytes(h) + (h.source + tail));
    front_parts(h, h.source + tail);
    rma_parts(h, payload + rest);
    assert(input.subrange(11, 11 + n) == h.source);
    assert(input.subrange(11 + n, input.len() as int) == tail);
    assert((payload + rest).subrange(0, h.payload_size as int) == payload);
    assert((payload + rest).subrange(h.payload_size as int, (payload + rest).len() as int) == rest);
}

/// A stream that ends inside a message holds no message there: the reader sees the end of the
/// stream, and no other error.
pub proof fn law_cut_message_is_eof(h: HeaderView, payload: Seq<u8>, k: int)
    requires
        valid_peer_id(h.source),
        payload.len() == h.payload_size,
        0 <= k < wire_bytes(h, payload).len(),
    ensures
        read_as(wire_bytes(h, payload).subrange(0, k)) == Reading::Fails(ReadError::UnexpectedEof),
{
    let n = h.source.len() as int;
    let full = wire_bytes(h, payload);
    let input = full.subrange(0, k);
    let tail = rma_bytes(h) + payload;
    assert(full == front_bytes(h) + (h.source + tail));
    front_parts(h, h.source + tail);
    rma_parts(h, payload);
    if k >= 11 {
        assert(input.subrange(5, 9) == full.subrange(5, 9));
        assert(input.subrange(9, 11) == full.subrange(9, 11));
        if k >= 11 + n {
            assert(input.subrange(11, 11 + n) == h.source);
        }
    }
}

/// Reading loses nothing: where the sender's identity stands in its canonical form, the bytes of
/// the stream are those of the message that was read, followed by the rest.
pub proof fn law_write_gives_back_read(input: Seq<u8>)
    requires
        read_as(input) is Message,
        valid_peer_id(input.subrange(11, 11 + from_be(input.subrange(9, 11)) as int)),
    ensures
        wire_bytes(read_as(input)->header, read_as(input)->payload) + read_as(input)->rest == input,
{
    pow256_values();
    let n = from_be(input.subrange(9, 11)) as int;
    let h = read_as(input)->header;
    let tail = input.subrange(11 + n, input.len() as int);
    let more = tail.subrange(40, tail.len() as int);
    be_of_from_be(input.subrange(1, 5));
    be_of_from_be(input.subrange(5, 9));
    be_of_from_be(input.subrange(9, 11));
    from_be_bound(input.subrange(1, 5));
    from_be_bound(input.subrange(5, 9));
    from_be_bound(input.subrange(9, 11));
    assert(h.source == input.subrange(11, 11 + n));
    assert(front_bytes(h) == input.subrange(0, 11));
    rma_bytes_of_read(tail);
    assert(rma_bytes(h) == tail.subrange(0, 40));
    assert(read_as(input)->payload + read_as(input)->rest == more);
    assert(wire_bytes(h, read_as(input)->payload) + read_as(input)->rest == input.subrange(0, 11)
        + input.subrange(11, 11 + n) + tail.subrange(0, 40) + more);
    assert(input == input.subrange(0, 11) + input.subrange(11, 11 + n) + tail.subrange(0, 40) + more);
}

proof fn rma_bytes_of_read(tail: Seq<u8>)
    requires
        tail.len() >= 40,
    ensures
        be(from_be(tail.subrange(0, 8)) as u64 as nat, 8) + be(
            from_be(tail.subrange(8, 16)) as u64 as nat,
            8,
        ) + be(from_be(tail.subrange(16, 24)) as u64 as nat, 8) + be(
            from_be(tail.subrange(24, 32)) as u64 as nat,
            8,
        ) + be(from_be(tail.subrange(32, 40)) as u64 as nat, 8) == tail.subrange(0, 40),
{
    pow256_values();
    be_of_from_be(tail.subrange(0, 8));
    be_of_from_be(tail.subrange(8, 16));
    be_of_from_be(tail.subrange(16, 24));
    be_of_from_be(tail.subrange(24, 32));
    be_of_from_be(tail.subrange(32, 40));
    from_be_bound(tail.subrange(0, 8));
    from_be_bound(tail.subrange(8, 16));
    from_be_bound(tail.subrange(16, 24));
    from_be_bound(tail.subrange(24, 32));
    from_be_bound(tail.subrange(32, 40));
    assert(tail.subrange(0, 8) + tail.subrange(8, 16) + tail.subrange(16, 24) + tail.subrange(24, 32)
        + tail.subrange(32, 40) == tail.subrange(0, 40));
}

/// A message: its header and its payload.
pub struct MessageView {
    pub header: HeaderView,
    pub payload: Seq<u8>,
}

/// The messages of a stream, in order, up to the first place where none can be read.
pub open spec fn messages_in(input: Seq<u8>) -> Seq<MessageView>
    decreases input.len(),
{
    match read_as(input) {
        Reading::Message { header, payload, rest } => if rest.len() < input.len() {
            seq![MessageView { header, payload }] + messages_in(rest)
        } else {
            Seq::empty()
        },
        Reading::Fails(_) => Seq::empty(),
    }
}

/// The bytes of messages sent back to back.
pub open spec fn back_to_back(messages: Seq<MessageView>) -> Seq<u8>
    decreases messages.len(),
{
    if messages.len() == 0 {
        Seq::empty()
    } else {
        wire_bytes(messages[0].header, messages[0].payload) + back_to_back(messages.drop_first())
    }
}

/// Messages sent back to back on one stream are read back one by one, in order, without any
/// delimiter between them.
pub proof fn law_back_to_back(messages: Seq<MessageView>)
    requires
        forall|i: int|
            0 <= i < messages.len() ==> valid_peer_id((#[trigger] messages[i]).header.source)
                && messages[i].payload.len() == messages[i].header.payload_size,
    ensures
        messages_in(back_to_back(messages)) == messages,
    decreases messages.len(),
{
    if messages.len() > 0 {
        let first = messages[0];
        let rest = back_to_back(messages.drop_first());
        law_read_gives_back_write(first.header, first.payload, rest);
        law_back_to_back(messages.drop_first());
        assert(messages == seq![first] + messages.drop_first());
    }
}

} // verus!
