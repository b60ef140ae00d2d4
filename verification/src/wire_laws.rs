//! Where each field stands on the wire, in which byte order, and what a reader makes of it.

use crate::be::{be, be_len, from_be, from_be_bound, from_be_of_be, pow256_values};
use crate::peer::peer_id_of_bytes;
use crate::protocol::{
    front_bytes, read_as, rma_bytes, type_of_code, wire_bytes, HeaderView, MessageType, ReadError,
    ReadStage, Reading,
};
use vstd::prelude::*;

verus! {

/// The two bytes at `at`, the first one counting most.
pub open spec fn number2(s: Seq<u8>, at: int) -> nat {
    (s[at] * 0x100 + s[at + 1]) as nat
}

/// The four bytes at `at`, the first one counting most.
pub open spec fn number4(s: Seq<u8>, at: int) -> nat {
    (s[at] * 0x100_0000 + s[at + 1] * 0x1_0000 + s[at + 2] * 0x100 + s[at + 3]) as nat
}

/// The eight bytes at `at`, the first one counting most.
pub open spec fn number8(s: Seq<u8>, at: int) -> nat {
    (s[at] * 0x100_0000_0000_0000 + s[at + 1] * 0x1_0000_0000_0000 + s[at + 2] * 0x100_0000_0000 + s[at
        + 3] * 0x1_0000_0000 + s[at + 4] * 0x100_0000 + s[at + 5] * 0x1_0000 + s[at + 6] * 0x100
        + s[at + 7]) as nat
}

/// A byte string stands for the sum of its bytes, each with its weight.
pub proof fn law_bytes_have_weights(s: Seq<u8>)
    ensures
        s.len() == 2 ==> from_be(s) == number2(s, 0),
        s.len() == 4 ==> from_be(s) == number4(s, 0),
        s.len() == 8 ==> from_be(s) == number8(s, 0),
{
    reveal_with_fuel(from_be, 9);
}

/// The bytes that a number is written in stand for that number when each has its weight. Of a number
/// that does not fit in two bytes its low ones are written.
pub proof fn law_number_is_its_bytes(x: nat)
    ensures
        be(x, 2).len() == 2,
        be(x, 4).len() == 4,
        be(x, 8).len() == 8,
        number2(be(x, 2), 0) == x % 0x1_0000,
        x < 0x1_0000_0000 ==> number4(be(x, 4), 0) == x,
        x < 0x1_0000_0000_0000_0000 ==> number8(be(x, 8), 0) == x,
{
    broadcast use be_len;

    pow256_values();
    law_bytes_have_weights(be(x, 2));
    law_bytes_have_weights(be(x, 4));
    law_bytes_have_weights(be(x, 8));
    reveal_with_fuel(be, 3);
    let low = x % 0x1_0000;
    assert(be(x, 2) == be(low, 2));
    from_be_of_be(low, 2);
    if x < 0x1_0000_0000 {
        from_be_of_be(x, 4);
    }
    if x < 0x1_0000_0000_0000_0000 {
        from_be_of_be(x, 8);
    }
}

/// Where a part of a byte string is the form of a number, the number stands there.
pub proof fn number_at(s: Seq<u8>, at: int, x: nat)
    requires
        0 <= at,
    ensures
        at + 2 <= s.len() && s.subrange(at, at + 2) == be(x, 2) ==> number2(s, at) == x % 0x1_0000,
        at + 4 <= s.len() && s.subrange(at, at + 4) == be(x, 4) && x < 0x1_0000_0000 ==> number4(s, at)
            == x,
        at + 8 <= s.len() && s.subrange(at, at + 8) == be(x, 8) && x < 0x1_0000_0000_0000_0000
            ==> number8(s, at) == x,
        at + 2 <= s.len() ==> from_be(s.subrange(at, at + 2)) == number2(s, at),
        at + 4 <= s.len() ==> from_be(s.subrange(at, at + 4)) == number4(s, at),
        at + 8 <= s.len() ==> from_be(s.subrange(at, at + 8)) == number8(s, at),
        at + 2 <= s.len() ==> number2(s, at) < 0x1_0000,
        at + 4 <= s.len() ==> number4(s, at) < 0x1_0000_0000,
        at + 8 <= s.len() ==> number8(s, at) < 0x1_0000_0000_0000_0000,
{
    law_number_is_its_bytes(x);
    pow256_values();
    if at + 2 <= s.len() {
        law_bytes_have_weights(s.subrange(at, at + 2));
        from_be_bound(s.subrange(at, at + 2));
    }
    if at + 4 <= s.len() {
        law_bytes_have_weights(s.subrange(at, at + 4));
        from_be_bound(s.subrange(at, at + 4));
    }
    if at + 8 <= s.len() {
        law_bytes_have_weights(s.subrange(at, at + 8));
        from_be_bound(s.subrange(at, at + 8));
    }
}

/// The byte of each message type.
pub proof fn law_type_bytes()
    ensures
        MessageType::Unexpected.code() == 1,
        MessageType::Expected.code() == 2,
        MessageType::RmaPut.code() == 3,
        MessageType::RmaGetReq.code() == 4,
        MessageType::RmaGetResp.code() == 5,
        forall|t: MessageType, v: u8| #[trigger] t.code() == v <==> #[trigger] type_of_code(v) == Some(t),
{
}

/// Every field of a message stands at its place: the type, the tag, the size of the payload, the
/// length of the sender's identity, the identity byte by byte, the five numbers for remote memory, and
/// the payload byte by byte; nothing else is sent. (A length is counted in two bytes.)
pub proof fn law_wire_layout(h: HeaderView, payload: Seq<u8>)
    ensures
        ({
            let w = wire_bytes(h, payload);
            let n = h.source.len() as int;
            &&& w.len() == 51 + n + payload.len()
            &&& w[0] == h.msg_type.code()
            &&& number4(w, 1) == h.tag
            &&& number4(w, 5) == h.payload_size
            &&& number2(w, 9) == n % 0x1_0000
            &&& forall|i: int| 0 <= i < n ==> w[11 + i] == #[trigger] h.source[i]
            &&& number8(w, 11 + n) == h.handle_id
            &&& number8(w, 19 + n) == h.offset
            &&& number8(w, 27 + n) == h.rma_length
            &&& number8(w, 35 + n) == h.local_handle_id
            &&& number8(w, 43 + n) == h.local_offset
            &&& forall|i: int| 0 <= i < payload.len() ==> w[51 + n + i] == #[trigger] payload[i]
        }),
{
    broadcast use be_len;

    let w = wire_bytes(h, payload);
    let n = h.source.len() as int;
    assert(front_bytes(h).len() == 11);
    assert(rma_bytes(h).len() == 40);
    assert(w.subrange(1, 5) == be(h.tag as nat, 4));
    assert(w.subrange(5, 9) == be(h.payload_size as nat, 4));
    assert(w.subrange(9, 11) == be(h.source.len(), 2));
    assert(w.subrange(11 + n, 19 + n) == be(h.handle_id as nat, 8));
    assert(w.subrange(19 + n, 27 + n) == be(h.offset as nat, 8));
    assert(w.subrange(27 + n, 35 + n) == be(h.rma_length as nat, 8));
    assert(w.subrange(35 + n, 43 + n) == be(h.local_handle_id as nat, 8));
    assert(w.subrange(43 + n, 51 + n) == be(h.local_offset as nat, 8));
    number_at(w, 1, h.tag as nat);
    number_at(w, 5, h.payload_size as nat);
    number_at(w, 9, h.source.len());
    number_at(w, 11 + n, h.handle_id as nat);
    number_at(w, 19 + n, h.offset as nat);
    number_at(w, 27 + n, h.rma_length as nat);
    number_at(w, 35 + n, h.local_handle_id as nat);
    number_at(w, 43 + n, h.local_offset as nat);
}

/// A message is read from a stream exactly where the type byte is one of the five, the identity is
/// one, and the stream holds the whole of it. Each field of what is read is the number that stands at
/// its place; the payload has the size that the header tells; what is left is the rest of the stream.
pub proof fn law_read_layout(s: Seq<u8>)
    ensures
        read_as(s) is Message <==> {
            let n = number2(s, 9) as int;
            &&& s.len() >= 11
            &&& 1 <= s[0] <= 5
            &&& s.len() >= 51 + n + number4(s, 5)
            &&& peer_id_of_bytes(s.subrange(11, 11 + n)) is Some
        },
        read_as(s) matches Reading::Message { header, payload, rest } ==> {
            let n = number2(s, 9) as int;
            &&& header.msg_type.code() == s[0]
            &&& header.tag == number4(s, 1)
            &&& header.payload_size == number4(s, 5)
            &&& Some(header.source) == peer_id_of_bytes(s.subrange(11, 11 + n))
            &&& header.handle_id == number8(s, 11 + n)
            &&& header.offset == number8(s, 19 + n)
            &&& header.rma_length == number8(s, 27 + n)
            &&& header.local_handle_id == number8(s, 35 + n)
            &&& header.local_offset == number8(s, 43 + n)
            &&& payload.len() == header.payload_size
            &&& rest.len() == s.len() - 51 - n - payload.len()
            &&& forall|i: int| 0 <= i < payload.len() ==> #[trigger] payload[i] == s[51 + n + i]
            &&& forall|i: int|
                0 <= i < rest.len() ==> #[trigger] rest[i] == s[51 + n + payload.len() + i]
        },
{
    if s.len() >= 11 {
        number_at(s, 1, 0);
        number_at(s, 5, 0);
        number_at(s, 9, 0);
        let n = number2(s, 9) as int;
        if s.len() >= 51 + n {
            let tail = s.subrange(11 + n, s.len() as int);
            assert(tail.subrange(0, 8) == s.subrange(11 + n, 19 + n));
            assert(tail.subrange(8, 16) == s.subrange(19 + n, 27 + n));
            assert(tail.subrange(16, 24) == s.subrange(27 + n, 35 + n));
            assert(tail.subrange(24, 32) == s.subrange(35 + n, 43 + n));
            assert(tail.subrange(32, 40) == s.subrange(43 + n, 51 + n));
            number_at(s, 11 + n, 0);
            number_at(s, 19 + n, 0);
            number_at(s, 27 + n, 0);
            number_at(s, 35 + n, 0);
            number_at(s, 43 + n, 0);
        }
    }
}

/// A first byte that stands for no type is found at once; an identity that is none, as soon as it is
/// there; in every other case in which no message is read, the stream has ended.
pub proof fn law_read_failures(s: Seq<u8>)
    ensures
        read_as(s) == Reading::Fails(ReadError::BadMessageType) <==> s.len() >= 1 && !(1 <= s[0] <= 5),
        read_as(s) == Reading::Fails(ReadError::BadPeerId) <==> {
            let n = number2(s, 9) as int;
            &&& s.len() >= 11
            &&& 1 <= s[0] <= 5
            &&& s.len() >= 11 + n
            &&& peer_id_of_bytes(s.subrange(11, 11 + n)) is None
        },
{
    if s.len() >= 11 {
        number_at(s, 9, 0);
    }
}

/// How many bytes the reader takes at each stage, and what it makes of the rest of the stream there: at
/// the start what the stream reads as, and behind the type byte what the stream with that byte reads
/// as.
pub proof fn law_stages(stage: ReadStage, input: Seq<u8>)
    ensures
        stage is Type ==> stage.width() == 1 && stage.resume(input) == read_as(input),
        stage matches ReadStage::Front { msg_type } ==> {
            &&& stage.width() == 10
            &&& stage.resume(input) == read_as(seq![msg_type.code()] + input)
        },
        stage matches ReadStage::Peer { peer_id_len, .. } ==> stage.width() == peer_id_len,
        stage is Rma ==> stage.width() == 40,
        stage matches ReadStage::Payload { header } ==> stage.width() == header.payload_size,
{
}

} // verus!
