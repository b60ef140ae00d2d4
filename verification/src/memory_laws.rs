//! What memory handles stand for, and which bytes a transfer moves.

use crate::be::{be, be_len};
use crate::fields::{fitting, flat, stored};
use crate::mem::{
    contents_at, freed, get_response, mem_handle_bytes, mem_handle_bytes_parts, mem_handle_fields,
    mem_handle_of_bytes, overwritten, owner_of, place_of, put_data, read_done, registered, reply_to,
    room_at, write_at, MemHandleEntry, MemHandleView, RegistryView,
};
use crate::peer::peer_id_of_bytes;
use crate::protocol::{HeaderView, MessageType};
use crate::queues::RmaOp;
use crate::status::NaReturn;
use crate::wire_laws::{number2, number8, number_at};
use vstd::prelude::*;

verus! {

/// Memory that was registered is found under the number of its handle, with the start, the size and
/// the flags that it was registered with. Under every other number stands what stood there.
pub proof fn law_registered_is_found(r: RegistryView, entry: MemHandleEntry, other: u64)
    ensures
        ({
            let (after, id) = registered(r, entry);
            let found = place_of(after, id);
            &&& id == r.next
            &&& found is Some
            &&& (found->0).buf == entry.buf
            &&& (found->0).buf_size == entry.buf_size
            &&& (found->0).flags == entry.flags
            &&& other != id ==> place_of(after, other) == place_of(r, other)
            &&& r.next < u64::MAX ==> after.next == r.next + 1
            &&& r.next == u64::MAX ==> after.next == 0
        }),
{
}

/// A local handle that was freed is found no more; every other number stands for what it stood for. A
/// handle of another peer's memory takes nothing away. The numbers go on from where they were.
pub proof fn law_free_takes_one_handle(r: RegistryView, h: MemHandleView, other: u64)
    ensures
        h.owner is None ==> place_of(freed(r, h), h.handle_id) is None,
        other != h.handle_id ==> place_of(freed(r, h), other) == place_of(r, other),
        h.owner is Some ==> place_of(freed(r, h), other) == place_of(r, other),
        freed(r, h).next == r.next,
{
}

/// A number is found in the registry exactly if it stands there.
pub proof fn law_place_is_in_the_registry(r: RegistryView, id: u64)
    ensures
        place_of(r, id) is Some <==> r.handles.contains_key(id),
        place_of(r, id) matches Some(e) ==> r.handles[id] == e,
{
}

/// The memory belongs to the peer that the handle names, or else to the given one.
pub proof fn law_owner(h: MemHandleView, fallback: Seq<u8>)
    ensures
        h.owner is Some ==> owner_of(h, fallback) == h.owner->0,
        h.owner is None ==> owner_of(h, fallback) == fallback,
{
}

/// A serialized handle holds, one after the other, its number, the size of the memory, the flags,
/// the length of the owner's identity in two bytes, and that identity byte by byte.
pub proof fn law_serialized_handle_layout(h: MemHandleView, self_peer: Seq<u8>)
    ensures
        ({
            let b = mem_handle_bytes(h, self_peer);
            let owner = if h.owner is Some {
                h.owner->0
            } else {
                self_peer
            };
            &&& b.len() == 26 + owner.len()
            &&& number8(b, 0) == h.handle_id
            &&& number8(b, 8) == h.buf_size
            &&& number8(b, 16) == h.flags
            &&& number2(b, 24) == owner.len() % 0x1_0000
            &&& forall|i: int| 0 <= i < owner.len() ==> b[26 + i] == #[trigger] owner[i]
        }),
{
    broadcast use be_len;

    mem_handle_bytes_parts(h, self_peer);
    let b = mem_handle_bytes(h, self_peer);
    assert(b.subrange(0, 8) == be(h.handle_id as nat, 8));
    assert(b.subrange(8, 16) == be(h.buf_size as nat, 8));
    assert(b.subrange(16, 24) == be(h.flags as nat, 8));
    assert(b.subrange(24, 26) == be(owner_of(h, self_peer).len(), 2));
    number_at(b, 0, h.handle_id as nat);
    number_at(b, 8, h.buf_size as nat);
    number_at(b, 16, h.flags as nat);
    number_at(b, 24, owner_of(h, self_peer).len());
}

/// In a buffer that is too small for a serialized handle its first fields stand, as many as fit
/// whole: none, the number, the size too, the flags too, or all but the identity.
pub proof fn law_cut_handle(h: MemHandleView, self_peer: Seq<u8>, room: nat)
    ensures
        ({
            let all = mem_handle_bytes(h, self_peer);
            let part = stored(mem_handle_fields(h, self_peer), room);
            &&& part.len() <= room
            &&& room < 8 ==> part == all.take(0)
            &&& 8 <= room < 16 ==> part == all.take(8)
            &&& 16 <= room < 24 ==> part == all.take(16)
            &&& 24 <= room < 26 ==> part == all.take(24)
            &&& 26 <= room < all.len() ==> part == all.take(26)
            &&& all.len() <= room ==> part == all
        }),
{
    broadcast use be_len;

    mem_handle_bytes_parts(h, self_peer);
    let f = mem_handle_fields(h, self_peer);
    let f4 = f.drop_last();
    let f3 = f4.drop_last();
    let f2 = f3.drop_last();
    let f1 = f2.drop_last();
    reveal_with_fuel(flat, 6);
    reveal_with_fuel(fitting, 6);
    assert(f1.drop_last() == Seq::<Seq<u8>>::empty());
    assert(flat(f1).len() == 8 && flat(f2).len() == 16 && flat(f3).len() == 24 && flat(f4).len()
        == 26);
    let all = flat(f);
    assert(f.subrange(0, 0) == Seq::<Seq<u8>>::empty());
    assert(f.subrange(0, 1) == f1);
    assert(f.subrange(0, 2) == f2);
    assert(f.subrange(0, 3) == f3);
    assert(f.subrange(0, 4) == f4);
    assert(f.subrange(0, 5) == f);
    assert(all.take(0) == Seq::<u8>::empty());
    assert(all.take(8) == flat(f1));
    assert(all.take(16) == flat(f2));
    assert(all.take(24) == flat(f3));
    assert(all.take(26) == flat(f4));
}

/// Bytes are read as a handle exactly where they hold the fixed fields and as many bytes of an
/// identity as they tell of, and that is one. The handle has the numbers that stand there; the memory
/// is that of the named peer.
pub proof fn law_handle_read_from_bytes(data: Seq<u8>)
    ensures
        mem_handle_of_bytes(data) is Some <==> {
            let n = number2(data, 24) as int;
            &&& data.len() >= 26
            &&& data.len() >= 26 + n
            &&& peer_id_of_bytes(data.subrange(26, 26 + n)) is Some
        },
        mem_handle_of_bytes(data) matches Some(h) ==> {
            let n = number2(data, 24) as int;
            &&& h.handle_id == number8(data, 0)
            &&& number8(data, 8) <= usize::MAX ==> h.buf_size == number8(data, 8)
            &&& h.flags == number8(data, 16)
            &&& h.owner == peer_id_of_bytes(data.subrange(26, 26 + n))
            &&& h.buf == 0
        },
{
    if data.len() >= 26 {
        number_at(data, 0, 0);
        number_at(data, 8, 0);
        number_at(data, 16, 0);
        number_at(data, 24, 0);
    }
}

/// Memory that was written to holds the data, byte by byte, from the named place on, as far as it
/// reaches; every other byte is as it was.
pub proof fn law_written_byte_by_byte(mem: Seq<u8>, at: int, data: Seq<u8>)
    requires
        0 <= at,
    ensures
        overwritten(mem, at, data).len() == mem.len(),
        forall|i: int|
            0 <= i < mem.len() && at <= i < at + data.len() ==> #[trigger] overwritten(mem, at, data)[i]
                == data[i - at],
        forall|i: int|
            0 <= i < mem.len() && !(at <= i < at + data.len()) ==> #[trigger] overwritten(
                mem,
                at,
                data,
            )[i] == mem[i],
{
}

/// What is read from memory are its bytes from the named place on, as many as were asked for, or as
/// many as there are.
pub proof fn law_read_byte_by_byte(mem: Seq<u8>, at: int, len: nat)
    requires
        0 <= at,
    ensures
        at >= mem.len() ==> contents_at(mem, at, len).len() == 0,
        at + len <= mem.len() ==> contents_at(mem, at, len).len() == len,
        at < mem.len() < at + len ==> contents_at(mem, at, len).len() == mem.len() - at,
        forall|i: int|
            0 <= i < contents_at(mem, at, len).len() ==> #[trigger] contents_at(mem, at, len)[i]
                == mem[at + i],
{
}

/// As much as there is memory from `at` on, and no more than is asked for.
pub proof fn law_room(size: nat, at: int, len: nat)
    requires
        0 <= at,
    ensures
        room_at(size, at, len) <= len,
        room_at(size, at, len) > 0 ==> at + room_at(size, at, len) <= size,
        room_at(size, at, len) < len ==> at + room_at(size, at, len) == size || at >= size,
        at >= size ==> room_at(size, at, len) == 0,
{
}

/// A write to remote memory takes exactly `length` bytes of the local memory, from the local offset
/// on. Where there is no memory, or nothing to write, it takes none.
pub proof fn law_put_takes_the_local_bytes(local_mem: Option<Seq<u8>>, local_offset: u64, length: usize)
    requires
        length > 0 && local_mem is Some ==> local_offset + length <= (local_mem->0).len(),
    ensures
        local_mem matches Some(m) ==> {
            &&& put_data(local_mem, local_offset, length).len() == length
            &&& forall|i: int|
                0 <= i < length ==> #[trigger] put_data(local_mem, local_offset, length)[i]
                    == m[local_offset + i]
        },
        local_mem is None ==> put_data(local_mem, local_offset, length).len() == 0,
{
}

/// The answer to a request for memory brings the bytes from the offset that was asked for on, and
/// tells how many they are. It repeats the handle and the offset of the request, and the place at the
/// peer that asked; its sender is this end.
pub proof fn law_get_response_fields(mem: Seq<u8>, h: HeaderView, self_peer: Seq<u8>)
    requires
        mem.len() <= usize::MAX,
        h.offset <= usize::MAX,
        h.rma_length <= usize::MAX,
    ensures
        ({
            let (r, data) = get_response(mem, h, self_peer);
            &&& r.msg_type == MessageType::RmaGetResp
            &&& r.tag == 0
            &&& r.source == self_peer
            &&& r.handle_id == h.handle_id
            &&& r.offset == h.offset
            &&& r.local_handle_id == h.local_handle_id
            &&& r.local_offset == h.local_offset
            &&& r.rma_length == data.len()
            &&& data.len() <= u32::MAX ==> r.payload_size == data.len()
            &&& h.offset >= mem.len() ==> data.len() == 0
            &&& h.offset + h.rma_length <= mem.len() ==> data.len() == h.rma_length
            &&& h.offset < mem.len() < h.offset + h.rma_length ==> data.len() == mem.len() - h.offset
            &&& forall|i: int| 0 <= i < data.len() ==> #[trigger] data[i] == mem[h.offset + i]
        }),
{
}

/// A request is answered exactly if the memory that it names is registered. The answer goes to the
/// peer that asked.
pub proof fn law_request_is_answered(
    registry: RegistryView,
    mem: Seq<u8>,
    h: HeaderView,
    self_peer: Seq<u8>,
)
    ensures
        reply_to(registry, mem, h, self_peer) is Some <==> registry.handles.contains_key(h.handle_id),
        reply_to(registry, mem, h, self_peer) matches Some(r) ==> {
            &&& r.to == h.source
            &&& (r.header, r.data) == get_response(mem, h, self_peer)
        },
{
}

/// The data of an answer goes whole to the place that it names, if the memory is still registered.
/// The read that it finishes, and no other, is reported as a success.
pub proof fn law_answer_is_written(
    registry: RegistryView,
    handle_id: u64,
    offset: u64,
    data: Seq<u8>,
    op: RmaOp,
)
    ensures
        write_at(registry, handle_id, offset, data) is Some <==> registry.handles.contains_key(
            handle_id,
        ),
        write_at(registry, handle_id, offset, data) matches Some(w) ==> {
            &&& w.entry == registry.handles[handle_id]
            &&& w.offset == offset
            &&& w.data == data
        },
        read_done(Some(op)) matches Some(r) && r.op_ptr == op.op_ptr && r.result == NaReturn::Success
            && r.recv_info is None,
        read_done(None) is None,
{
}

} // verus!
