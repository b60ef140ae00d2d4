//! Memory that peers may read and write: handles, their registry, and the transfers.

use crate::addr::NaLibp2pAddr;
use crate::be::{be, be_len, from_be, from_be_of_be, get_be, pow256_values, put_be};
use crate::command::{Command, CommandView, CompletionItem, CompletionView};
use crate::fields::{all_fit, byte_views, flat, stored, write_fields};
use crate::peer::{peer_id_of_bytes, peer_view, valid_peer_id, PeerId};
use crate::protocol::{HeaderView, MessageType, WireHeader};
use crate::queues::{answered, post_read, OperationQueues, RmaOp};
use crate::status::NaReturn;
use std::collections::HashMap;
use vstd::prelude::*;
use vstd::slice::{slice_subrange, slice_to_vec};

verus! {

broadcast use vstd::std_specs::hash::group_hash_axioms;

/// A handle for memory, here or at another peer.
#[derive(Debug, PartialEq, Eq)]
pub struct NaLibp2pMemHandle {
    /// Where the memory starts; zero for memory of another peer.
    pub buf: usize,
    pub buf_size: usize,
    pub handle_id: u64,
    pub flags: u64,
    /// The peer to which the memory belongs, unless it is local.
    pub owner_peer_id: Option<PeerId>,
}

/// A handle for memory, as a mathematical value.
pub struct MemHandleView {
    pub buf: usize,
    pub buf_size: usize,
    pub handle_id: u64,
    pub flags: u64,
    pub owner: Option<Seq<u8>>,
}

impl View for NaLibp2pMemHandle {
    type V = MemHandleView;

    open spec fn view(&self) -> MemHandleView {
        MemHandleView {
            buf: self.buf,
            buf_size: self.buf_size,
            handle_id: self.handle_id,
            flags: self.flags,
            owner: peer_view(self.owner_peer_id),
        }
    }
}

/// Local memory that is registered.
#[derive(Debug, Clone, Copy, PartialEq, Eq, Structural)]
pub struct MemHandleEntry {
    /// Where the memory starts.
    pub buf: usize,
    pub buf_size: usize,
    pub flags: u64,
}

/// The local memory that is registered, and the number that the next handle gets.
#[derive(Debug)]
pub struct MemRegistry {
    pub handles: HashMap<u64, MemHandleEntry>,
    pub next_handle_id: u64,
}

/// The registry, as a mathematical value.
#[verifier::ext_equal]
pub struct RegistryView {
    pub handles: Map<u64, MemHandleEntry>,
    pub next: u64,
}

impl View for MemRegistry {
    type V = RegistryView;

    open spec fn view(&self) -> RegistryView {
        RegistryView { handles: self.handles@, next: self.next_handle_id }
    }
}

/// The memory behind a number, if it is registered.
pub open spec fn place_of(r: RegistryView, handle_id: u64) -> Option<MemHandleEntry> {
    if r.handles.dom().contains(handle_id) {
        Some(r.handles[handle_id])
    } else {
        None
    }
}

/// The registry after memory was registered, and the number of its handle. Numbers are counted up;
/// after the largest comes zero.
pub open spec fn registered(r: RegistryView, entry: MemHandleEntry) -> (RegistryView, u64) {
    (
        RegistryView {
            handles: r.handles.insert(r.next, entry),
            next: if r.next == u64::MAX {
                0
            } else {
                (r.next + 1) as u64
            },
        },
        r.next,
    )
}

/// The registry after a handle was freed. Only a local handle is in it.
pub open spec fn freed(r: RegistryView, h: MemHandleView) -> RegistryView {
    if h.owner is None {
        RegistryView { handles: r.handles.remove(h.handle_id), ..r }
    } else {
        r
    }
}

impl MemRegistry {
    /// Nothing is registered; the first handle gets the number one.
    pub fn new() -> (r: Self)
        ensures
            r@ == (RegistryView { handles: Map::empty(), next: 1 }),
    {
        let r = MemRegistry { handles: HashMap::new(), next_handle_id: 1 };
        assert(r@ =~= (RegistryView { handles: Map::empty(), next: 1 }));
        r
    }

    /// Registers local memory and makes a handle for it.
    pub fn mem_handle_create(&mut self, buf: usize, buf_size: usize, flags: u64) -> (r:
        NaLibp2pMemHandle)
        ensures
            (final(self)@, r@.handle_id) == registered(
                old(self)@,
                (MemHandleEntry { buf, buf_size, flags }),
            ),
            r@ == (MemHandleView { buf, buf_size, handle_id: r@.handle_id, flags, owner: None }),
    {
        let ghost before = self@;
        let handle_id = self.next_handle_id;
        self.next_handle_id = if handle_id == u64::MAX {
            0
        } else {
            handle_id + 1
        };
        let entry = MemHandleEntry { buf, buf_size, flags };
        self.handles.insert(handle_id, entry);
        assert(self@ =~= registered(before, entry).0);
        NaLibp2pMemHandle { buf, buf_size, handle_id, flags, owner_peer_id: None }
    }

    /// Frees a handle.
    pub fn mem_handle_free(&mut self, handle: NaLibp2pMemHandle)
        ensures
            final(self)@ == freed(old(self)@, handle@),
    {
        let ghost before = self@;
        if handle.owner_peer_id.is_none() {
            self.handles.remove(&handle.handle_id);
        }
        assert(self@ =~= freed(before, handle@));
    }

    /// The memory behind a number, if it is registered.
    pub fn get(&self, handle_id: u64) -> (r: Option<MemHandleEntry>)
        ensures
            r == place_of(self@, handle_id),
    {
        match self.handles.get(&handle_id) {
            Some(e) => Some(*e),
            None => None,
        }
    }
}

/// Every number in use was given out before.
pub open spec fn numbers_given_out(r: RegistryView) -> bool {
    &&& r.next > 0
    &&& forall|k: u64| #[trigger] r.handles.dom().contains(k) ==> 0 < k < r.next
}

/// Until the numbers are used up, no two registered pieces of memory have the same number, also if
/// handles are freed meanwhile, and registering one does not disturb the others.
pub proof fn law_handle_numbers_are_fresh(r: RegistryView, entry: MemHandleEntry, h: MemHandleView)
    requires
        numbers_given_out(r),
    ensures
        numbers_given_out(RegistryView { handles: Map::empty(), next: 1 }),
        !r.handles.dom().contains(registered(r, entry).1),
        r.next < u64::MAX ==> numbers_given_out(registered(r, entry).0),
        forall|k: u64| #[trigger]
            r.handles.dom().contains(k) ==> registered(r, entry).0.handles.dom().contains(k)
                && registered(r, entry).0.handles[k] == r.handles[k],
        numbers_given_out(freed(r, h)),
{
}

/// Memory that is registered and freed again leaves the registry as it was, but for the number that
/// was used up.
pub proof fn law_free_undoes_create(r: RegistryView, entry: MemHandleEntry)
    requires
        numbers_given_out(r),
    ensures
        ({
            let (after, id) = registered(r, entry);
            let h = MemHandleView {
                buf: entry.buf,
                buf_size: entry.buf_size,
                handle_id: id,
                flags: entry.flags,
                owner: None,
            };
            freed(after, h).handles == r.handles
        }),
{
    let (after, id) = registered(r, entry);
    assert(after.handles.remove(id) =~= r.handles);
}

// ---------------------------------------------------------------------------
//  Serialized handles
// ---------------------------------------------------------------------------

/// The peer to which the memory belongs.
pub open spec fn owner_of(h: MemHandleView, self_peer: Seq<u8>) -> Seq<u8> {
    match h.owner {
        Some(p) => p,
        None => self_peer,
    }
}

/// The fields of a serialized handle: its number, size and flags, and the identity of the owner
/// after its length in two bytes.
pub open spec fn mem_handle_fields(h: MemHandleView, self_peer: Seq<u8>) -> Seq<Seq<u8>> {
    let owner = owner_of(h, self_peer);
    seq![
        be(h.handle_id as nat, 8),
        be(h.buf_size as nat, 8),
        be(h.flags as nat, 8),
        be(owner.len(), 2),
        owner,
    ]
}

/// A serialized handle.
pub open spec fn mem_handle_bytes(h: MemHandleView, self_peer: Seq<u8>) -> Seq<u8> {
    flat(mem_handle_fields(h, self_peer))
}

/// The bytes of a serialized handle, field by field.
pub proof fn mem_handle_bytes_parts(h: MemHandleView, self_peer: Seq<u8>)
    ensures
        mem_handle_bytes(h, self_peer) == be(h.handle_id as nat, 8) + be(h.buf_size as nat, 8) + be(
            h.flags as nat,
            8,
        ) + be(owner_of(h, self_peer).len(), 2) + owner_of(h, self_peer),
        mem_handle_bytes(h, self_peer).len() == 26 + owner_of(h, self_peer).len(),
{
    broadcast use be_len;

    let f = mem_handle_fields(h, self_peer);
    let g4 = f.drop_last();
    let g3 = g4.drop_last();
    let g2 = g3.drop_last();
    let g1 = g2.drop_last();
    assert(g1.drop_last() == Seq::<Seq<u8>>::empty());
    reveal_with_fuel(flat, 6);
    assert(flat(g1) == f[0]);
    assert(flat(g2) == f[0] + f[1]);
    assert(flat(g3) == f[0] + f[1] + f[2]);
    assert(flat(g4) == f[0] + f[1] + f[2] + f[3]);
    assert(flat(f) == f[0] + f[1] + f[2] + f[3] + f[4]);
}

fn owner<'a>(handle: &'a NaLibp2pMemHandle, self_peer_id: &'a PeerId) -> (r: &'a PeerId)
    ensures
        r@ == owner_of(handle@, self_peer_id@),
{
    match &handle.owner_peer_id {
        Some(p) => p,
        None => self_peer_id,
    }
}

/// How many bytes a serialized handle takes; none where there is no handle.
pub fn mem_handle_get_serialize_size(
    handle: Option<&NaLibp2pMemHandle>,
    self_peer_id: &PeerId,
) -> (r: usize)
    ensures
        r == (match handle {
            Some(h) => mem_handle_bytes(h@, self_peer_id@).len(),
            None => 0,
        }),
{
    match handle {
        None => 0,
        Some(h) => {
            let peer = owner(h, self_peer_id).to_bytes();
            proof {
                mem_handle_bytes_parts(h@, self_peer_id@);
            }
            26 + peer.len()
        },
    }
}

fn number_field(x: u64, n: usize) -> (r: Vec<u8>)
    ensures
        r@ == be(x as nat, n as nat),
{
    let mut v: Vec<u8> = Vec::new();
    put_be(&mut v, x, n);
    assert(v@ == be(x as nat, n as nat));
    v
}

/// Serializes a handle for a buffer of the given size, if there is one. Where the buffer is too
/// small, the fields that fit are stored all the same.
pub fn mem_handle_serialize(
    handle: Option<&NaLibp2pMemHandle>,
    self_peer_id: &PeerId,
    buf_size: Option<usize>,
) -> (r: (NaReturn, Vec<u8>))
    ensures
        handle is None || buf_size is None ==> r.0 == NaReturn::InvalidArg && r.1@.len() == 0,
        handle is Some && buf_size is Some ==> {
            let h = (handle->0)@;
            let room = buf_size->0;
            let bytes = mem_handle_bytes(h, self_peer_id@);
            &&& r.0 == if bytes.len() <= room {
                NaReturn::Success
            } else {
                NaReturn::Overflow
            }
            &&& r.1@ == stored(mem_handle_fields(h, self_peer_id@), room as nat)
            &&& r.1@.len() <= room
            &&& bytes.len() <= room ==> r.1@ == bytes
        },
{
    match (handle, buf_size) {
        (Some(h), Some(room)) => {
            let peer = owner(h, self_peer_id).to_bytes();
            let ghost owner_bytes = peer@;
            let mut fields: Vec<Vec<u8>> = Vec::new();
            fields.push(number_field(h.handle_id, 8));
            fields.push(number_field(h.buf_size as u64, 8));
            fields.push(number_field(h.flags, 8));
            fields.push(number_field(peer.len() as u64, 2));
            fields.push(peer);
            assert(byte_views(fields@) == mem_handle_fields(h@, self_peer_id@));
            let (bytes, all) = write_fields(&fields, room);
            proof {
                all_fit(mem_handle_fields(h@, self_peer_id@), room as nat);
            }
            if all {
                (NaReturn::Success, bytes)
            } else {
                (NaReturn::Overflow, bytes)
            }
        },
        _ => (NaReturn::InvalidArg, Vec::new()),
    }
}

/// What bytes stand for as a serialized handle: memory of another peer.
pub open spec fn mem_handle_of_bytes(data: Seq<u8>) -> Option<MemHandleView> {
    let n = from_be(data.subrange(24, 26)) as int;
    if data.len() < 26 || data.len() < 26 + n {
        None
    } else {
        match peer_id_of_bytes(data.subrange(26, 26 + n)) {
            None => None,
            Some(owner) => Some(
                MemHandleView {
                    buf: 0,
                    buf_size: from_be(data.subrange(8, 16)) as u64 as usize,
                    handle_id: from_be(data.subrange(0, 8)) as u64,
                    flags: from_be(data.subrange(16, 24)) as u64,
                    owner: Some(owner),
                },
            ),
        }
    }
}

/// The value that an outcome of `mem_handle_deserialize` stands for.
pub open spec fn mem_outcome_view(r: Result<NaLibp2pMemHandle, NaReturn>) -> Result<
    MemHandleView,
    NaReturn,
> {
    match r {
        Ok(h) => Ok(h@),
        Err(e) => Err(e),
    }
}

/// Reads a serialized handle. `has_target` says whether there is a place for the result.
pub fn mem_handle_deserialize(buf: Option<&[u8]>, has_target: bool) -> (r: Result<
    NaLibp2pMemHandle,
    NaReturn,
>)
    ensures
        mem_outcome_view(r) == (if buf is None || !has_target || (buf->0)@.len() < 26 {
            Err::<MemHandleView, NaReturn>(NaReturn::InvalidArg)
        } else {
            match mem_handle_of_bytes((buf->0)@) {
                Some(h) => Ok(h),
                None => Err(NaReturn::ProtocolError),
            }
        }),
{
    let data = match buf {
        Some(b) => b,
        None => {
            return Err(NaReturn::InvalidArg);
        },
    };
    let size: usize = data.len();
    if !has_target || size < 26 {
        return Err(NaReturn::InvalidArg);
    }
    proof {
        pow256_values();
    }
    let handle_id = get_be(data, 0, 8);
    let buf_size = get_be(data, 8, 8) as usize;
    let flags = get_be(data, 16, 8);
    let n: usize = get_be(data, 24, 2) as usize;
    if n > size - 26 {
        return Err(NaReturn::ProtocolError);
    }
    match PeerId::from_bytes(slice_subrange(data, 26, 26 + n)) {
        Some(p) => Ok(
            NaLibp2pMemHandle { buf: 0, buf_size, handle_id, flags, owner_peer_id: Some(p) },
        ),
        None => Err(NaReturn::ProtocolError),
    }
}

/// A serialized handle is read back as a handle for the same memory of the same owner, whatever
/// follows it in the buffer; only the place of the memory stays behind.
pub proof fn law_mem_handle_round_trip(h: MemHandleView, self_peer: Seq<u8>, rest: Seq<u8>)
    requires
        valid_peer_id(owner_of(h, self_peer)),
    ensures
        mem_handle_of_bytes(mem_handle_bytes(h, self_peer) + rest) == Some(
            MemHandleView { buf: 0, owner: Some(owner_of(h, self_peer)), ..h },
        ),
        mem_handle_bytes(h, self_peer).len() >= 26,
{
    broadcast use be_len;

    pow256_values();
    mem_handle_bytes_parts(h, self_peer);
    let owner = owner_of(h, self_peer);
    let data = mem_handle_bytes(h, self_peer) + rest;
    assert(data.subrange(0, 8) == be(h.handle_id as nat, 8));
    assert(data.subrange(8, 16) == be(h.buf_size as nat, 8));
    assert(data.subrange(16, 24) == be(h.flags as nat, 8));
    assert(data.subrange(24, 26) == be(owner.len(), 2));
    assert(data.subrange(26, 26 + owner.len() as int) == owner);
    from_be_of_be(h.handle_id as nat, 8);
    from_be_of_be(h.buf_size as nat, 8);
    from_be_of_be(h.flags as nat, 8);
    from_be_of_be(owner.len(), 2);
}

// ---------------------------------------------------------------------------
//  Transfers
// ---------------------------------------------------------------------------

/// How many of `len` bytes there is room for in memory of `size` bytes, from `at` on.
pub open spec fn room_at(size: nat, at: int, len: nat) -> nat {
    if at >= size {
        0
    } else if len <= size - at {
        len
    } else {
        (size - at) as nat
    }
}

/// Memory after data was written to it, from `at` on. What goes beyond its end is dropped.
pub open spec fn overwritten(mem: Seq<u8>, at: int, data: Seq<u8>) -> Seq<u8> {
    let n = room_at(mem.len(), at, data.len());
    Seq::new(
        mem.len(),
        |i: int|
            if at <= i < at + n {
                data[i - at]
            } else {
                mem[i]
            },
    )
}

/// What is read from memory, from `at` on, where `len` bytes are asked for. There is nothing beyond
/// its end.
pub open spec fn contents_at(mem: Seq<u8>, at: int, len: nat) -> Seq<u8> {
    let n = room_at(mem.len(), at, len);
    if n == 0 {
        Seq::empty()
    } else {
        mem.subrange(at, at + n)
    }
}

fn copy_len(size: usize, at: usize, len: usize) -> (r: usize)
    ensures
        r == room_at(size as nat, at as int, len as nat),
        r > 0 ==> at + r <= size,
{
    if at >= size {
        0
    } else if len <= size - at {
        len
    } else {
        size - at
    }
}

/// Writes data into memory.
pub fn rma_write(mem: &mut [u8], offset: u64, data: &[u8])
    ensures
        final(mem)@ == overwritten(old(mem)@, offset as usize as int, data@),
{
    let at = offset as usize;
    let size: usize = mem.len();
    let ghost before = mem@;
    let n = copy_len(size, at, data.len());
    let mut i: usize = 0;
    assert(mem@.len() == before.len());
    while i < n
        invariant
            i <= n,
            n > 0 ==> at + n <= size,
            n <= data@.len(),
            size == before.len(),
            mem@.len() == before.len(),
            forall|j: int|
                0 <= j < before.len() ==> #[trigger] mem@[j] == (if at <= j < at + i {
                    data@[j - at]
                } else {
                    before[j]
                }),
        decreases n - i,
    {
        mem[at + i] = data[i];
        i += 1;
    }
    assert(mem@ == overwritten(before, at as int, data@));
}

/// Reads data from memory.
pub fn rma_read(mem: &[u8], offset: u64, length: u64) -> (r: Vec<u8>)
    ensures
        r@ == contents_at(mem@, offset as usize as int, length as usize as nat),
{
    let at = offset as usize;
    let n = copy_len(mem.len(), at, length as usize);
    if n == 0 {
        let v: Vec<u8> = Vec::new();
        assert(v@ == Seq::<u8>::empty());
        return v;
    }
    slice_to_vec(slice_subrange(mem, at, at + n))
}

/// A write that fits is read back; and whatever is written, memory keeps its size and stays as it
/// was outside the range that was written to.
pub proof fn law_read_gives_back_written(mem: Seq<u8>, at: int, data: Seq<u8>)
    requires
        0 <= at,
    ensures
        at + data.len() <= mem.len() ==> contents_at(overwritten(mem, at, data), at, data.len())
            == data,
        overwritten(mem, at, data).len() == mem.len(),
        forall|i: int|
            0 <= i < mem.len() && !(at <= i < at + data.len()) ==> #[trigger] overwritten(
                mem,
                at,
                data,
            )[i] == mem[i],
        at >= mem.len() ==> overwritten(mem, at, data) == mem,
{
    if at + data.len() <= mem.len() {
        assert(contents_at(overwritten(mem, at, data), at, data.len()) == data);
    }
    if at >= mem.len() {
        assert(overwritten(mem, at, data) == mem);
    }
}

/// The memory that a peer writes to or reads from: the one behind the number that the message names.
/// Where there is none, nothing comes of the message, and the next one is read.
pub fn rma_place(registry: &MemRegistry, header: &WireHeader) -> (r: Option<MemHandleEntry>)
    ensures
        r == place_of(registry@, header@.handle_id),
{
    registry.get(header.handle_id)
}

/// Takes in data that a peer writes. `mem` is the memory of `rma_place`, or any, where there is none:
/// it is then left alone. The flag says whether there is.
pub fn handle_rma_put(
    registry: &MemRegistry,
    mem: &mut [u8],
    header: &WireHeader,
    payload: &[u8],
) -> (r: bool)
    ensures
        r == (place_of(registry@, header@.handle_id) is Some),
        final(mem)@ == (if r {
            overwritten(old(mem)@, header.offset as usize as int, payload@)
        } else {
            old(mem)@
        }),
{
    match rma_place(registry, header) {
        Some(_) => {
            rma_write(mem, header.offset, payload);
            true
        },
        None => false,
    }
}

/// The answer to a peer that reads registered memory. It names the place at the peer to which the
/// data goes, as the request did.
pub open spec fn get_response(mem: Seq<u8>, h: HeaderView, self_peer: Seq<u8>) -> (
    HeaderView,
    Seq<u8>,
) {
    let data = contents_at(mem, h.offset as usize as int, h.rma_length as usize as nat);
    (
        HeaderView {
            msg_type: MessageType::RmaGetResp,
            tag: 0,
            payload_size: data.len() as u32,
            source: self_peer,
            handle_id: h.handle_id,
            offset: h.offset,
            rma_length: data.len() as u64,
            local_handle_id: h.local_handle_id,
            local_offset: h.local_offset,
        },
        data,
    )
}

/// An answer to a peer that reads registered memory.
#[derive(Debug, PartialEq, Eq)]
pub struct GetReply {
    /// The peer that asked.
    pub to: PeerId,
    pub header: WireHeader,
    pub data: Vec<u8>,
}

/// See `GetReply`.
pub struct ReplyView {
    pub to: Seq<u8>,
    pub header: HeaderView,
    pub data: Seq<u8>,
}

impl View for GetReply {
    type V = ReplyView;

    open spec fn view(&self) -> ReplyView {
        ReplyView { to: self.to@, header: self.header@, data: self.data@ }
    }
}

/// The view of an optional answer.
pub open spec fn reply_view(r: Option<GetReply>) -> Option<ReplyView> {
    match r {
        Some(x) => Some(x@),
        None => None,
    }
}

/// The answer to a request: it goes to the peer that asked. A request for memory that is not
/// registered gets none.
pub open spec fn reply_to(
    registry: RegistryView,
    mem: Seq<u8>,
    h: HeaderView,
    self_peer: Seq<u8>,
) -> Option<ReplyView> {
    match place_of(registry, h.handle_id) {
        Some(_) => {
            let (header, data) = get_response(mem, h, self_peer);
            Some(ReplyView { to: h.source, header, data })
        },
        None => None,
    }
}

/// Answers a peer that reads registered memory. `mem` is the memory of `rma_place`, or any, where
/// there is none: there is no answer then.
pub fn handle_rma_get_request(
    registry: &MemRegistry,
    mem: &[u8],
    header: &WireHeader,
    self_peer_id: &PeerId,
) -> (r: Option<GetReply>)
    ensures
        reply_view(r) == reply_to(registry@, mem@, header@, self_peer_id@),
{
    if rma_place(registry, header).is_none() {
        return None;
    }
    let data = rma_read(mem, header.offset, header.rma_length);
    let response = WireHeader {
        msg_type: MessageType::RmaGetResp,
        tag: 0,
        payload_size: data.len() as u32,
        source_peer_id: self_peer_id.clone(),
        handle_id: header.handle_id,
        offset: header.offset,
        rma_length: data.len() as u64,
        local_handle_id: header.local_handle_id,
        local_offset: header.local_offset,
    };
    Some(GetReply { to: header.source_peer_id.clone(), header: response, data })
}

/// The answer to a read brings the remote contents to the place that the request named, as long as
/// both ranges lie inside the memory.
pub proof fn law_get_brings_remote_contents(
    local: Seq<u8>,
    remote: Seq<u8>,
    h: HeaderView,
    self_peer: Seq<u8>,
)
    requires
        local.len() <= usize::MAX,
        remote.len() <= usize::MAX,
        h.offset + h.rma_length <= remote.len(),
        h.local_offset + h.rma_length <= local.len(),
    ensures
        ({
            let (response, data) = get_response(remote, h, self_peer);
            let after = overwritten(local, response.local_offset as usize as int, data);
            &&& after.subrange(h.local_offset as int, h.local_offset + h.rma_length)
                == remote.subrange(h.offset as int, h.offset + h.rma_length)
            &&& response.local_handle_id == h.local_handle_id
            &&& response.local_offset == h.local_offset
            &&& response.rma_length == h.rma_length
        }),
{
    let (response, data) = get_response(remote, h, self_peer);
    assert(data == remote.subrange(h.offset as int, h.offset + h.rma_length));
    let after = overwritten(local, response.local_offset as usize as int, data);
    assert(after.subrange(h.local_offset as int, h.local_offset + h.rma_length) == data);
}

/// The report that a read of remote memory is finished.
pub open spec fn read_done(op: Option<RmaOp>) -> Option<CompletionView> {
    match op {
        Some(o) => Some(
            CompletionView { op_ptr: o.op_ptr, result: NaReturn::Success, recv_info: None },
        ),
        None => None,
    }
}

/// The answer to a read that waited: the report, and the data with the place to which it goes.
#[derive(Debug, PartialEq, Eq)]
pub struct GetAnswer {
    pub item: CompletionItem,
    pub local_handle_id: u64,
    pub local_offset: u64,
    pub data: Vec<u8>,
}

/// Takes in the answer to a read of remote memory: the read that it finishes leaves the queue. Where
/// there is none, nothing comes of the answer.
pub fn handle_rma_get_response(
    queues: &mut OperationQueues,
    header: &WireHeader,
    payload: Vec<u8>,
) -> (r: Option<GetAnswer>)
    ensures
        final(queues)@ == answered(old(queues)@, header.local_handle_id, header.local_offset).0,
        (match r {
            Some(a) => Some(a.item@),
            None => None,
        }) == read_done(answered(old(queues)@, header.local_handle_id, header.local_offset).1),
        r matches Some(a) ==> {
            &&& a.local_handle_id == header.local_handle_id
            &&& a.local_offset == header.local_offset
            &&& a.data@ == payload@
        },
{
    match queues.take_rma(header.local_handle_id, header.local_offset) {
        Some(op) => Some(
            GetAnswer {
                item: CompletionItem {
                    op_ptr: op.op_ptr,
                    result: NaReturn::Success,
                    recv_info: None,
                },
                local_handle_id: header.local_handle_id,
                local_offset: header.local_offset,
                data: payload,
            },
        ),
        None => None,
    }
}

/// Data that is to be written to local memory.
#[derive(Debug, PartialEq, Eq)]
pub struct LocalWrite {
    pub entry: MemHandleEntry,
    pub offset: u64,
    pub data: Vec<u8>,
}

/// See `LocalWrite`.
pub struct LocalWriteView {
    pub entry: MemHandleEntry,
    pub offset: u64,
    pub data: Seq<u8>,
}

impl View for LocalWrite {
    type V = LocalWriteView;

    open spec fn view(&self) -> LocalWriteView {
        LocalWriteView { entry: self.entry, offset: self.offset, data: self.data@ }
    }
}

/// The view of an optional write.
pub open spec fn local_write_view(w: Option<LocalWrite>) -> Option<LocalWriteView> {
    match w {
        Some(x) => Some(x@),
        None => None,
    }
}

/// The write of data to the memory behind a number. Where that is not registered any more, there is
/// none.
pub open spec fn write_at(
    registry: RegistryView,
    handle_id: u64,
    offset: u64,
    data: Seq<u8>,
) -> Option<LocalWriteView> {
    match place_of(registry, handle_id) {
        Some(entry) => Some(LocalWriteView { entry, offset, data }),
        None => None,
    }
}

impl LocalWrite {
    /// Does the write. `mem` is the memory of the entry.
    pub fn store(&self, mem: &mut [u8])
        ensures
            final(mem)@ == overwritten(old(mem)@, self.offset as usize as int, self.data@),
    {
        rma_write(mem, self.offset, self.data.as_slice());
    }
}

/// Finds the memory to which the data of an answer goes.
pub fn place_answer(registry: &MemRegistry, answer: GetAnswer) -> (r: (
    CompletionItem,
    Option<LocalWrite>,
))
    ensures
        r.0@ == answer.item@,
        local_write_view(r.1) == write_at(
            registry@,
            answer.local_handle_id,
            answer.local_offset,
            answer.data@,
        ),
{
    let write = match registry.get(answer.local_handle_id) {
        Some(entry) => Some(
            LocalWrite { entry, offset: answer.local_offset, data: answer.data },
        ),
        None => None,
    };
    (answer.item, write)
}

/// Takes in the answer to a read of remote memory where the queues and the registry are both at
/// hand: the report, and what is written to local memory before the report is handed out.
pub fn take_get_response(
    queues: &mut OperationQueues,
    registry: &MemRegistry,
    header: &WireHeader,
    payload: Vec<u8>,
) -> (r: Option<(CompletionItem, Option<LocalWrite>)>)
    ensures
        final(queues)@ == answered(old(queues)@, header.local_handle_id, header.local_offset).0,
        (match r {
            Some(x) => Some(x.0@),
            None => None,
        }) == read_done(answered(old(queues)@, header.local_handle_id, header.local_offset).1),
        r matches Some(x) ==> local_write_view(x.1) == write_at(
            registry@,
            header.local_handle_id,
            header.local_offset,
            payload@,
        ),
{
    match handle_rma_get_response(queues, header, payload) {
        Some(answer) => Some(place_answer(registry, answer)),
        None => None,
    }
}

/// The local data of a write to remote memory.
pub open spec fn put_data(local_mem: Option<Seq<u8>>, local_offset: u64, length: usize) -> Seq<u8> {
    if length > 0 && local_mem is Some {
        (local_mem->0).subrange(local_offset as int, local_offset + length)
    } else {
        Seq::empty()
    }
}

/// Starts a write to remote memory.
pub fn put(
    local_mem: Option<&[u8]>,
    local_offset: u64,
    remote: &NaLibp2pMemHandle,
    remote_offset: u64,
    length: usize,
    dest: &NaLibp2pAddr,
    op_ptr: usize,
    self_peer_id: &PeerId,
) -> (r: Command)
    requires
        length > 0 && local_mem is Some ==> local_offset + length <= (local_mem->0)@.len(),
    ensures
        r@ == (CommandView::RmaPut {
            remote: owner_of(remote@, dest@.peer),
            data: put_data(
                match local_mem {
                    Some(m) => Some(m@),
                    None => None,
                },
                local_offset,
                length,
            ),
            remote_handle_id: remote@.handle_id,
            remote_offset,
            op_ptr,
            source: self_peer_id@,
        }),
{
    let data = match local_mem {
        Some(m) => if length > 0 {
            assert(m.len() == m@.len());
            let at = local_offset as usize;
            slice_to_vec(slice_subrange(m, at, at + length))
        } else {
            Vec::new()
        },
        None => Vec::new(),
    };
    assert(data@ == put_data(
        match local_mem {
            Some(m) => Some(m@),
            None => None,
        },
        local_offset,
        length,
    ));
    Command::RmaPut {
        remote_peer_id: owner(remote, &dest.peer_id).clone(),
        data,
        remote_handle_id: remote.handle_id,
        remote_offset,
        op_ptr,
        source_peer_id: self_peer_id.clone(),
    }
}

/// Starts a read of remote memory. It waits in the queue for the answer.
pub fn get(
    queues: &mut OperationQueues,
    local: &NaLibp2pMemHandle,
    local_offset: u64,
    remote: &NaLibp2pMemHandle,
    remote_offset: u64,
    length: usize,
    dest: &NaLibp2pAddr,
    op_ptr: usize,
    self_peer_id: &PeerId,
) -> (r: Command)
    ensures
        final(queues)@ == post_read(
            old(queues)@,
            (RmaOp {
                op_ptr,
                local_handle_id: local@.handle_id,
                local_offset,
                rma_length: length,
            }),
        ),
        r@ == (CommandView::RmaGetRequest {
            remote: owner_of(remote@, dest@.peer),
            remote_handle_id: remote@.handle_id,
            remote_offset,
            length,
            local_handle_id: local@.handle_id,
            local_offset,
            op_ptr,
            source: self_peer_id@,
        }),
{
    queues.post_rma(
        RmaOp { op_ptr, local_handle_id: local.handle_id, local_offset, rma_length: length },
    );
    Command::RmaGetRequest {
        remote_peer_id: owner(remote, &dest.peer_id).clone(),
        remote_handle_id: remote.handle_id,
        remote_offset,
        length,
        local_handle_id: local.handle_id,
        local_offset,
        op_ptr,
        source_peer_id: self_peer_id.clone(),
    }
}

} // verus!
