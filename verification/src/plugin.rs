//! The calls of the plugin: it is initialized, sends and receives messages, and is asked for what is
//! finished.

use crate::addr::{addr_view, AddrView, NaLibp2pAddr};
use crate::command::{Command, CommandView, CompletionItem, CompletionView};
use crate::multiaddr::{resolved, IpAddress, Multiaddr};
use crate::peer::PeerId;
use crate::protocol::{append_bytes, MessageType};
use crate::queues::{
    cancelled, post_expected, post_unexpected, DeliveryView, OperationQueues, RecvOp, RecvOpView,
};
use crate::status::NaReturn;
use crate::transport::{
    address_views, config_of, listen_addresses, listen_points, parse_transport_config,
    resolve_listen_addrs, resolve_self_multiaddr, self_choice, TransportConfig,
};
use std::collections::VecDeque;
use vstd::prelude::*;
use vstd::slice::slice_to_vec;
use vstd::utf8::encode_utf8;

verus! {

/// The largest message, in bytes.
pub const MAX_MSG_SIZE: usize = 65536;

// ---------------------------------------------------------------------------
//  Protocol and start
// ---------------------------------------------------------------------------

/// What the plugin says of a protocol: the name of the class, of the protocol and of the device.
#[derive(Debug, PartialEq, Eq)]
pub struct ProtocolInfo {
    pub class_name: Vec<u8>,
    pub protocol_name: Vec<u8>,
    pub device_name: Vec<u8>,
}

/// See `ProtocolInfo`.
pub open spec fn info_of(protocol_name: Option<Seq<u8>>) -> (Seq<u8>, Seq<u8>, Seq<u8>) {
    (
        encode_utf8("libp2p"@),
        match protocol_name {
            Some(name) => name,
            None => encode_utf8("tcp"@),
        },
        encode_utf8("tcp0"@),
    )
}

fn copied(data: &[u8]) -> (r: Vec<u8>)
    ensures
        r@ == data@,
{
    let mut v: Vec<u8> = Vec::new();
    append_bytes(&mut v, data);
    assert(v@ == data@);
    v
}

/// What the plugin says of a protocol; of TCP, where none is named.
pub fn get_protocol_info(protocol_name: Option<&[u8]>) -> (r: ProtocolInfo)
    ensures
        (r.class_name@, r.protocol_name@, r.device_name@) == info_of(
            match protocol_name {
                Some(name) => Some(name@),
                None => None,
            },
        ),
{
    ProtocolInfo {
        class_name: copied("libp2p".as_bytes()),
        protocol_name: match protocol_name {
            Some(name) => copied(name),
            None => copied("tcp".as_bytes()),
        },
        device_name: copied("tcp0".as_bytes()),
    }
}

/// How the network side is to be started.
#[derive(Debug, PartialEq, Eq)]
pub struct StartPlan {
    pub config: TransportConfig,
    pub listen_addrs: Vec<Multiaddr>,
}

/// The protocol name that is meant where none may be given.
pub open spec fn name_or_empty(protocol_name: Option<&str>) -> Seq<char> {
    match protocol_name {
        Some(name) => name@,
        None => Seq::empty(),
    }
}

/// Plans the start: which transports to use, and where to listen.
pub fn plan_start(protocol_name: Option<&str>, listen: bool) -> (r: StartPlan)
    ensures
        r.config == config_of(name_or_empty(protocol_name)),
        address_views(r.listen_addrs@) == listen_points(r.config, listen),
{
    let config = match protocol_name {
        Some(name) => parse_transport_config(name),
        None => {
            let name = "";
            proof {
                reveal_strlit("");
                assert(name@ == Seq::<char>::empty());
            }
            parse_transport_config(name)
        },
    };
    let listen_addrs = listen_addresses(&config, listen);
    StartPlan { config, listen_addrs }
}

/// The state of the plugin that does not change any more once it is initialized.
#[derive(Debug, PartialEq, Eq)]
pub struct NaLibp2pClass {
    pub self_addr: NaLibp2pAddr,
    pub transport_config: TransportConfig,
    pub listen_addrs: Vec<Multiaddr>,
}

/// Ends the initialization. `started` is what the network side came up with: the own identity and
/// the addresses on which it listens; nothing, if it did not come up.
pub fn initialize(
    config: TransportConfig,
    started: Option<(PeerId, Vec<Multiaddr>)>,
    host: Option<IpAddress>,
) -> (r: Result<NaLibp2pClass, NaReturn>)
    requires
        started is Some ==> (started->0).1@.len() > 0,
    ensures
        match started {
            None => r == Err::<NaLibp2pClass, NaReturn>(NaReturn::ProtocolError),
            Some((peer_id, addrs)) => r matches Ok(class) && {
                let i = self_choice(address_views(addrs@), config.priority, config.relay);
                &&& class.transport_config == config
                &&& class.self_addr@ == (AddrView {
                    peer: peer_id@,
                    multiaddr: Some(resolved(addrs@[i]@, host)),
                    is_self: true,
                })
                &&& class.listen_addrs@.len() == addrs@.len()
                &&& forall|j: int|
                    0 <= j < addrs@.len() ==> (#[trigger] class.listen_addrs@[j])@ == resolved(
                        addrs@[j]@,
                        host,
                    )
            },
        },
{
    match started {
        None => Err(NaReturn::ProtocolError),
        Some((peer_id, addrs)) => {
            let own = resolve_self_multiaddr(&addrs, config.priority, config.relay, host);
            let listen_addrs = resolve_listen_addrs(&addrs, host);
            Ok(
                NaLibp2pClass {
                    self_addr: NaLibp2pAddr { peer_id, multiaddr: Some(own), is_self: true },
                    transport_config: config,
                    listen_addrs,
                },
            )
        },
    }
}

/// The largest unexpected message, in bytes.
pub fn msg_get_max_unexpected_size() -> (r: usize)
    ensures
        r == 64 * 1024,
{
    MAX_MSG_SIZE
}

/// The largest expected message, in bytes.
pub fn msg_get_max_expected_size() -> (r: usize)
    ensures
        r == 64 * 1024,
{
    MAX_MSG_SIZE
}

/// The largest tag.
pub fn msg_get_max_tag() -> (r: u32)
    ensures
        r == 0xffff_ffff,
{
    u32::MAX
}

// ---------------------------------------------------------------------------
//  What is finished
// ---------------------------------------------------------------------------

/// What an operation does.
#[derive(Debug, Clone, Copy, PartialEq, Eq, Structural)]
pub enum CbType {
    SendUnexpected,
    RecvUnexpected,
    SendExpected,
    RecvExpected,
    Put,
    Get,
}

/// What the callback of an operation is told beside the return code.
#[derive(Debug, PartialEq, Eq)]
pub enum CallbackInfo {
    Plain,
    RecvUnexpected { actual_buf_size: usize, source: Option<NaLibp2pAddr>, tag: u32 },
    RecvExpected { actual_buf_size: usize },
}

/// See `CallbackInfo`.
pub enum InfoView {
    Plain,
    RecvUnexpected { actual_buf_size: usize, source: Option<AddrView>, tag: u32 },
    RecvExpected { actual_buf_size: usize },
}

impl View for CallbackInfo {
    type V = InfoView;

    open spec fn view(&self) -> InfoView {
        match self {
            CallbackInfo::Plain => InfoView::Plain,
            CallbackInfo::RecvUnexpected { actual_buf_size, source, tag } =>
                InfoView::RecvUnexpected {
                    actual_buf_size: *actual_buf_size,
                    source: addr_view(*source),
                    tag: *tag,
                },
            CallbackInfo::RecvExpected { actual_buf_size } => InfoView::RecvExpected {
                actual_buf_size: *actual_buf_size,
            },
        }
    }
}

/// An operation that is finished, with what its callback is told.
#[derive(Debug, PartialEq, Eq)]
pub struct Finished {
    pub op_ptr: usize,
    pub ret: NaReturn,
    pub info: CallbackInfo,
}

/// See `Finished`.
pub struct FinishedView {
    pub op_ptr: usize,
    pub ret: NaReturn,
    pub info: InfoView,
}

impl View for Finished {
    type V = FinishedView;

    open spec fn view(&self) -> FinishedView {
        FinishedView { op_ptr: self.op_ptr, ret: self.ret, info: self.info@ }
    }
}

/// What the callback of an operation is told of a report. Who sent a message is told for an
/// unexpected one only: whoever waits for an expected one knows.
pub open spec fn finished(cb_type: CbType, item: CompletionView) -> FinishedView {
    FinishedView {
        op_ptr: item.op_ptr,
        ret: item.result,
        info: match (cb_type, item.recv_info) {
            (CbType::RecvUnexpected, Some(i)) => InfoView::RecvUnexpected {
                actual_buf_size: i.actual_size,
                source: i.source,
                tag: i.tag,
            },
            (CbType::RecvExpected, Some(i)) => InfoView::RecvExpected {
                actual_buf_size: i.actual_size,
            },
            _ => InfoView::Plain,
        },
    }
}

/// Turns a report into what the callback is told. See `finished`.
pub fn finish(cb_type: CbType, item: CompletionItem) -> (r: Finished)
    ensures
        r@ == finished(cb_type, item@),
{
    let info = match (cb_type, item.recv_info) {
        (CbType::RecvUnexpected, Some(i)) => CallbackInfo::RecvUnexpected {
            actual_buf_size: i.actual_size,
            source: i.source_addr,
            tag: i.tag,
        },
        (CbType::RecvExpected, Some(i)) => CallbackInfo::RecvExpected {
            actual_buf_size: i.actual_size,
        },
        _ => CallbackInfo::Plain,
    };
    Finished { op_ptr: item.op_ptr, ret: item.result, info }
}

/// What is asked for: reports, each with the kind of its operation.
pub open spec fn reports(items: Seq<(CbType, CompletionItem)>) -> Seq<(CbType, CompletionView)> {
    items.map_values(|x: (CbType, CompletionItem)| (x.0, x.1@))
}

/// Takes in all reports that are there, in order, and counts them. It succeeds whether there are any
/// or not.
pub fn poll(items: VecDeque<(CbType, CompletionItem)>) -> (r: (NaReturn, u32, Vec<Finished>))
    requires
        items@.len() <= u32::MAX,
    ensures
        r.0 == NaReturn::Success,
        r.1 == items@.len(),
        r.2@.len() == items@.len(),
        forall|i: int|
            0 <= i < items@.len() ==> (#[trigger] r.2@[i])@ == finished(
                reports(items@)[i].0,
                reports(items@)[i].1,
            ),
{
    let ghost all = items@;
    let ghost rs = reports(items@);
    let mut items = items;
    let mut out: Vec<Finished> = Vec::new();
    let mut count: u32 = 0;
    assert(all.subrange(0, all.len() as int) == all);
    while items.len() > 0
        invariant
            all.len() <= u32::MAX,
            rs == reports(all),
            count == out@.len(),
            out@.len() + items@.len() == all.len(),
            items@ == all.subrange(count as int, all.len() as int),
            forall|i: int|
                0 <= i < out@.len() ==> (#[trigger] out@[i])@ == finished(rs[i].0, rs[i].1),
        decreases items@.len(),
    {
        let (cb_type, item) = items.pop_front().unwrap();
        assert(rs[count as int] == (cb_type, item@));
        out.push(finish(cb_type, item));
        count += 1;
        assert(items@ == all.subrange(count as int, all.len() as int));
    }
    (NaReturn::Success, count, out)
}

/// Cancels an operation. If it waited, it is finished as cancelled.
pub fn cancel(queues: &mut OperationQueues, op_ptr: usize) -> (r: Option<Finished>)
    ensures
        final(queues)@ == cancelled(old(queues)@, op_ptr).0,
        (match r {
            Some(f) => Some(f@),
            None => None,
        }) == (if cancelled(old(queues)@, op_ptr).1 {
            Some(FinishedView { op_ptr, ret: NaReturn::Canceled, info: InfoView::Plain })
        } else {
            None
        }),
{
    if queues.cancel(op_ptr) {
        Some(Finished { op_ptr, ret: NaReturn::Canceled, info: CallbackInfo::Plain })
    } else {
        None
    }
}

// ---------------------------------------------------------------------------
//  Messages
// ---------------------------------------------------------------------------

/// The payload that a buffer stands for; there may be none.
pub open spec fn payload_of(buf: Option<&[u8]>) -> Seq<u8> {
    match buf {
        Some(b) => b@,
        None => Seq::empty(),
    }
}

fn send_command(
    msg_type: MessageType,
    dest: &NaLibp2pAddr,
    tag: u32,
    buf: Option<&[u8]>,
    op_ptr: usize,
    self_peer_id: &PeerId,
) -> (r: Command)
    ensures
        r@ == (CommandView::SendMessage {
            dest: dest@.peer,
            msg_type,
            tag,
            payload: payload_of(buf),
            op_ptr,
            source: self_peer_id@,
        }),
{
    let payload = match buf {
        Some(b) => slice_to_vec(b),
        None => Vec::new(),
    };
    assert(payload@ == payload_of(buf));
    Command::SendMessage {
        dest_peer_id: dest.peer_id.clone(),
        msg_type,
        tag,
        payload,
        op_ptr,
        source_peer_id: self_peer_id.clone(),
    }
}

/// Starts to send an unexpected message.
pub fn msg_send_unexpected(
    dest: &NaLibp2pAddr,
    tag: u32,
    buf: Option<&[u8]>,
    op_ptr: usize,
    self_peer_id: &PeerId,
) -> (r: Command)
    ensures
        r@ == (CommandView::SendMessage {
            dest: dest@.peer,
            msg_type: MessageType::Unexpected,
            tag,
            payload: payload_of(buf),
            op_ptr,
            source: self_peer_id@,
        }),
{
    send_command(MessageType::Unexpected, dest, tag, buf, op_ptr, self_peer_id)
}

/// Starts to send an expected message.
pub fn msg_send_expected(
    dest: &NaLibp2pAddr,
    tag: u32,
    buf: Option<&[u8]>,
    op_ptr: usize,
    self_peer_id: &PeerId,
) -> (r: Command)
    ensures
        r@ == (CommandView::SendMessage {
            dest: dest@.peer,
            msg_type: MessageType::Expected,
            tag,
            payload: payload_of(buf),
            op_ptr,
            source: self_peer_id@,
        }),
{
    send_command(MessageType::Expected, dest, tag, buf, op_ptr, self_peer_id)
}

/// What a receive gives back at once: what goes into the buffer, and what the callback is told.
pub open spec fn received(r: Option<(Vec<u8>, Finished)>) -> Option<(Seq<u8>, FinishedView)> {
    match r {
        Some((data, f)) => Some((data@, f@)),
        None => None,
    }
}

/// What a delivery means for a receive.
pub open spec fn served(cb_type: CbType, d: Option<DeliveryView>) -> Option<(Seq<u8>, FinishedView)> {
    match d {
        Some(x) => Some((x.data, finished(cb_type, x.item))),
        None => None,
    }
}

/// A receive for any message.
pub open spec fn receive_any(op_ptr: usize, buf_size: usize, has_buf: bool) -> RecvOpView {
    RecvOpView { op_ptr, tag: 0, source: None, buf_size, has_buf }
}

/// Posts a receive for an unexpected message.
pub fn msg_recv_unexpected(
    queues: &mut OperationQueues,
    buf_size: usize,
    has_buf: bool,
    op_ptr: usize,
) -> (r: Option<(Vec<u8>, Finished)>)
    ensures
        final(queues)@ == post_unexpected(
            old(queues)@,
            receive_any(op_ptr, buf_size, has_buf),
        ).0,
        received(r) == served(
            CbType::RecvUnexpected,
            post_unexpected(old(queues)@, receive_any(op_ptr, buf_size, has_buf)).1,
        ),
{
    let op = RecvOp { op_ptr, tag: 0, source: None, buf_size, has_buf };
    assert(op@ == receive_any(op_ptr, buf_size, has_buf));
    match queues.recv_unexpected(op) {
        Some(d) => Some((d.data, finish(CbType::RecvUnexpected, d.item))),
        None => None,
    }
}

/// A receive for a message with a tag from a peer, or from any.
pub open spec fn receive_from(
    source: Option<Seq<u8>>,
    tag: u32,
    op_ptr: usize,
    buf_size: usize,
    has_buf: bool,
) -> RecvOpView {
    RecvOpView { op_ptr, tag, source, buf_size, has_buf }
}

/// The identity in an optional address.
pub open spec fn source_of(addr: Option<&NaLibp2pAddr>) -> Option<Seq<u8>> {
    match addr {
        Some(a) => Some(a@.peer),
        None => None,
    }
}

/// Posts a receive for an expected message.
pub fn msg_recv_expected(
    queues: &mut OperationQueues,
    buf_size: usize,
    has_buf: bool,
    source_addr: Option<&NaLibp2pAddr>,
    tag: u32,
    op_ptr: usize,
) -> (r: Option<(Vec<u8>, Finished)>)
    ensures
        final(queues)@ == post_expected(
            old(queues)@,
            receive_from(source_of(source_addr), tag, op_ptr, buf_size, has_buf),
        ).0,
        received(r) == served(
            CbType::RecvExpected,
            post_expected(
                old(queues)@,
                receive_from(source_of(source_addr), tag, op_ptr, buf_size, has_buf),
            ).1,
        ),
{
    let source = match source_addr {
        Some(a) => Some(a.peer_id.clone()),
        None => None,
    };
    let op = RecvOp { op_ptr, tag, source, buf_size, has_buf };
    assert(op@ == receive_from(source_of(source_addr), tag, op_ptr, buf_size, has_buf));
    match queues.recv_expected(op) {
        Some(d) => Some((d.data, finish(CbType::RecvExpected, d.item))),
        None => None,
    }
}

} // verus!
