//! What a caller of the plugin is told.

use crate::addr::NaLibp2pAddr;
use crate::command::{CompletionItem, CompletionView};
use crate::delivery_laws::{
    brings, law_posted_receive_gets_its_message, law_unexpected_receive_gets_the_first,
};
use crate::plugin::{
    finished, info_of, name_or_empty, payload_of, receive_any, receive_from, received, reports, served,
    source_of, CbType, Finished, InfoView,
};
use crate::queues::{post_expected, post_unexpected, DeliveryView, QueuesView};
use crate::status::NaReturn;
use vstd::prelude::*;
use vstd::utf8::{encode_utf8, is_ascii_chars, is_ascii_chars_encode_utf8};

verus! {

/// The callback is told of the operation and the result that the report names. The one of a receive for
/// an unexpected message is told the size of the message, its sender and its tag as well, the one of a
/// receive for an expected message its size, and every other nothing more.
pub proof fn law_callback_is_told(cb_type: CbType, item: CompletionView)
    ensures
        finished(cb_type, item).op_ptr == item.op_ptr,
        finished(cb_type, item).ret == item.result,
        cb_type == CbType::RecvUnexpected && item.recv_info is Some ==> finished(cb_type, item).info
            == (InfoView::RecvUnexpected {
            actual_buf_size: (item.recv_info->0).actual_size,
            source: (item.recv_info->0).source,
            tag: (item.recv_info->0).tag,
        }),
        cb_type == CbType::RecvExpected && item.recv_info is Some ==> finished(cb_type, item).info
            == (InfoView::RecvExpected { actual_buf_size: (item.recv_info->0).actual_size }),
        item.recv_info is None || (cb_type != CbType::RecvUnexpected && cb_type
            != CbType::RecvExpected) ==> finished(cb_type, item).info == InfoView::Plain,
{
}

/// A receive stands in the queue with the handle, the buffer, the tag and the peer that the caller gave.
/// One for an unexpected message names no peer.
pub proof fn law_receive_as_asked(
    source: Option<Seq<u8>>,
    tag: u32,
    op_ptr: usize,
    buf_size: usize,
    has_buf: bool,
)
    ensures
        receive_any(op_ptr, buf_size, has_buf).op_ptr == op_ptr,
        receive_any(op_ptr, buf_size, has_buf).buf_size == buf_size,
        receive_any(op_ptr, buf_size, has_buf).has_buf == has_buf,
        receive_any(op_ptr, buf_size, has_buf).source is None,
        receive_any(op_ptr, buf_size, has_buf).tag == 0,
        receive_from(source, tag, op_ptr, buf_size, has_buf).op_ptr == op_ptr,
        receive_from(source, tag, op_ptr, buf_size, has_buf).tag == tag,
        receive_from(source, tag, op_ptr, buf_size, has_buf).source == source,
        receive_from(source, tag, op_ptr, buf_size, has_buf).buf_size == buf_size,
        receive_from(source, tag, op_ptr, buf_size, has_buf).has_buf == has_buf,
{
}

/// The payload is what the buffer holds, and empty without one; the peer is that of the address, and
/// none without one; the name is the given one, and empty without one.
pub proof fn law_what_is_given(buf: Option<&[u8]>, addr: Option<&NaLibp2pAddr>, name: Option<&str>)
    ensures
        buf matches Some(b) ==> payload_of(buf) == b@,
        buf is None ==> payload_of(buf).len() == 0,
        addr matches Some(a) ==> source_of(addr) == Some(a.peer_id@),
        addr is None ==> source_of(addr) is None,
        name matches Some(n) ==> name_or_empty(name) == n@,
        name is None ==> name_or_empty(name).len() == 0,
{
}

/// A delivery puts its data in the buffer, and the callback is told what its report says; without one
/// there is nothing yet.
pub proof fn law_served_receive(cb_type: CbType, d: DeliveryView, v: Vec<u8>, f: Finished)
    ensures
        served(cb_type, Some(d)) matches Some((data, told)) && data == d.data && told == finished(
            cb_type,
            d.item,
        ),
        served(cb_type, None) is None,
        received(Some((v, f))) == Some((v@, f@)),
        received(None) is None,
{
}

/// A receive for an expected message that is finished at once has a message with its tag, from the
/// named peer if one is named and the sender is known. Its buffer gets the first bytes of the message, as
/// many as it holds; the callback is told success, its own handle and the full size.
pub proof fn law_expected_receive_at_once(
    q: QueuesView,
    source: Option<Seq<u8>>,
    tag: u32,
    op_ptr: usize,
    buf_size: usize,
)
    ensures
        ({
            let op = receive_from(source, tag, op_ptr, buf_size, true);
            served(CbType::RecvExpected, post_expected(q, op).1) matches Some((data, told)) ==> exists|
                i: int,
            |
                {
                    &&& 0 <= i < q.expected_stash.len()
                    &&& (#[trigger] q.expected_stash[i]).tag == tag
                    &&& source is Some && q.expected_stash[i].source is Some ==> source->0 == (
                    q.expected_stash[i].source->0).peer
                    &&& data.len() <= buf_size
                    &&& data.len() <= q.expected_stash[i].payload.len()
                    &&& data.len() == buf_size || data.len() == q.expected_stash[i].payload.len()
                    &&& forall|k: int|
                        0 <= k < data.len() ==> #[trigger] data[k] == q.expected_stash[i].payload[k]
                    &&& told.op_ptr == op_ptr
                    &&& told.ret == NaReturn::Success
                    &&& q.expected_stash[i].payload.len() <= usize::MAX ==> {
                        &&& told.info is RecvExpected
                        &&& told.info->RecvExpected_actual_buf_size
                            == q.expected_stash[i].payload.len()
                    }
                }
        }),
{
    let op = receive_from(source, tag, op_ptr, buf_size, true);
    law_posted_receive_gets_its_message(q, op);
    if post_expected(q, op).1 is Some {
        let d = post_expected(q, op).1->0;
        let i = choose|i: int|
            {
                &&& 0 <= i < q.expected_stash.len()
                &&& (#[trigger] q.expected_stash[i]).tag == op.tag
                &&& op.source is Some && q.expected_stash[i].source is Some ==> {
                    let named = op.source->0;
                    let sender = (q.expected_stash[i].source->0).peer;
                    &&& named.len() == sender.len()
                    &&& forall|k: int| 0 <= k < named.len() ==> #[trigger] named[k] == sender[k]
                }
                &&& brings(d, op, q.expected_stash[i])
            };
        if op.source is Some && q.expected_stash[i].source is Some {
            assert(op.source->0 =~= (q.expected_stash[i].source->0).peer);
        }
    }
}

/// A receive for an unexpected message that is finished at once has the message that came first. Its
/// buffer gets the first bytes of the message, as many as it holds; the callback is told success, its
/// own handle, the full size, the sender and the tag.
pub proof fn law_unexpected_receive_at_once(q: QueuesView, op_ptr: usize, buf_size: usize)
    ensures
        ({
            let op = receive_any(op_ptr, buf_size, true);
            let msg = q.unexpected_stash.first();
            let r = served(CbType::RecvUnexpected, post_unexpected(q, op).1);
            &&& r is Some <==> q.unexpected_stash.len() > 0
            &&& r matches Some((data, told)) ==> {
                &&& data.len() <= buf_size
                &&& data.len() <= msg.payload.len()
                &&& data.len() == buf_size || data.len() == msg.payload.len()
                &&& forall|k: int| 0 <= k < data.len() ==> #[trigger] data[k] == msg.payload[k]
                &&& told.op_ptr == op_ptr
                &&& told.ret == NaReturn::Success
                &&& told.info matches InfoView::RecvUnexpected { actual_buf_size, source, tag } && {
                    &&& msg.payload.len() <= usize::MAX ==> actual_buf_size == msg.payload.len()
                    &&& source == msg.source
                    &&& tag == msg.tag
                }
            }
        }),
{
    law_unexpected_receive_gets_the_first(q, receive_any(op_ptr, buf_size, true));
}

/// The reports are taken as they are, in their order.
pub proof fn law_reports(items: Seq<(CbType, CompletionItem)>, i: int)
    requires
        0 <= i < items.len(),
    ensures
        reports(items).len() == items.len(),
        reports(items)[i].0 == items[i].0,
        reports(items)[i].1 == items[i].1@,
{
}

/// The class and the device have fixed names in ASCII; the protocol has the name that was asked for, or
/// that of TCP.
pub proof fn law_protocol_info(name: Option<Seq<u8>>)
    ensures
        info_of(name).0 == seq![0x6cu8, 0x69, 0x62, 0x70, 0x32, 0x70],
        name is Some ==> info_of(name).1 == name->0,
        name is None ==> info_of(name).1 == seq![0x74u8, 0x63, 0x70],
        info_of(name).2 == seq![0x74u8, 0x63, 0x70, 0x30],
{
    reveal_strlit("libp2p");
    reveal_strlit("tcp");
    reveal_strlit("tcp0");
    assert(is_ascii_chars("libp2p"@));
    assert(is_ascii_chars("tcp"@));
    assert(is_ascii_chars("tcp0"@));
    is_ascii_chars_encode_utf8("libp2p"@);
    is_ascii_chars_encode_utf8("tcp"@);
    is_ascii_chars_encode_utf8("tcp0"@);
    assert(encode_utf8("libp2p"@) =~= seq![0x6cu8, 0x69, 0x62, 0x70, 0x32, 0x70]);
    assert(encode_utf8("tcp"@) =~= seq![0x74u8, 0x63, 0x70]);
    assert(encode_utf8("tcp0"@) =~= seq![0x74u8, 0x63, 0x70, 0x30]);
}

} // verus!
