//! What the two sides of the plugin tell each other: requests to the network side, and reports of
//! finished operations.

use crate::addr::{addr_view, AddrView, NaLibp2pAddr};
use crate::multiaddr::{Multiaddr, ProtocolView};
use crate::peer::PeerId;
use crate::protocol::MessageType;
use crate::status::NaReturn;
use vstd::prelude::*;

verus! {

/// A request to the network side. Operations are named by their handle (`op_ptr`).
#[derive(Debug, PartialEq, Eq)]
pub enum Command {
    SendMessage {
        dest_peer_id: PeerId,
        msg_type: MessageType,
        tag: u32,
        payload: Vec<u8>,
        op_ptr: usize,
        source_peer_id: PeerId,
    },
    RmaPut {
        remote_peer_id: PeerId,
        data: Vec<u8>,
        remote_handle_id: u64,
        remote_offset: u64,
        op_ptr: usize,
        source_peer_id: PeerId,
    },
    RmaGetRequest {
        remote_peer_id: PeerId,
        remote_handle_id: u64,
        remote_offset: u64,
        length: usize,
        local_handle_id: u64,
        local_offset: u64,
        op_ptr: usize,
        source_peer_id: PeerId,
    },
    AddKnownAddr { peer_id: PeerId, multiaddr: Multiaddr },
    Shutdown,
}

/// A request, as a mathematical value.
pub enum CommandView {
    SendMessage {
        dest: Seq<u8>,
        msg_type: MessageType,
        tag: u32,
        payload: Seq<u8>,
        op_ptr: usize,
        source: Seq<u8>,
    },
    RmaPut {
        remote: Seq<u8>,
        data: Seq<u8>,
        remote_handle_id: u64,
        remote_offset: u64,
        op_ptr: usize,
        source: Seq<u8>,
    },
    RmaGetRequest {
        remote: Seq<u8>,
        remote_handle_id: u64,
        remote_offset: u64,
        length: usize,
        local_handle_id: u64,
        local_offset: u64,
        op_ptr: usize,
        source: Seq<u8>,
    },
    AddKnownAddr { peer: Seq<u8>, multiaddr: Seq<ProtocolView> },
    Shutdown,
}

impl View for Command {
    type V = CommandView;

    open spec fn view(&self) -> CommandView {
        match self {
            Command::SendMessage { dest_peer_id, msg_type, tag, payload, op_ptr, source_peer_id } =>
                CommandView::SendMessage {
                    dest: dest_peer_id@,
                    msg_type: *msg_type,
                    tag: *tag,
                    payload: payload@,
                    op_ptr: *op_ptr,
                    source: source_peer_id@,
                },
            Command::RmaPut {
                remote_peer_id,
                data,
                remote_handle_id,
                remote_offset,
                op_ptr,
                source_peer_id,
            } => CommandView::RmaPut {
                remote: remote_peer_id@,
                data: data@,
                remote_handle_id: *remote_handle_id,
                remote_offset: *remote_offset,
                op_ptr: *op_ptr,
                source: source_peer_id@,
            },
            Command::RmaGetRequest {
                remote_peer_id,
                remote_handle_id,
                remote_offset,
                length,
                local_handle_id,
                local_offset,
                op_ptr,
                source_peer_id,
            } => CommandView::RmaGetRequest {
                remote: remote_peer_id@,
                remote_handle_id: *remote_handle_id,
                remote_offset: *remote_offset,
                length: *length,
                local_handle_id: *local_handle_id,
                local_offset: *local_offset,
                op_ptr: *op_ptr,
                source: source_peer_id@,
            },
            Command::AddKnownAddr { peer_id, multiaddr } => CommandView::AddKnownAddr {
                peer: peer_id@,
                multiaddr: multiaddr@,
            },
            Command::Shutdown => CommandView::Shutdown,
        }
    }
}

/// The view of an optional request.
pub open spec fn command_view(c: Option<Command>) -> Option<CommandView> {
    match c {
        Some(x) => Some(x@),
        None => None,
    }
}

/// What a finished receive has to say: the size of the message, its sender and its tag.
#[derive(Debug, PartialEq, Eq)]
pub struct RecvInfo {
    pub actual_size: usize,
    pub source_addr: Option<NaLibp2pAddr>,
    pub tag: u32,
}

/// See `RecvInfo`.
pub struct RecvInfoView {
    pub actual_size: usize,
    pub source: Option<AddrView>,
    pub tag: u32,
}

impl View for RecvInfo {
    type V = RecvInfoView;

    open spec fn view(&self) -> RecvInfoView {
        RecvInfoView {
            actual_size: self.actual_size,
            source: addr_view(self.source_addr),
            tag: self.tag,
        }
    }
}

/// A report that an operation is finished.
#[derive(Debug, PartialEq, Eq)]
pub struct CompletionItem {
    pub op_ptr: usize,
    pub result: NaReturn,
    pub recv_info: Option<RecvInfo>,
}

/// See `CompletionItem`.
pub struct CompletionView {
    pub op_ptr: usize,
    pub result: NaReturn,
    pub recv_info: Option<RecvInfoView>,
}

impl View for CompletionItem {
    type V = CompletionView;

    open spec fn view(&self) -> CompletionView {
        CompletionView {
            op_ptr: self.op_ptr,
            result: self.result,
            recv_info: match self.recv_info {
                Some(i) => Some(i@),
                None => None,
            },
        }
    }
}

/// The view of an optional report.
pub open spec fn completion_view(c: Option<CompletionItem>) -> Option<CompletionView> {
    match c {
        Some(x) => Some(x@),
        None => None,
    }
}

} // verus!
