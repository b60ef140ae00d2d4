//! The logic of a Mercury network plugin that runs over libp2p, and of the relay server that goes
//! with it.
//!
//! Messages between peers are laid out in `protocol`. Peers are named by `addr`, `peer` and
//! `multiaddr`; `transport` says which transports are in use. Receives and messages that wait for
//! each other are in `queues`, memory that peers may read and write is in `mem`. The calls of the
//! plugin are in `plugin`, the decisions of the network side in `startup`, `swarm` and `sender`.
//!
//! What the parts promise whatever they are given is stated in the modules of laws: which message a
//! receive gets (`delivery_laws`, `queue_laws`), which bytes a transfer moves (`memory_laws`), what
//! the network side sends and dials (`network_laws`, `progress_laws`), what stands where in bytes and
//! texts (`wire_laws`, `address_laws`, `text_laws`, `transport_laws`), what callers are told
//! (`plugin_laws`, `relay_laws`), and that contracts speak of every field (`view_laws`). What one peer
//! asks for happens at the other by `end_to_end`.

pub mod addr;
pub mod address_laws;
pub mod be;
pub mod command;
pub mod delivery_laws;
pub mod end_to_end;
pub mod fields;
pub mod mem;
pub mod memory_laws;
pub mod multiaddr;
pub mod network_laws;
pub mod peer;
pub mod peer_map;
pub mod plugin;
pub mod plugin_laws;
pub mod progress_laws;
pub mod protocol;
pub mod queue_laws;
pub mod queues;
pub mod relay_laws;
pub mod relay_server;
pub mod search;
pub mod sender;
pub mod startup;
pub mod status;
pub mod swarm;
pub mod text;
pub mod text_laws;
pub mod transport;
pub mod transport_laws;
pub mod view_laws;
pub mod wire_laws;
