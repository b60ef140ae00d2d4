# na_libp2p

The logic of a Mercury NA (network abstraction) plugin that runs over libp2p, verified with Verus.

* `src/` is the library. Its functions state in `requires` and `ensures` what they take and give, and
  Verus proves it. What the library as a whole promises stands in proof functions named `law_...`:
  messages come through as they were sent, receives and messages find each other in order, no
  operation is completed twice by the queues, memory is read as it was written, addresses and handles
  survive being turned into texts and bytes.
* `app/` is ordinary Rust around it: the calls that Mercury makes, the libp2p swarm, the relay server.
* `tests/` runs the library together with libp2p.

What the library takes from libp2p without proof is marked `external_body`; the comment above each
such function says what is claimed of it. These are the reading and showing of peer identities and
multiaddresses, and the identity of an Ed25519 key pair. From the standard library it takes the
reading of UTF-8 in the same way.

## The modules

| Module | What it holds |
|--------|---------------|
| `protocol`, `be` | the wire format |
| `peer`, `multiaddr`, `addr` | identities, transport addresses, addresses of peers |
| `transport` | which transports are in use, and which address is shown |
| `queues`, `queue_laws` | receives and messages that wait for each other |
| `mem` | memory handles, and reads and writes of remote memory |
| `plugin` | the calls of the plugin |
| `startup`, `swarm`, `sender`, `peer_map`, `command` | the decisions of the network side |
| `end_to_end` | what one peer asks for happens at the other |
| `relay_server` | the relay server |
| `fields`, `search`, `text`, `status` | what the others share |
