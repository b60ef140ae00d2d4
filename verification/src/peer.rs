//! Peer identities.

use vstd::prelude::*;

verus! {

/// The canonical byte form of a peer identity: a hash code, the length of the digest, the digest.
/// The digest is either a SHA-256 multihash or a public key short enough to be kept whole.
pub open spec fn canonical_peer_id(b: Seq<u8>) -> bool {
    &&& b.len() >= 2
    &&& b.len() == 2 + b[1]
    &&& b[1] <= 64
    &&& b[0] == 0x12 || (b[0] == 0 && b[1] <= 42)
}

/// The hash code and the length of the digest take no more than one byte each.
pub open spec fn plain_peer_id(b: Seq<u8>) -> bool {
    &&& b.len() > 0 ==> b[0] < 0x80
    &&& b.len() > 1 ==> b[1] < 0x80
}

/// The canonical bytes of the identity that `libp2p::PeerId::from_bytes` reads from `b`, if it
/// accepts `b`.
pub uninterp spec fn peer_id_of_bytes(b: Seq<u8>) -> Option<Seq<u8>>;

/// The canonical bytes of the identity that `libp2p::PeerId` parses from its text, if it accepts
/// the text.
pub uninterp spec fn peer_id_of_text(text: Seq<char>) -> Option<Seq<u8>>;

/// The text in which `libp2p::PeerId` shows the identity with these canonical bytes.
pub uninterp spec fn peer_id_text(b: Seq<u8>) -> Seq<char>;

/// What holds of the canonical bytes of every identity: they are read back as the same identity,
/// and so is its text, which holds no slash.
pub open spec fn valid_peer_id(b: Seq<u8>) -> bool {
    &&& canonical_peer_id(b)
    &&& peer_id_of_bytes(b) == Some(b)
    &&& peer_id_of_text(peer_id_text(b)) == Some(b)
    &&& !peer_id_text(b).contains('/')
}

/// The identity of a peer of the network.
#[derive(Debug, PartialEq, Eq)]
pub struct PeerId {
    pub(crate) bytes: Vec<u8>,
}

impl View for PeerId {
    type V = Seq<u8>;

    closed spec fn view(&self) -> Seq<u8> {
        self.bytes@
    }
}

/// The views of an optional identity.
pub open spec fn peer_view(p: Option<PeerId>) -> Option<Seq<u8>> {
    match p {
        Some(id) => Some(id@),
        None => None,
    }
}

impl Clone for PeerId {
    fn clone(&self) -> (r: Self)
        ensures
            r@ == self@,
    {
        proof {
            use_type_invariant(self);
        }
        let bytes = self.bytes.clone();
        proof {
            assert(bytes@ == self.bytes@);
        }
        PeerId { bytes }
    }
}

impl PeerId {
    #[verifier::type_invariant]
    spec fn valid(self) -> bool {
        valid_peer_id(self.bytes@)
    }

    /// Reads an identity from bytes.
    pub fn from_bytes(data: &[u8]) -> (r: Option<PeerId>)
        ensures
            peer_view(r) == peer_id_of_bytes(data@),
            canonical_peer_id(data@) ==> peer_view(r) == Some(data@),
            plain_peer_id(data@) && !canonical_peer_id(data@) ==> r is None,
            r matches Some(p) ==> valid_peer_id(p@),
    {
        match peer_bytes_from_bytes(data) {
            Ok(bytes) => Some(PeerId { bytes }),
            Err(_) => None,
        }
    }

    /// Reads an identity from its text.
    pub fn from_text(text: &str) -> (r: Option<PeerId>)
        ensures
            peer_view(r) == peer_id_of_text(text@),
            r matches Some(p) ==> valid_peer_id(p@),
    {
        match peer_bytes_from_text(text) {
            Ok(bytes) => Some(PeerId { bytes }),
            Err(_) => None,
        }
    }

    /// The canonical bytes.
    pub fn to_bytes(&self) -> (r: Vec<u8>)
        ensures
            r@ == self@,
            valid_peer_id(r@),
    {
        proof {
            use_type_invariant(self);
        }
        let bytes = self.bytes.clone();
        assert(bytes@ == self.bytes@);
        bytes
    }

    /// The text form.
    pub fn to_text(&self) -> (r: String)
        ensures
            r@ == peer_id_text(self@),
            valid_peer_id(self@),
    {
        proof {
            use_type_invariant(self);
        }
        peer_bytes_to_text(&self.bytes)
    }

    /// Whether two values name the same peer.
    pub fn same(&self, other: &PeerId) -> (r: bool)
        ensures
            r == (self@ == other@),
    {
        if self.bytes.len() != other.bytes.len() {
            return false;
        }
        let mut i: usize = 0;
        while i < self.bytes.len()
            invariant
                i <= self.bytes@.len(),
                self.bytes@.len() == other.bytes@.len(),
                forall|j: int| 0 <= j < i ==> self.bytes@[j] == other.bytes@[j],
            decreases self.bytes@.len() - i,
        {
            if self.bytes[i] != other.bytes[i] {
                return false;
            }
            i += 1;
        }
        assert(self.bytes@ == other.bytes@);
        true
    }
}

/// The error of `libp2p::PeerId::from_bytes` and of its parser.
#[verifier::external_type_specification]
#[verifier::external_body]
pub struct ExPeerIdParseError(libp2p::identity::ParseError);

/// The bytes that were read, if any.
pub open spec fn read_bytes(r: Result<Vec<u8>, libp2p::identity::ParseError>) -> Option<Seq<u8>> {
    match r {
        Ok(v) => Some(v@),
        Err(_) => None,
    }
}

/// Calls `libp2p::PeerId::from_bytes` and hands out the canonical bytes of what it read.
///
/// Claimed: bytes in canonical form are accepted and stand for themselves; where the hash code and
/// the digest length take one byte each, nothing else is accepted. Whatever is accepted has a
/// canonical form, which is read back as the same identity, as is its text. A longer coding of one of
/// the two numbers is not always refused: of ten bytes the last one counts by its lowest bit only, so
/// that it may stand for a small number without being zero. What such codings stand for is left to
/// the name.
#[verifier::external_body]
fn peer_bytes_from_bytes(data: &[u8]) -> (r: Result<Vec<u8>, libp2p::identity::ParseError>)
    ensures
        read_bytes(r) == peer_id_of_bytes(data@),
        canonical_peer_id(data@) ==> read_bytes(r) == Some(data@),
        plain_peer_id(data@) && !canonical_peer_id(data@) ==> read_bytes(r) is None,
        read_bytes(r) is Some ==> valid_peer_id(read_bytes(r)->0),
{
    libp2p::PeerId::from_bytes(data).map(|p| p.to_bytes())
}

/// Parses a text as a `libp2p::PeerId` and hands out the canonical bytes of what it read.
///
/// Claimed: whatever is accepted has a canonical form, which is read back as the same identity, as
/// is its text. Which texts stand for which identity is left to the name.
#[verifier::external_body]
fn peer_bytes_from_text(text: &str) -> (r: Result<Vec<u8>, libp2p::identity::ParseError>)
    ensures
        read_bytes(r) == peer_id_of_text(text@),
        read_bytes(r) is Some ==> valid_peer_id(read_bytes(r)->0),
{
    text.parse::<libp2p::PeerId>().map(|p| p.to_bytes())
}

/// Calls `libp2p::PeerId::to_base58` on the identity with these canonical bytes.
///
/// Claimed: the result is the named text. That the text is read back as the same identity, and that
/// it holds no slash (the base-58 alphabet has none), is part of `valid_peer_id`.
#[verifier::external_body]
fn peer_bytes_to_text(bytes: &Vec<u8>) -> (r: String)
    requires
        canonical_peer_id(bytes@),
    ensures
        r@ == peer_id_text(bytes@),
{
    libp2p::PeerId::from_bytes(bytes).expect("canonical bytes").to_base58()
}

} // verus!
