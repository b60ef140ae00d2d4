//! Something kept for each peer.

use crate::peer::PeerId;
use vstd::prelude::*;

verus! {

/// At most one value for each peer.
#[derive(Debug)]
pub struct PeerMap<T> {
    entries: Vec<(PeerId, T)>,
}

/// No peer occurs twice.
pub open spec fn one_entry_each<T>(entries: Seq<(PeerId, T)>) -> bool {
    forall|i: int, j: int|
        0 <= i < j < entries.len() ==> (#[trigger] entries[i]).0@ != (#[trigger] entries[j]).0@
}

/// Whether there is an entry for a peer.
pub open spec fn has_entry<T>(entries: Seq<(PeerId, T)>, peer: Seq<u8>) -> bool {
    exists|i: int| 0 <= i < entries.len() && (#[trigger] entries[i]).0@ == peer
}

/// The value that is kept for a peer.
pub open spec fn entry_of<T>(entries: Seq<(PeerId, T)>, peer: Seq<u8>) -> T {
    let i = choose|i: int| 0 <= i < entries.len() && (#[trigger] entries[i]).0@ == peer;
    entries[i].1
}

/// What is kept, by peer.
pub open spec fn kept<T>(entries: Seq<(PeerId, T)>) -> Map<Seq<u8>, T> {
    Map::new(|peer: Seq<u8>| has_entry(entries, peer), |peer: Seq<u8>| entry_of(entries, peer))
}

impl<T> View for PeerMap<T> {
    type V = Map<Seq<u8>, T>;

    closed spec fn view(&self) -> Map<Seq<u8>, T> {
        kept(self.entries@)
    }
}

proof fn entry_is<T>(entries: Seq<(PeerId, T)>, i: int)
    requires
        one_entry_each(entries),
        0 <= i < entries.len(),
    ensures
        kept(entries).dom().contains(entries[i].0@),
        kept(entries)[entries[i].0@] == entries[i].1,
{
    let peer = entries[i].0@;
    let k = choose|k: int| 0 <= k < entries.len() && (#[trigger] entries[k]).0@ == peer;
    assert(0 <= k < entries.len() && entries[k].0@ == peer);
    if k < i {
        assert(entries[k].0@ != entries[i].0@);
    } else if i < k {
        assert(entries[i].0@ != entries[k].0@);
    }
}

proof fn without_entry<T>(entries: Seq<(PeerId, T)>, i: int)
    requires
        one_entry_each(entries),
        0 <= i < entries.len(),
    ensures
        one_entry_each(entries.remove(i)),
        kept(entries.remove(i)) == kept(entries).remove(entries[i].0@),
{
    let rest = entries.remove(i);
    let peer = entries[i].0@;
    assert forall|a: int, b: int| 0 <= a < b < rest.len() implies (#[trigger] rest[a]).0@ != (
    #[trigger] rest[b]).0@ by {
        let x = if a < i {
            a
        } else {
            a + 1
        };
        let y = if b < i {
            b
        } else {
            b + 1
        };
        assert(rest[a] == entries[x] && rest[b] == entries[y]);
    }
    assert forall|p: Seq<u8>| #[trigger] kept(rest).dom().contains(p) implies kept(entries).remove(
        peer,
    ).dom().contains(p) && kept(rest)[p] == kept(entries)[p] by {
        let a = choose|a: int| 0 <= a < rest.len() && (#[trigger] rest[a]).0@ == p;
        let x = if a < i {
            a
        } else {
            a + 1
        };
        assert(rest[a] == entries[x]);
        entry_is(entries, x);
        entry_is(rest, a);
        if x < i {
            assert(entries[x].0@ != entries[i].0@);
        } else {
            assert(entries[i].0@ != entries[x].0@);
        }
    }
    assert forall|p: Seq<u8>| #[trigger] kept(entries).remove(peer).dom().contains(p) implies kept(
        rest,
    ).dom().contains(p) by {
        let x = choose|x: int| 0 <= x < entries.len() && (#[trigger] entries[x]).0@ == p;
        let a = if x < i {
            x
        } else {
            x - 1
        };
        assert(rest[a] == entries[x]);
    }
    assert(kept(rest) =~= kept(entries).remove(peer));
}

proof fn with_entry<T>(entries: Seq<(PeerId, T)>, e: (PeerId, T))
    requires
        one_entry_each(entries),
        !has_entry(entries, e.0@),
    ensures
        one_entry_each(entries.push(e)),
        kept(entries.push(e)) == kept(entries).insert(e.0@, e.1),
{
    let more = entries.push(e);
    assert forall|a: int, b: int| 0 <= a < b < more.len() implies (#[trigger] more[a]).0@ != (
    #[trigger] more[b]).0@ by {
        assert(more[a] == entries[a]);
        if b < entries.len() {
            assert(more[b] == entries[b]);
        }
    }
    assert forall|p: Seq<u8>| #[trigger] kept(more).dom().contains(p) implies kept(entries).insert(
        e.0@,
        e.1,
    ).dom().contains(p) && kept(more)[p] == kept(entries).insert(e.0@, e.1)[p] by {
        let a = choose|a: int| 0 <= a < more.len() && (#[trigger] more[a]).0@ == p;
        entry_is(more, a);
        if a < entries.len() {
            assert(more[a] == entries[a]);
            entry_is(entries, a);
        }
    }
    assert forall|p: Seq<u8>| #[trigger]
        kept(entries).insert(e.0@, e.1).dom().contains(p) implies kept(more).dom().contains(p) by {
        if p == e.0@ {
            assert(more[entries.len() as int] == e);
        } else {
            let x = choose|x: int| 0 <= x < entries.len() && (#[trigger] entries[x]).0@ == p;
            assert(more[x] == entries[x]);
        }
    }
    assert(kept(more) =~= kept(entries).insert(e.0@, e.1));
}

fn find<T>(entries: &Vec<(PeerId, T)>, peer: &PeerId) -> (r: Option<usize>)
    ensures
        match r {
            Some(i) => i < entries@.len() && entries@[i as int].0@ == peer@,
            None => !has_entry(entries@, peer@),
        },
{
    let mut i: usize = 0;
    while i < entries.len()
        invariant
            i <= entries@.len(),
            forall|j: int| 0 <= j < i ==> (#[trigger] entries@[j]).0@ != peer@,
        decreases entries@.len() - i,
    {
        if entries[i].0.same(peer) {
            return Some(i);
        }
        i += 1;
    }
    None
}

impl<T> PeerMap<T> {
    #[verifier::type_invariant]
    spec fn valid(self) -> bool {
        one_entry_each(self.entries@)
    }

    /// Nothing is kept for any peer.
    pub fn new() -> (r: Self)
        ensures
            r@ == Map::<Seq<u8>, T>::empty(),
    {
        let r = PeerMap { entries: Vec::new() };
        assert(kept(r.entries@) =~= Map::<Seq<u8>, T>::empty());
        r
    }

    /// What is kept for a peer.
    pub fn get(&self, peer: &PeerId) -> (r: Option<&T>)
        ensures
            match r {
                Some(v) => self@.dom().contains(peer@) && *v == self@[peer@],
                None => !self@.dom().contains(peer@),
            },
    {
        proof {
            use_type_invariant(self);
        }
        match find(&self.entries, peer) {
            Some(i) => {
                proof {
                    entry_is(self.entries@, i as int);
                }
                Some(&self.entries[i].1)
            },
            None => None,
        }
    }

    /// Keeps a value for a peer, in place of what was kept for it.
    pub fn insert(&mut self, peer: PeerId, value: T)
        ensures
            final(self)@ == old(self)@.insert(peer@, value),
    {
        let ghost before = self@;
        self.remove(&peer);
        proof {
            use_type_invariant(&*self);
        }
        let mut entries: Vec<(PeerId, T)> = Vec::new();
        std::mem::swap(&mut entries, &mut self.entries);
        proof {
            assert(!kept(entries@).dom().contains(peer@));
            with_entry(entries@, (peer, value));
            assert(before.remove(peer@).insert(peer@, value) =~= before.insert(peer@, value));
        }
        entries.push((peer, value));
        self.entries = entries;
    }

    /// Keeps nothing for a peer any more.
    pub fn remove(&mut self, peer: &PeerId)
        ensures
            final(self)@ == old(self)@.remove(peer@),
    {
        proof {
            use_type_invariant(&*self);
        }
        let mut entries: Vec<(PeerId, T)> = Vec::new();
        std::mem::swap(&mut entries, &mut self.entries);
        match find(&entries, peer) {
            Some(i) => {
                proof {
                    without_entry(entries@, i as int);
                }
                let _ = entries.remove(i);
            },
            None => {
                assert(kept(entries@).remove(peer@) =~= kept(entries@));
            },
        }
        self.entries = entries;
    }
}

} // verus!
