//! Serialized records: fields laid out one after the other, as far as they fit.

use crate::protocol::append_bytes;
use vstd::prelude::*;

verus! {

/// The fields one after the other.
pub open spec fn flat(fields: Seq<Seq<u8>>) -> Seq<u8>
    decreases fields.len(),
{
    if fields.len() == 0 {
        Seq::empty()
    } else {
        flat(fields.drop_last()) + fields.last()
    }
}

/// How many fields, from the first on, fit whole into `room` bytes.
pub open spec fn fitting(fields: Seq<Seq<u8>>, room: nat) -> nat
    decreases fields.len(),
{
    if fields.len() == 0 {
        0
    } else {
        let k = fitting(fields.drop_last(), room);
        if k == fields.len() - 1 && flat(fields).len() <= room {
            fields.len()
        } else {
            k
        }
    }
}

/// What is stored of the fields where there is room for `room` bytes.
pub open spec fn stored(fields: Seq<Seq<u8>>, room: nat) -> Seq<u8> {
    flat(fields.subrange(0, fitting(fields, room) as int))
}

/// No more fields fit than there are.
pub proof fn fitting_bound(fields: Seq<Seq<u8>>, room: nat)
    ensures
        fitting(fields, room) <= fields.len(),
    decreases fields.len(),
{
    if fields.len() > 0 {
        fitting_bound(fields.drop_last(), room);
    }
}

/// All fields fit exactly where there is room for all their bytes.
pub proof fn all_fit(fields: Seq<Seq<u8>>, room: nat)
    ensures
        fitting(fields, room) == fields.len() <==> flat(fields).len() <= room,
        fitting(fields, room) == fields.len() ==> stored(fields, room) == flat(fields),
        stored(fields, room).len() <= room,
    decreases fields.len(),
{
    fitting_bound(fields, room);
    if fields.len() > 0 {
        all_fit(fields.drop_last(), room);
        fitting_bound(fields.drop_last(), room);
        let k = fitting(fields.drop_last(), room) as int;
        assert(fields.drop_last().subrange(0, k) == fields.subrange(0, k));
    }
    assert(fields.subrange(0, fields.len() as int) == fields);
}

/// The byte strings that a list of vectors stands for.
pub open spec fn byte_views(fields: Seq<Vec<u8>>) -> Seq<Seq<u8>> {
    fields.map_values(|f: Vec<u8>| f@)
}

/// Lays out fields one after the other until one does not fit any more. The flag says whether all
/// of them did.
pub fn write_fields(fields: &Vec<Vec<u8>>, room: usize) -> (r: (Vec<u8>, bool))
    ensures
        r.0@ == stored(byte_views(fields@), room as nat),
        r.1 == (flat(byte_views(fields@)).len() <= room),
{
    let ghost fs = byte_views(fields@);
    let mut out: Vec<u8> = Vec::new();
    let mut i: usize = 0;
    assert(fs.subrange(0, 0) == Seq::<Seq<u8>>::empty());
    while i < fields.len()
        invariant
            i <= fields@.len(),
            fs == byte_views(fields@),
            out@ == flat(fs.subrange(0, i as int)),
            out@.len() <= room,
            fitting(fs.subrange(0, i as int), room as nat) == i,
        decreases fields@.len() - i,
    {
        let ghost head = fs.subrange(0, i as int);
        let ghost next = fs.subrange(0, i + 1);
        assert(next.drop_last() == head);
        assert(next.last() == fields@[i as int]@);
        if fields[i].len() > room - out.len() {
            proof {
                more_fields_add_nothing(fs, i + 1, i as nat, room as nat);
                all_fit(fs, room as nat);
                assert(fs.subrange(0, i as int) == head);
            }
            return (out, false);
        }
        append_bytes(&mut out, fields[i].as_slice());
        i += 1;
    }
    proof {
        assert(fs.subrange(0, i as int) == fs);
        all_fit(fs, room as nat);
    }
    (out, true)
}

/// Once a field did not fit, no later one is stored.
proof fn more_fields_add_nothing(fields: Seq<Seq<u8>>, n: int, k: nat, room: nat)
    requires
        0 <= n <= fields.len(),
        k < n,
        fitting(fields.subrange(0, n), room) == k,
    ensures
        fitting(fields, room) == k,
    decreases fields.len() - n,
{
    if n == fields.len() {
        assert(fields.subrange(0, n) == fields);
    } else {
        let next = fields.subrange(0, n + 1);
        assert(next.drop_last() == fields.subrange(0, n));
        more_fields_add_nothing(fields, n + 1, k, room);
    }
}

} // verus!
