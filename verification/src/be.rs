//! Big-endian numbers, as they stand on the wire and in serialized handles.

use vstd::prelude::*;

verus! {

/// The `n` low bytes of `x`, most significant byte first.
pub open spec fn be(x: nat, n: nat) -> Seq<u8>
    decreases n,
{
    if n == 0 {
        Seq::empty()
    } else {
        be(x / 256, (n - 1) as nat).push((x % 256) as u8)
    }
}

/// The number whose big-endian digits (base 256) are `s`.
pub open spec fn from_be(s: Seq<u8>) -> nat
    decreases s.len(),
{
    if s.len() == 0 {
        0
    } else {
        from_be(s.drop_last()) * 256 + s.last() as nat
    }
}

/// `256` to the power `n`.
pub open spec fn pow256(n: nat) -> nat
    decreases n,
{
    if n == 0 {
        1
    } else {
        256 * pow256((n - 1) as nat)
    }
}

pub broadcast proof fn be_len(x: nat, n: nat)
    ensures
        #[trigger] be(x, n).len() == n,
    decreases n,
{
    if n > 0 {
        be_len(x / 256, (n - 1) as nat);
    }
}

pub proof fn pow256_values()
    ensures
        pow256(1) == 0x100,
        pow256(2) == 0x1_0000,
        pow256(4) == 0x1_0000_0000,
        pow256(8) == 0x1_0000_0000_0000_0000,
{
    reveal_with_fuel(pow256, 9);
}

/// What was written is read back, as long as the number fits in `n` bytes.
pub proof fn from_be_of_be(x: nat, n: nat)
    requires
        x < pow256(n),
    ensures
        from_be(be(x, n)) == x,
    decreases n,
{
    if n > 0 {
        assert(x / 256 < pow256((n - 1) as nat));
        from_be_of_be(x / 256, (n - 1) as nat);
        assert(be(x, n).drop_last() == be(x / 256, (n - 1) as nat));
    }
}

/// A number of `n` bytes is below `256` to the power `n`.
pub proof fn from_be_bound(s: Seq<u8>)
    ensures
        from_be(s) < pow256(s.len()),
    decreases s.len(),
{
    if s.len() > 0 {
        from_be_bound(s.drop_last());
    }
}

/// Every string of bytes is the big-endian form of the number it stands for.
pub proof fn be_of_from_be(s: Seq<u8>)
    ensures
        be(from_be(s), s.len()) == s,
    decreases s.len(),
{
    if s.len() > 0 {
        be_of_from_be(s.drop_last());
        assert(from_be(s) / 256 == from_be(s.drop_last()));
        assert(from_be(s) % 256 == s.last() as nat);
        assert(s.drop_last().push(s.last()) == s);
    }
}

/// Appends the `n` low bytes of `x`, most significant byte first.
pub fn put_be(out: &mut Vec<u8>, x: u64, n: usize)
    ensures
        final(out)@ == old(out)@ + be(x as nat, n as nat),
    decreases n,
{
    if n > 0 {
        put_be(out, x / 256, n - 1);
        out.push((x % 256) as u8);
    }
}

/// Reads `n` bytes of `data` at `pos` as a big-endian number.
pub fn get_be(data: &[u8], pos: usize, n: usize) -> (x: u64)
    requires
        n <= 8,
        pos + n <= data@.len(),
    ensures
        x == from_be(data@.subrange(pos as int, pos + n)),
        x < pow256(n as nat),
{
    let mut x: u64 = 0;
    let mut i: usize = 0;
    proof {
        assert(data@.subrange(pos as int, pos as int) == Seq::<u8>::empty());
    }
    while i < n
        invariant
            i <= n <= 8,
            pos + n <= data@.len(),
            x == from_be(data@.subrange(pos as int, pos + i)),
        decreases n - i,
    {
        proof {
            let s = data@.subrange(pos as int, pos + i);
            let t = data@.subrange(pos as int, pos + i + 1);
            assert(t.drop_last() == s);
            from_be_bound(t);
            reveal_with_fuel(pow256, 10);
            assert(data.len() == data@.len());
        }
        x = x * 256 + data[pos + i] as u64;
        i += 1;
    }
    proof {
        from_be_bound(data@.subrange(pos as int, pos + n));
    }
    x
}

} // verus!
