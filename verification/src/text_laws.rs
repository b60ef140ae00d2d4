//! What splitting, trimming and searching a text come to.

use crate::text::{
    is_last_occurrence, is_white_space, last_occurrence, occurs_at, split_is_never_empty, split_on,
    strip_prefix, trim, trim_end, trim_start, trimmed_pieces,
};
use vstd::prelude::*;

verus! {

/// The pieces with the separator between them.
pub open spec fn joined(pieces: Seq<Seq<char>>, sep: char) -> Seq<char>
    decreases pieces.len(),
{
    if pieces.len() == 0 {
        Seq::empty()
    } else if pieces.len() == 1 {
        pieces[0]
    } else {
        joined(pieces.drop_last(), sep).push(sep) + pieces.last()
    }
}

/// The pieces of a text hold no separator, and with separators between them they are the text again.
pub proof fn law_pieces_make_the_text(s: Seq<char>, sep: char)
    ensures
        split_on(s, sep).len() > 0,
        joined(split_on(s, sep), sep) == s,
        forall|i: int|
            0 <= i < split_on(s, sep).len() ==> !(#[trigger] split_on(s, sep)[i]).contains(sep),
    decreases s.len(),
{
    let pieces = split_on(s, sep);
    split_is_never_empty(s, sep);
    if s.len() > 0 {
        let head = s.drop_last();
        let c = s.last();
        let before = split_on(head, sep);
        law_pieces_make_the_text(head, sep);
        assert(s == head.push(c));
        if c == sep {
            assert(pieces.drop_last() == before);
            assert(joined(pieces, sep) == joined(before, sep).push(sep) + Seq::<char>::empty());
            assert(joined(pieces, sep) == s);
        } else {
            assert(pieces.drop_last() == before.drop_last());
            assert(pieces.last() == before.last().push(c));
            assert(joined(pieces, sep) == joined(before, sep).push(c));
            assert forall|i: int| 0 <= i < pieces.len() implies !(#[trigger] pieces[i]).contains(
                sep,
            ) by {
                if i < pieces.len() - 1 {
                    assert(pieces[i] == before[i]);
                } else {
                    assert(!before[i].contains(sep));
                    if pieces[i].contains(sep) {
                        let k = choose|k: int| 0 <= k < pieces[i].len() && pieces[i][k] == sep;
                        assert(k < before[i].len());
                        assert(before[i][k] == sep);
                    }
                }
            }
        }
    }
}

/// The pieces of a list are the pieces of its text, each trimmed, in their order.
pub proof fn law_trimmed_pieces(s: Seq<char>, sep: char)
    ensures
        trimmed_pieces(s, sep).len() == split_on(s, sep).len(),
        forall|i: int|
            0 <= i < split_on(s, sep).len() ==> #[trigger] trimmed_pieces(s, sep)[i] == trim(
                split_on(s, sep)[i],
            ),
{
}

proof fn trimmed_start(s: Seq<char>) -> (k: int)
    ensures
        0 <= k <= s.len(),
        trim_start(s) == s.subrange(k, s.len() as int),
        forall|i: int| 0 <= i < k ==> is_white_space(#[trigger] s[i]),
        k < s.len() ==> !is_white_space(s[k]),
    decreases s.len(),
{
    if s.len() > 0 && is_white_space(s[0]) {
        let t = s.drop_first();
        let k = trimmed_start(t);
        assert(t.subrange(k, t.len() as int) == s.subrange(k + 1, s.len() as int));
        assert forall|i: int| 0 <= i < k + 1 implies is_white_space(#[trigger] s[i]) by {
            if i > 0 {
                assert(s[i] == t[i - 1]);
            }
        }
        k + 1
    } else {
        assert(s.subrange(0, s.len() as int) == s);
        0
    }
}

proof fn trimmed_end(s: Seq<char>) -> (k: int)
    ensures
        0 <= k <= s.len(),
        trim_end(s) == s.subrange(0, k),
        forall|i: int| k <= i < s.len() ==> is_white_space(#[trigger] s[i]),
        k > 0 ==> !is_white_space(s[k - 1]),
    decreases s.len(),
{
    if s.len() > 0 && is_white_space(s.last()) {
        let t = s.drop_last();
        let k = trimmed_end(t);
        assert(t.subrange(0, k) == s.subrange(0, k));
        assert forall|i: int| k <= i < s.len() implies is_white_space(#[trigger] s[i]) by {
            if i < t.len() {
                assert(s[i] == t[i]);
            }
        }
        k
    } else {
        assert(s.subrange(0, s.len() as int) == s);
        s.len() as int
    }
}

/// A trimmed text is a part of the text with nothing but white space before and behind it, and it
/// neither starts nor ends with white space.
pub proof fn law_trimmed(s: Seq<char>) -> (r: (int, int))
    ensures
        0 <= r.0 <= r.1 <= s.len(),
        trim(s) == s.subrange(r.0, r.1),
        forall|i: int| 0 <= i < r.0 ==> is_white_space(#[trigger] s[i]),
        forall|i: int| r.1 <= i < s.len() ==> is_white_space(#[trigger] s[i]),
        r.0 < r.1 ==> !is_white_space(s[r.0]) && !is_white_space(s[r.1 - 1]),
{
    let a = trimmed_start(s);
    let t = trim_start(s);
    let b = trimmed_end(t);
    assert(t.subrange(0, b) == s.subrange(a, a + b));
    assert forall|i: int| a + b <= i < s.len() implies is_white_space(#[trigger] s[i]) by {
        assert(s[i] == t[i - a]);
    }
    if b > 0 {
        assert(t[b - 1] == s[a + b - 1]);
    }
    (a, a + b)
}

/// White space is the space, the tabs and line breaks, and the characters of these numbers; no
/// letter, digit or punctuation mark of ASCII is.
pub proof fn law_white_space(c: char)
    ensures
        is_white_space(c) <==> seq![
            0x9u32,
            0xa,
            0xb,
            0xc,
            0xd,
            0x20,
            0x85,
            0xa0,
            0x1680,
            0x2000,
            0x2001,
            0x2002,
            0x2003,
            0x2004,
            0x2005,
            0x2006,
            0x2007,
            0x2008,
            0x2009,
            0x200a,
            0x2028,
            0x2029,
            0x202f,
            0x205f,
            0x3000,
        ].contains(c as u32),
        '!' <= c <= '~' ==> !is_white_space(c),
{
    let all = seq![
        0x9u32,
        0xa,
        0xb,
        0xc,
        0xd,
        0x20,
        0x85,
        0xa0,
        0x1680,
        0x2000,
        0x2001,
        0x2002,
        0x2003,
        0x2004,
        0x2005,
        0x2006,
        0x2007,
        0x2008,
        0x2009,
        0x200a,
        0x2028,
        0x2029,
        0x202f,
        0x205f,
        0x3000,
    ];
    let u = c as u32;
    if 0x9 <= u <= 0xd {
        assert(all[u - 0x9] == u);
    } else if u == 0x20 {
        assert(all[5] == u);
    } else if u == 0x85 {
        assert(all[6] == u);
    } else if u == 0xa0 {
        assert(all[7] == u);
    } else if u == 0x1680 {
        assert(all[8] == u);
    } else if 0x2000 <= u <= 0x200a {
        assert(all[u - 0x2000 + 9] == u);
    } else if u == 0x2028 {
        assert(all[20] == u);
    } else if u == 0x2029 {
        assert(all[21] == u);
    } else if u == 0x202f {
        assert(all[22] == u);
    } else if u == 0x205f {
        assert(all[23] == u);
    } else if u == 0x3000 {
        assert(all[24] == u);
    }
}

/// A pattern stands at a place where the text has its characters, one after the other.
pub proof fn law_occurrence(s: Seq<char>, pat: Seq<char>, i: int)
    ensures
        occurs_at(s, pat, i) <==> {
            &&& 0 <= i
            &&& i + pat.len() <= s.len()
            &&& forall|k: int| 0 <= k < pat.len() ==> s[i + k] == #[trigger] pat[k]
        },
{
    if occurs_at(s, pat, i) {
        assert forall|k: int| 0 <= k < pat.len() implies s[i + k] == #[trigger] pat[k] by {
            assert(s.subrange(i, i + pat.len())[k] == pat[k]);
        }
    }
    if 0 <= i && i + pat.len() <= s.len() && (forall|k: int|
        0 <= k < pat.len() ==> s[i + k] == #[trigger] pat[k]) {
        assert(s.subrange(i, i + pat.len()) == pat);
    }
}

proof fn last_exists(s: Seq<char>, pat: Seq<char>, i: int)
    requires
        occurs_at(s, pat, i),
    ensures
        exists|k: int| is_last_occurrence(s, pat, k),
    decreases s.len() - i,
{
    if exists|j: int| i < j && occurs_at(s, pat, j) {
        let j = choose|j: int| i < j && occurs_at(s, pat, j);
        last_exists(s, pat, j);
    } else {
        assert(is_last_occurrence(s, pat, i));
    }
}

/// The last place of a pattern: the pattern stands there and nowhere behind. There is one exactly if
/// the pattern stands anywhere.
pub proof fn law_last_occurrence(s: Seq<char>, pat: Seq<char>)
    ensures
        last_occurrence(s, pat) matches Some(i) ==> {
            &&& 0 <= i <= s.len() - pat.len()
            &&& s == s.take(i) + pat + s.skip(i + pat.len() as int)
            &&& forall|j: int| i < j ==> !#[trigger] occurs_at(s, pat, j)
        },
        last_occurrence(s, pat) is None ==> forall|j: int| !#[trigger] occurs_at(s, pat, j),
{
    if last_occurrence(s, pat) is Some {
        let i = last_occurrence(s, pat)->0;
        assert(is_last_occurrence(s, pat, i));
        assert(s == s.take(i) + s.subrange(i, i + pat.len()) + s.skip(i + pat.len() as int));
    } else {
        assert forall|j: int| !#[trigger] occurs_at(s, pat, j) by {
            if occurs_at(s, pat, j) {
                last_exists(s, pat, j);
            }
        }
    }
}

/// Stripping a prefix gives the rest exactly of those texts that are the prefix and the rest.
pub proof fn law_strip_prefix(s: Seq<char>, prefix: Seq<char>, rest: Seq<char>)
    ensures
        strip_prefix(s, prefix) == Some(rest) <==> s == prefix + rest,
{
    if strip_prefix(s, prefix) == Some(rest) {
        assert(s == s.subrange(0, prefix.len() as int) + s.subrange(prefix.len() as int, s.len() as int));
    }
    if s == prefix + rest {
        assert(s.subrange(0, prefix.len() as int) == prefix);
        assert(s.subrange(prefix.len() as int, s.len() as int) == rest);
    }
}

} // verus!
