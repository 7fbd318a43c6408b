use vstd::prelude::*;
use vstd::utf8::{encode_scalar, encode_utf8};

use crate::chars::byte_len;

verus! {

/// The UTF-8 encoding of a concatenation is the concatenation of the encodings.
pub proof fn lemma_encode_concat(a: Seq<char>, b: Seq<char>)
    ensures
        encode_utf8(a + b) == encode_utf8(a) + encode_utf8(b),
    decreases a.len(),
{
    if a.len() == 0 {
        assert(a + b =~= b);
        assert(encode_utf8(a) + encode_utf8(b) =~= encode_utf8(b));
    } else {
        assert((a + b).drop_first() =~= a.drop_first() + b);
        assert((a + b)[0] == a[0]);
        lemma_encode_concat(a.drop_first(), b);
        assert(encode_utf8(a + b) =~= encode_utf8(a) + encode_utf8(b));
    }
}

/// The first character position `i >= from` whose prefix `s[..i]` is `b` bytes long.
pub open spec fn char_pos_from(s: Seq<char>, b: int, from: int) -> Option<int>
    decreases s.len() + 1 - from,
{
    if from < 0 || from > s.len() {
        None
    } else if byte_len(s.subrange(0, from)) == b {
        Some(from)
    } else {
        char_pos_from(s, b, from + 1)
    }
}

/// A position found by `char_pos_from` lies between `from` and the end of `s`.
pub proof fn lemma_char_pos_bound(s: Seq<char>, b: int, from: int)
    ensures
        char_pos_from(s, b, from) matches Some(i) ==> from <= i <= s.len(),
    decreases s.len() + 1 - from,
{
    if from >= 0 && from <= s.len() && byte_len(s.subrange(0, from)) != b {
        lemma_char_pos_bound(s, b, from + 1);
    }
}

/// The character position at which byte offset `b` of `s`'s encoding falls, if it
/// falls between two characters.
pub open spec fn char_pos(s: Seq<char>, b: int) -> Option<int> {
    char_pos_from(s, b, 0)
}

/// Byte spans turned into character spans; a span with an end that falls inside a
/// character, or that ends before it starts, is left out.
pub open spec fn char_spans(s: Seq<char>, bs: Seq<(usize, usize)>) -> Seq<(usize, usize)>
    decreases bs.len(),
{
    if bs.len() == 0 {
        seq![]
    } else {
        let prev = char_spans(s, bs.drop_last());
        let (b0, b1) = bs.last();
        match (char_pos(s, b0 as int), char_pos(s, b1 as int)) {
            (Some(i), Some(j)) => if i <= j {
                prev.push((i as usize, j as usize))
            } else {
                prev
            },
            _ => prev,
        }
    }
}

/// `r[i]` is the byte offset at which character `i` starts; the last entry is the
/// length of the whole encoding.
pub fn byte_offsets(cs: &Vec<char>, total: usize) -> (r: Vec<usize>)
    requires
        byte_len(cs@) == total,
    ensures
        r@.len() == cs@.len() + 1,
        forall|i: int| 0 <= i <= cs@.len() ==> r@[i] == byte_len(#[trigger] cs@.subrange(0, i)),
{
    let mut r: Vec<usize> = Vec::new();
    let mut off: usize = 0;
    r.push(0);
    assert(encode_utf8(cs@.subrange(0, 0)) =~= seq![]);
    let mut i: usize = 0;
    while i < cs.len()
        invariant
            i <= cs@.len(),
            byte_len(cs@) == total,
            r@.len() == i + 1,
            off == byte_len(cs@.subrange(0, i as int)),
            forall|k: int| 0 <= k <= i ==> r@[k] == byte_len(#[trigger] cs@.subrange(0, k)),
        decreases cs.len() - i,
    {
        let c = cs[i];
        proof {
            let pre = cs@.subrange(0, i as int);
            let one = seq![c];
            assert(cs@.subrange(0, i + 1) =~= pre + one);
            lemma_encode_concat(pre, one);
            assert(encode_utf8(one.drop_first()) =~= seq![]);
            assert(encode_utf8(one) =~= encode_scalar(c as u32));
            assert(cs@ =~= cs@.subrange(0, i + 1) + cs@.subrange(i + 1, cs@.len() as int));
            lemma_encode_concat(cs@.subrange(0, i + 1), cs@.subrange(i + 1, cs@.len() as int));
        }
        off = off + c.len_utf8();
        r.push(off);
        i += 1;
    }
    r
}

/// Finds the character position whose byte offset is `b`, from the table of
/// `byte_offsets`.
pub fn char_index(cs: &Vec<char>, offs: &Vec<usize>, b: usize) -> (r: Option<usize>)
    requires
        offs@.len() == cs@.len() + 1,
        forall|i: int| 0 <= i <= cs@.len() ==> offs@[i] == byte_len(#[trigger] cs@.subrange(0, i)),
    ensures
        r matches Some(i) ==> char_pos(cs@, b as int) == Some(i as int),
        r is None ==> char_pos(cs@, b as int) is None,
        r matches Some(i) ==> i <= cs@.len(),
        char_pos(cs@, b as int) matches Some(i) ==> 0 <= i <= cs@.len(),
{
    proof {
        lemma_char_pos_bound(cs@, b as int, 0);
    }
    let mut i: usize = 0;
    while i < offs.len()
        invariant
            i <= offs@.len(),
            offs@.len() == cs@.len() + 1,
            forall|i: int| 0 <= i <= cs@.len() ==> offs@[i] == byte_len(#[trigger] cs@.subrange(0, i)),
            char_pos(cs@, b as int) == char_pos_from(cs@, b as int, i as int),
        decreases offs.len() - i,
    {
        assert(offs@[i as int] == byte_len(cs@.subrange(0, i as int)));
        if offs[i] == b {
            return Some(i);
        }
        i += 1;
    }
    None
}

/// Turns byte spans of `cs`'s encoding into character spans.
pub fn to_char_spans(cs: &Vec<char>, offs: &Vec<usize>, bs: &Vec<(usize, usize)>) -> (r: Vec<(usize, usize)>)
    requires
        offs@.len() == cs@.len() + 1,
        forall|i: int| 0 <= i <= cs@.len() ==> offs@[i] == byte_len(#[trigger] cs@.subrange(0, i)),
    ensures
        r@ == char_spans(cs@, bs@),
        forall|k: int| 0 <= k < r@.len() ==> (#[trigger] r@[k]).0 <= r@[k].1 && r@[k].1 <= cs@.len(),
{
    let mut r: Vec<(usize, usize)> = Vec::new();
    let mut k: usize = 0;
    while k < bs.len()
        invariant
            k <= bs@.len(),
            offs@.len() == cs@.len() + 1,
            forall|i: int| 0 <= i <= cs@.len() ==> offs@[i] == byte_len(#[trigger] cs@.subrange(0, i)),
            r@ == char_spans(cs@, bs@.subrange(0, k as int)),
            forall|j: int| 0 <= j < r@.len() ==> (#[trigger] r@[j]).0 <= r@[j].1 && r@[j].1 <= cs@.len(),
        decreases bs.len() - k,
    {
        let (b0, b1) = bs[k];
        assert(bs@.subrange(0, k + 1).drop_last() =~= bs@.subrange(0, k as int));
        assert(bs@.subrange(0, k + 1).last() == (b0, b1));
        let i0 = char_index(cs, offs, b0);
        let i1 = char_index(cs, offs, b1);
        let ghost sub = bs@.subrange(0, k + 1);
        match (i0, i1) {
            (Some(i), Some(j)) => {
                assert(char_pos(cs@, b0 as int) == Some(i as int));
                assert(char_pos(cs@, b1 as int) == Some(j as int));
                if i <= j {
                    r.push((i, j));
                    assert(char_spans(cs@, sub) == char_spans(cs@, bs@.subrange(0, k as int)).push((i, j)));
                } else {
                    assert(char_spans(cs@, sub) == char_spans(cs@, bs@.subrange(0, k as int)));
                }
            },
            _ => {
                assert(char_pos(cs@, b0 as int) is None || char_pos(cs@, b1 as int) is None);
                assert(char_spans(cs@, sub) == char_spans(cs@, bs@.subrange(0, k as int)));
            },
        }
        k += 1;
    }
    assert(bs@.subrange(0, bs@.len() as int) =~= bs@);
    r
}

} // verus!
