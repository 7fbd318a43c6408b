use vstd::prelude::*;

use crate::chars::{alphabetic, char_lower_of, char_lowercase, chars_of, contains_char, is_ws, occurs_at, occurs_at_exec, views};

verus! {

/// Which characters a run-splitting scan keeps, and what it writes for each.
pub enum RunRule {
    /// Runs of characters other than whitespace.
    NonSpace,
    /// Runs of alphabetic characters.
    Letters,
    /// Runs of alphabetic characters, each written in lowercase.
    FoldedLetters,
    /// Runs of characters outside the given set.
    NotIn(Vec<char>),
}

/// Keeps characters other than whitespace.
pub open spec fn not_space() -> spec_fn(char) -> bool {
    |c: char| !is_ws(c)
}

/// Keeps alphabetic characters.
pub open spec fn letters() -> spec_fn(char) -> bool {
    |c: char| alphabetic(c)
}

/// Keeps the characters outside `v`.
pub open spec fn not_in(v: Seq<char>) -> spec_fn(char) -> bool {
    |c: char| !v.contains(c)
}

/// Writes each kept character as it is.
pub open spec fn as_is() -> spec_fn(char) -> Seq<char> {
    |c: char| seq![c]
}

/// Writes each kept character in lowercase.
pub open spec fn folded() -> spec_fn(char) -> Seq<char> {
    |c: char| char_lower_of(c)
}

impl RunRule {
    /// Which characters the rule keeps.
    pub open spec fn keep_fn(&self) -> spec_fn(char) -> bool {
        match self {
            RunRule::NonSpace => not_space(),
            RunRule::Letters => letters(),
            RunRule::FoldedLetters => letters(),
            RunRule::NotIn(v) => not_in(v@),
        }
    }

    /// What the rule writes for a kept character.
    pub open spec fn piece_fn(&self) -> spec_fn(char) -> Seq<char> {
        match self {
            RunRule::FoldedLetters => folded(),
            _ => as_is(),
        }
    }

    fn keeps_exec(&self, c: char) -> (r: bool)
        ensures
            r == (self.keep_fn())(c),
    {
        match self {
            RunRule::NonSpace => !c.is_whitespace(),
            RunRule::Letters => c.is_alphabetic(),
            RunRule::FoldedLetters => c.is_alphabetic(),
            RunRule::NotIn(v) => !contains_char(v, c),
        }
    }
}

/// Left-to-right scan: the finished runs, and the run still open.
pub open spec fn scan_runs(
    keep: spec_fn(char) -> bool,
    piece: spec_fn(char) -> Seq<char>,
    s: Seq<char>,
) -> (Seq<Seq<char>>, Seq<char>)
    decreases s.len(),
{
    if s.len() == 0 {
        (seq![], seq![])
    } else {
        let (done, cur) = scan_runs(keep, piece, s.drop_last());
        let c = s.last();
        if keep(c) {
            (done, cur + piece(c))
        } else if cur.len() > 0 {
            (done.push(cur), seq![])
        } else {
            (done, cur)
        }
    }
}

/// The maximal runs of kept characters of `s`, in order, each character written as
/// `piece` says; the other characters only separate runs and are dropped.
pub open spec fn runs(keep: spec_fn(char) -> bool, piece: spec_fn(char) -> Seq<char>, s: Seq<char>) -> Seq<
    Seq<char>,
> {
    let (done, cur) = scan_runs(keep, piece, s);
    if cur.len() > 0 {
        done.push(cur)
    } else {
        done
    }
}

/// Where the finished runs of `scan_runs` lie in `s`, as `(start, end)` pairs.
pub open spec fn scan_bounds(keep: spec_fn(char) -> bool, s: Seq<char>) -> Seq<(int, int)>
    decreases s.len(),
{
    if s.len() == 0 {
        seq![]
    } else {
        let b = scan_bounds(keep, s.drop_last());
        let cur = scan_runs(keep, as_is(), s.drop_last()).1;
        let n = s.len() - 1;
        if !keep(s.last()) && cur.len() > 0 {
            b.push((n - cur.len(), n))
        } else {
            b
        }
    }
}

/// Where each run of `runs(keep, as_is(), s)` lies in `s`.
pub open spec fn run_bounds(keep: spec_fn(char) -> bool, s: Seq<char>) -> Seq<(int, int)> {
    let cur = scan_runs(keep, as_is(), s).1;
    if cur.len() > 0 {
        scan_bounds(keep, s).push((s.len() - cur.len(), s.len() as int))
    } else {
        scan_bounds(keep, s)
    }
}

/// Bounds `b` place the pieces `r` in `s`, left to right, each ending by `limit`.
pub open spec fn placed_in_order(r: Seq<Seq<char>>, b: Seq<(int, int)>, s: Seq<char>, limit: int) -> bool {
    &&& b.len() == r.len()
    &&& forall|i: int| 0 <= i < b.len() ==> 0 <= (#[trigger] b[i]).0 <= b[i].1 <= limit && r[i] == s.subrange(b[i].0, b[i].1)
    &&& forall|i: int| 0 <= i < b.len() - 1 ==> (#[trigger] b[i]).1 <= b[i + 1].0
}

proof fn lemma_scan_bounds(keep: spec_fn(char) -> bool, s: Seq<char>)
    ensures
        ({
            let (done, cur) = scan_runs(keep, as_is(), s);
            &&& cur.len() <= s.len()
            &&& cur == s.subrange(s.len() - cur.len(), s.len() as int)
            &&& placed_in_order(done, scan_bounds(keep, s), s, s.len() - cur.len())
        }),
    decreases s.len(),
{
    if s.len() > 0 {
        let p = s.drop_last();
        lemma_scan_bounds(keep, p);
        let (pd, pc) = scan_runs(keep, as_is(), p);
        let pb = scan_bounds(keep, p);
        let c = s.last();
        let (done, cur) = scan_runs(keep, as_is(), s);
        let b = scan_bounds(keep, s);
        assert forall|x: int, y: int| 0 <= x <= y <= p.len() implies #[trigger] s.subrange(x, y) == p.subrange(x, y) by {
            assert(s.subrange(x, y) =~= p.subrange(x, y));
        }
        if keep(c) {
            assert(cur == pc + seq![c]);
            assert(cur =~= s.subrange(s.len() - cur.len(), s.len() as int));
            assert forall|i: int| 0 <= i < b.len() implies 0 <= (#[trigger] b[i]).0 <= b[i].1 <= s.len() - cur.len()
                && done[i] == s.subrange(b[i].0, b[i].1) by {
                assert(s.subrange(b[i].0, b[i].1) == p.subrange(b[i].0, b[i].1));
            }
        } else if pc.len() > 0 {
            let n = s.len() - 1;
            assert(b == pb.push((n - pc.len(), n)));
            assert(done == pd.push(pc));
            assert forall|i: int| 0 <= i < b.len() implies 0 <= (#[trigger] b[i]).0 <= b[i].1 <= s.len() - cur.len()
                && done[i] == s.subrange(b[i].0, b[i].1) by {
                if i < pb.len() {
                    assert(b[i] == pb[i]);
                    assert(s.subrange(b[i].0, b[i].1) == p.subrange(b[i].0, b[i].1));
                } else {
                    assert(s.subrange(n - pc.len(), n) == p.subrange(n - pc.len(), n));
                }
            }
            assert forall|i: int| 0 <= i < b.len() - 1 implies (#[trigger] b[i]).1 <= b[i + 1].0 by {
                assert(b[i] == pb[i]);
                if i + 1 < pb.len() {
                    assert(b[i + 1] == pb[i + 1]);
                }
            }
            assert(cur =~= s.subrange(s.len() as int, s.len() as int));
        } else {
            assert(cur =~= s.subrange(s.len() as int, s.len() as int));
            assert forall|i: int| 0 <= i < b.len() implies 0 <= (#[trigger] b[i]).0 <= b[i].1 <= s.len() - cur.len()
                && done[i] == s.subrange(b[i].0, b[i].1) by {
                assert(s.subrange(b[i].0, b[i].1) == p.subrange(b[i].0, b[i].1));
            }
        }
    } else {
        assert(scan_runs(keep, as_is(), s).1 =~= s.subrange(0, 0));
    }
}

/// Split tokens come in text order: each run is a piece of the text, and each ends no
/// later than the next one begins.
pub proof fn lemma_runs_in_order(keep: spec_fn(char) -> bool, s: Seq<char>)
    ensures
        placed_in_order(runs(keep, as_is(), s), run_bounds(keep, s), s, s.len() as int),
{
    lemma_scan_bounds(keep, s);
    let (done, cur) = scan_runs(keep, as_is(), s);
    let b = scan_bounds(keep, s);
    if cur.len() > 0 {
        let r = done.push(cur);
        let rb = b.push((s.len() - cur.len(), s.len() as int));
        assert forall|i: int| 0 <= i < rb.len() implies 0 <= (#[trigger] rb[i]).0 <= rb[i].1 <= s.len() && r[i]
            == s.subrange(rb[i].0, rb[i].1) by {
            if i < b.len() {
                assert(rb[i] == b[i]);
            }
        }
        assert forall|i: int| 0 <= i < rb.len() - 1 implies (#[trigger] rb[i]).1 <= rb[i + 1].0 by {
            assert(rb[i] == b[i]);
            if i + 1 < b.len() {
                assert(rb[i + 1] == b[i + 1]);
            }
        }
    }
}

/// Splits `text` into the runs of characters that `rule` keeps.
pub fn split_runs(text: &str, rule: &RunRule) -> (r: Vec<String>)
    ensures
        views(r@) == runs(rule.keep_fn(), rule.piece_fn(), text@),
{
    let cs = chars_of(text);
    let mut tokens: Vec<String> = Vec::new();
    let mut cur = String::new();
    let mut i: usize = 0;
    while i < cs.len()
        invariant
            i <= cs@.len(),
            cs@ == text@,
            views(tokens@) == scan_runs(rule.keep_fn(), rule.piece_fn(), cs@.subrange(0, i as int)).0,
            cur@ == scan_runs(rule.keep_fn(), rule.piece_fn(), cs@.subrange(0, i as int)).1,
        decreases cs.len() - i,
    {
        let c = cs[i];
        assert(cs@.subrange(0, i + 1).drop_last() =~= cs@.subrange(0, i as int));
        assert(cs@.subrange(0, i + 1).last() == c);
        if rule.keeps_exec(c) {
            match rule {
                RunRule::FoldedLetters => {
                    let low = char_lowercase(c);
                    cur.push_str(&low);
                },
                _ => {
                    cur.push(c);
                    assert(cur@ =~= scan_runs(rule.keep_fn(), rule.piece_fn(), cs@.subrange(0, i as int)).1 + seq![c]);
                },
            }
        } else if !cur.as_str().is_empty() {
            let done = cur.clone();
            tokens.push(done);
            assert(views(tokens@) =~= scan_runs(rule.keep_fn(), rule.piece_fn(), cs@.subrange(0, i as int)).0.push(done@));
            cur = String::new();
        }
        i += 1;
    }
    assert(cs@.subrange(0, cs@.len() as int) =~= cs@);
    if !cur.as_str().is_empty() {
        let last = cur;
        tokens.push(last);
        assert(views(tokens@) =~= scan_runs(rule.keep_fn(), rule.piece_fn(), cs@).0.push(last@));
    }
    tokens
}

/// Pieces of `s[start..]` split at each occurrence of `d`, scanning from `i`, with
/// the current piece beginning at `start`.
pub open spec fn split_from(s: Seq<char>, d: Seq<char>, start: int, i: int) -> Seq<Seq<char>>
    recommends
        d.len() > 0,
    decreases s.len() - i,
{
    if i < start || i + d.len() > s.len() || d.len() == 0 {
        seq![s.subrange(start, s.len() as int)]
    } else if occurs_at(s, d, i) {
        seq![s.subrange(start, i)] + split_from(s, d, i + d.len(), i + d.len())
    } else {
        split_from(s, d, start, i + 1)
    }
}

/// `s` split at each occurrence of the non-empty `d`, leftmost first, as str::split does.
pub open spec fn split_on(s: Seq<char>, d: Seq<char>) -> Seq<Seq<char>> {
    split_from(s, d, 0, 0)
}

/// Splits `s` at each non-overlapping occurrence of `d`, taken from the left.
pub fn split_on_exec(s: &Vec<char>, d: &Vec<char>) -> (r: Vec<String>)
    requires
        d@.len() > 0,
    ensures
        views(r@) == split_on(s@, d@),
{
    let mut parts: Vec<String> = Vec::new();
    let mut start: usize = 0;
    let mut i: usize = 0;
    while i < s.len() && d.len() <= s.len() - i
        invariant
            start <= i <= s@.len(),
            d@.len() > 0,
            views(parts@) + split_from(s@, d@, start as int, i as int) == split_on(s@, d@),
        decreases s.len() - i,
    {
        if occurs_at_exec(s, d, i) {
            let piece = crate::chars::string_of(s, start, i);
            let ghost before = views(parts@);
            parts.push(piece);
            assert(views(parts@) =~= before.push(piece@));
            i = i + d.len();
            start = i;
            assert(views(parts@) + split_from(s@, d@, start as int, i as int) =~= before + (seq![piece@] + split_from(s@, d@, start as int, i as int)));
        } else {
            i = i + 1;
        }
    }
    let piece = crate::chars::string_of(s, start, s.len());
    let ghost before = views(parts@);
    parts.push(piece);
    assert(views(parts@) =~= before + seq![piece@]);
    parts
}

} // verus!
