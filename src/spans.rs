use vstd::prelude::*;

verus! {

/// Order of spans: by start ascending, and for equal starts by end descending.
pub open spec fn span_before(a: (usize, usize), b: (usize, usize)) -> bool {
    a.0 < b.0 || (a.0 == b.0 && a.1 >= b.1)
}

/// `x` inserted into `s` before the first element that it precedes.
pub open spec fn insert_span(s: Seq<(usize, usize)>, x: (usize, usize)) -> Seq<(usize, usize)>
    decreases s.len(),
{
    if s.len() == 0 || span_before(x, s[0]) {
        seq![x] + s
    } else {
        seq![s[0]] + insert_span(s.drop_first(), x)
    }
}

/// The spans of `s`, sorted by `span_before`.
pub open spec fn sort_spans(s: Seq<(usize, usize)>) -> Seq<(usize, usize)>
    decreases s.len(),
{
    if s.len() == 0 {
        seq![]
    } else {
        insert_span(sort_spans(s.drop_last()), s.last())
    }
}

/// Left-to-right merge of a non-empty span list: the closed spans and the open one.
/// A span that starts strictly before the open span's end is absorbed into it.
pub open spec fn merge_scan(s: Seq<(usize, usize)>) -> (Seq<(usize, usize)>, (usize, usize))
    decreases s.len(),
{
    if s.len() <= 1 {
        (seq![], s[0])
    } else {
        let (done, cur) = merge_scan(s.drop_last());
        let x = s.last();
        if x.0 < cur.1 {
            if x.1 > cur.1 {
                (done, (cur.0, x.1))
            } else {
                (done, cur)
            }
        } else {
            (done.push(cur), x)
        }
    }
}

/// The merge of a span list taken in the given order.
pub open spec fn merge_in_order(s: Seq<(usize, usize)>) -> Seq<(usize, usize)> {
    if s.len() == 0 {
        seq![]
    } else {
        let (done, cur) = merge_scan(s);
        done.push(cur)
    }
}

/// Spans sorted, then strictly overlapping ones merged into their union.
pub open spec fn merged_spans(s: Seq<(usize, usize)>) -> Seq<(usize, usize)> {
    merge_in_order(sort_spans(s))
}

/// Every span is well formed and ends by `n`.
pub open spec fn spans_within(s: Seq<(usize, usize)>, n: int) -> bool {
    forall|k: int| 0 <= k < s.len() ==> (#[trigger] s[k]).0 <= s[k].1 && s[k].1 <= n
}

/// Spans in strictly left-to-right order: each ends no later than the next begins.
pub open spec fn ordered_disjoint(s: Seq<(usize, usize)>) -> bool {
    forall|k: int| 0 <= k < s.len() - 1 ==> (#[trigger] s[k]).1 <= s[k + 1].0
}

proof fn lemma_insert_span_elems(s: Seq<(usize, usize)>, x: (usize, usize), n: int)
    requires
        spans_within(s, n),
        x.0 <= x.1 && x.1 <= n,
    ensures
        spans_within(insert_span(s, x), n),
        insert_span(s, x).len() == s.len() + 1,
    decreases s.len(),
{
    if s.len() == 0 || span_before(x, s[0]) {
        let r = seq![x] + s;
        assert forall|k: int| 0 <= k < r.len() implies (#[trigger] r[k]).0 <= r[k].1 && r[k].1 <= n by {
            if k > 0 {
                assert(r[k] == s[k - 1]);
            }
        }
    } else {
        lemma_insert_span_elems(s.drop_first(), x, n);
        let t = insert_span(s.drop_first(), x);
        let r = seq![s[0]] + t;
        assert forall|k: int| 0 <= k < r.len() implies (#[trigger] r[k]).0 <= r[k].1 && r[k].1 <= n by {
            if k > 0 {
                assert(r[k] == t[k - 1]);
            }
        }
    }
}

proof fn lemma_sort_spans_elems(s: Seq<(usize, usize)>, n: int)
    requires
        spans_within(s, n),
    ensures
        spans_within(sort_spans(s), n),
        sort_spans(s).len() == s.len(),
    decreases s.len(),
{
    if s.len() > 0 {
        assert(spans_within(s.drop_last(), n)) by {
            assert forall|k: int| 0 <= k < s.drop_last().len() implies (#[trigger] s.drop_last()[k]).0
                <= s.drop_last()[k].1 && s.drop_last()[k].1 <= n by {
                assert(s.drop_last()[k] == s[k]);
            }
        }
        lemma_sort_spans_elems(s.drop_last(), n);
        assert(s.last() == s[s.len() - 1]);
        lemma_insert_span_elems(sort_spans(s.drop_last()), s.last(), n);
    }
}

proof fn lemma_merge_scan_ordered(s: Seq<(usize, usize)>, n: int)
    requires
        s.len() > 0,
        spans_within(s, n),
    ensures
        ({
            let (done, cur) = merge_scan(s);
            &&& spans_within(done.push(cur), n)
            &&& ordered_disjoint(done.push(cur))
        }),
    decreases s.len(),
{
    if s.len() <= 1 {
        let (done, cur) = merge_scan(s);
        assert(cur == s[0]);
        assert(done.push(cur) =~= seq![s[0]]);
    } else {
        let p = s.drop_last();
        assert(spans_within(p, n)) by {
            assert forall|k: int| 0 <= k < p.len() implies (#[trigger] p[k]).0 <= p[k].1 && p[k].1 <= n by {
                assert(p[k] == s[k]);
            }
        }
        lemma_merge_scan_ordered(p, n);
        let (done, cur) = merge_scan(p);
        let x = s.last();
        assert(x == s[s.len() - 1]);
        let prev_all = done.push(cur);
        assert(prev_all[prev_all.len() - 1] == cur);
        if x.0 < cur.1 {
            let nc: (usize, usize) = if x.1 > cur.1 { (cur.0, x.1) } else { cur };
            let r = done.push(nc);
            assert forall|k: int| 0 <= k < r.len() implies (#[trigger] r[k]).0 <= r[k].1 && r[k].1 <= n by {
                if k < done.len() {
                    assert(r[k] == prev_all[k]);
                }
            }
            assert forall|k: int| 0 <= k < r.len() - 1 implies (#[trigger] r[k]).1 <= r[k + 1].0 by {
                assert(r[k] == prev_all[k]);
                if k + 1 < done.len() {
                    assert(r[k + 1] == prev_all[k + 1]);
                } else {
                    assert(prev_all[k + 1] == cur);
                }
            }
        } else {
            let r = prev_all.push(x);
            assert forall|k: int| 0 <= k < r.len() implies (#[trigger] r[k]).0 <= r[k].1 && r[k].1 <= n by {
                if k < prev_all.len() {
                    assert(r[k] == prev_all[k]);
                }
            }
            assert forall|k: int| 0 <= k < r.len() - 1 implies (#[trigger] r[k]).1 <= r[k + 1].0 by {
                assert(r[k] == prev_all[k]);
                if k + 1 < prev_all.len() {
                    assert(r[k + 1] == prev_all[k + 1]);
                }
            }
        }
    }
}

/// Merged spans come in strictly left-to-right order, each well formed and within
/// the text, whatever order the matches were found in.
pub proof fn lemma_merged_spans_ordered(s: Seq<(usize, usize)>, n: int)
    requires
        spans_within(s, n),
    ensures
        spans_within(merged_spans(s), n),
        ordered_disjoint(merged_spans(s)),
{
    lemma_sort_spans_elems(s, n);
    if s.len() > 0 {
        lemma_merge_scan_ordered(sort_spans(s), n);
    }
}

proof fn lemma_insert_at(s: Seq<(usize, usize)>, x: (usize, usize), k: int)
    requires
        0 <= k <= s.len(),
        forall|j: int| 0 <= j < k ==> !span_before(x, #[trigger] s[j]),
        k == s.len() || span_before(x, s[k]),
    ensures
        insert_span(s, x) == s.insert(k, x),
    decreases k,
{
    if k == 0 {
        assert(seq![x] + s =~= s.insert(0, x));
    } else {
        assert(!span_before(x, s[0]));
        let t = s.drop_first();
        assert forall|j: int| 0 <= j < k - 1 implies !span_before(x, #[trigger] t[j]) by {
            assert(t[j] == s[j + 1]);
        }
        if k - 1 < t.len() {
            assert(t[k - 1] == s[k]);
        }
        lemma_insert_at(t, x, k - 1);
        assert(seq![s[0]] + t.insert(k - 1, x) =~= s.insert(k, x));
    }
}

/// Sorts spans by start ascending, then end descending (insertion sort).
pub fn sort_spans_exec(spans: &Vec<(usize, usize)>) -> (r: Vec<(usize, usize)>)
    ensures
        r@ == sort_spans(spans@),
{
    let mut r: Vec<(usize, usize)> = Vec::new();
    let mut i: usize = 0;
    while i < spans.len()
        invariant
            i <= spans@.len(),
            r@ == sort_spans(spans@.subrange(0, i as int)),
        decreases spans.len() - i,
    {
        let x = spans[i];
        let mut k: usize = 0;
        while k < r.len() && !(x.0 < r[k].0 || (x.0 == r[k].0 && x.1 >= r[k].1))
            invariant
                k <= r@.len(),
                forall|j: int| 0 <= j < k ==> !span_before(x, #[trigger] r@[j]),
            decreases r.len() - k,
        {
            k += 1;
        }
        proof {
            lemma_insert_at(r@, x, k as int);
            assert(spans@.subrange(0, i + 1).drop_last() =~= spans@.subrange(0, i as int));
            assert(spans@.subrange(0, i + 1).last() == x);
        }
        r.insert(k, x);
        i += 1;
    }
    assert(spans@.subrange(0, spans@.len() as int) =~= spans@);
    r
}

/// Sorts spans and merges the strictly overlapping ones into their union; spans that
/// only touch stay apart.
pub fn merge_overlapping_spans(spans: Vec<(usize, usize)>) -> (r: Vec<(usize, usize)>)
    ensures
        r@ == merged_spans(spans@),
{
    let sorted = sort_spans_exec(&spans);
    if sorted.len() == 0 {
        return Vec::new();
    }
    let mut merged: Vec<(usize, usize)> = Vec::new();
    let mut current = sorted[0];
    assert(sorted@.subrange(0, 1).len() == 1);
    assert(sorted@.subrange(0, 1)[0] == sorted@[0]);
    let mut i: usize = 1;
    while i < sorted.len()
        invariant
            1 <= i <= sorted@.len(),
            (merged@, current) == merge_scan(sorted@.subrange(0, i as int)),
        decreases sorted.len() - i,
    {
        let span = sorted[i];
        assert(sorted@.subrange(0, i + 1).drop_last() =~= sorted@.subrange(0, i as int));
        assert(sorted@.subrange(0, i + 1).last() == span);
        if span.0 < current.1 {
            if span.1 > current.1 {
                current = (current.0, span.1);
            }
        } else {
            merged.push(current);
            current = span;
        }
        i += 1;
    }
    assert(sorted@.subrange(0, sorted@.len() as int) =~= sorted@);
    merged.push(current);
    merged
}

/// Spans sorted by start.
pub open spec fn starts_sorted(s: Seq<(usize, usize)>) -> bool {
    forall|i: int, j: int| 0 <= i < j < s.len() ==> (#[trigger] s[i]).0 <= (#[trigger] s[j]).0
}

/// Some span of `m` covers `y`.
pub open spec fn covered(m: Seq<(usize, usize)>, y: (usize, usize)) -> bool {
    exists|k: int| 0 <= k < m.len() && (#[trigger] m[k]).0 <= y.0 && y.1 <= m[k].1
}

proof fn lemma_insert_span_sorted(s: Seq<(usize, usize)>, x: (usize, usize))
    requires
        starts_sorted(s),
    ensures
        starts_sorted(insert_span(s, x)),
        insert_span(s, x).contains(x),
        forall|y: (usize, usize)| s.contains(y) ==> insert_span(s, x).contains(y),
        forall|k: int| 0 <= k < insert_span(s, x).len() ==> (#[trigger] insert_span(s, x)[k] == x
            || s.contains(insert_span(s, x)[k])),
    decreases s.len(),
{
    let r = insert_span(s, x);
    if s.len() == 0 || span_before(x, s[0]) {
        assert(r == seq![x] + s);
        assert(r[0] == x);
        assert forall|k: int| 0 < k < r.len() implies r[k] == s[k - 1] by {}
        assert forall|y: (usize, usize)| s.contains(y) implies r.contains(y) by {
            let j = choose|j: int| 0 <= j < s.len() && s[j] == y;
            assert(r[j + 1] == y);
        }
        assert forall|k: int| 0 <= k < r.len() implies (#[trigger] r[k] == x || s.contains(r[k])) by {
            if k > 0 {
                assert(s[k - 1] == r[k]);
            }
        }
        assert forall|i: int, j: int| 0 <= i < j < r.len() implies (#[trigger] r[i]).0 <= (#[trigger] r[j]).0 by {
            if i > 0 {
                assert(r[i] == s[i - 1] && r[j] == s[j - 1]);
            } else if s.len() > 0 {
                assert(r[j] == s[j - 1]);
                assert(s[0].0 <= s[j - 1].0);
            }
        }
    } else {
        let t = s.drop_first();
        assert(starts_sorted(t)) by {
            assert forall|i: int, j: int| 0 <= i < j < t.len() implies (#[trigger] t[i]).0 <= (#[trigger] t[j]).0 by {
                assert(t[i] == s[i + 1] && t[j] == s[j + 1]);
            }
        }
        lemma_insert_span_sorted(t, x);
        let u = insert_span(t, x);
        assert(r == seq![s[0]] + u);
        assert(r[0] == s[0]);
        assert forall|k: int| 0 < k < r.len() implies r[k] == u[k - 1] by {}
        assert(s.contains(s[0]));
        let ix = choose|j: int| 0 <= j < u.len() && u[j] == x;
        assert(r[ix + 1] == x);
        assert forall|y: (usize, usize)| s.contains(y) implies r.contains(y) by {
            let j = choose|j: int| 0 <= j < s.len() && s[j] == y;
            if j == 0 {
                assert(r[0] == y);
            } else {
                assert(t[j - 1] == y);
                assert(t.contains(y));
                let m = choose|m: int| 0 <= m < u.len() && u[m] == y;
                assert(r[m + 1] == y);
            }
        }
        assert forall|k: int| 0 <= k < r.len() implies (#[trigger] r[k] == x || s.contains(r[k])) by {
            if k > 0 {
                assert(r[k] == u[k - 1]);
                if u[k - 1] != x {
                    assert(t.contains(u[k - 1]));
                    let j = choose|j: int| 0 <= j < t.len() && t[j] == u[k - 1];
                    assert(s[j + 1] == r[k]);
                }
            } else {
                assert(s[0] == r[0]);
            }
        }
        assert forall|i: int, j: int| 0 <= i < j < r.len() implies (#[trigger] r[i]).0 <= (#[trigger] r[j]).0 by {
            if i > 0 {
                assert(r[i] == u[i - 1] && r[j] == u[j - 1]);
            } else {
                assert(r[j] == u[j - 1]);
                if u[j - 1] == x {
                    assert(!span_before(x, s[0]));
                } else {
                    assert(t.contains(u[j - 1]));
                    let m = choose|m: int| 0 <= m < t.len() && t[m] == u[j - 1];
                    assert(s[m + 1] == u[j - 1]);
                    assert(s[0].0 <= s[m + 1].0);
                }
            }
        }
    }
}

proof fn lemma_sort_spans_sorted(s: Seq<(usize, usize)>)
    ensures
        starts_sorted(sort_spans(s)),
        forall|y: (usize, usize)| s.contains(y) ==> sort_spans(s).contains(y),
    decreases s.len(),
{
    if s.len() > 0 {
        let p = s.drop_last();
        lemma_sort_spans_sorted(p);
        lemma_insert_span_sorted(sort_spans(p), s.last());
        assert forall|y: (usize, usize)| s.contains(y) implies sort_spans(s).contains(y) by {
            let j = choose|j: int| 0 <= j < s.len() && s[j] == y;
            if j < s.len() - 1 {
                assert(p[j] == y);
                assert(p.contains(y));
            }
        }
    }
}

proof fn lemma_merge_scan_covers(s: Seq<(usize, usize)>)
    requires
        s.len() > 0,
        starts_sorted(s),
    ensures
        ({
            let (done, cur) = merge_scan(s);
            &&& cur.0 <= s.last().0
            &&& forall|i: int| 0 <= i < s.len() ==> covered(done.push(cur), #[trigger] s[i])
        }),
    decreases s.len(),
{
    let (done, cur) = merge_scan(s);
    if s.len() <= 1 {
        assert(done.push(cur)[0] == s[0]);
        assert(covered(done.push(cur), s[0]));
    } else {
        let p = s.drop_last();
        assert(starts_sorted(p)) by {
            assert forall|i: int, j: int| 0 <= i < j < p.len() implies (#[trigger] p[i]).0 <= (#[trigger] p[j]).0 by {
                assert(p[i] == s[i] && p[j] == s[j]);
            }
        }
        lemma_merge_scan_covers(p);
        let (pd, pc) = merge_scan(p);
        let x = s.last();
        let prev_all = pd.push(pc);
        let all = done.push(cur);
        assert(p.last() == s[s.len() - 2]);
        assert(s[s.len() - 2].0 <= s[s.len() - 1].0);
        if x.0 < pc.1 {
            assert(done == pd);
            assert(cur.0 == pc.0 && cur.1 >= pc.1);
            assert(all[all.len() - 1] == cur);
            assert forall|i: int| 0 <= i < s.len() implies covered(all, #[trigger] s[i]) by {
                if i < s.len() - 1 {
                    assert(p[i] == s[i]);
                    assert(covered(prev_all, p[i]));
                    let k = choose|k: int| 0 <= k < prev_all.len() && (#[trigger] prev_all[k]).0 <= p[i].0 && p[i].1
                        <= prev_all[k].1;
                    if k < pd.len() {
                        assert(all[k] == prev_all[k]);
                    } else {
                        assert(prev_all[k] == pc);
                    }
                } else {
                    assert(s[i] == x);
                }
            }
        } else {
            assert(done == prev_all);
            assert(cur == x);
            assert forall|i: int| 0 <= i < s.len() implies covered(all, #[trigger] s[i]) by {
                if i < s.len() - 1 {
                    assert(p[i] == s[i]);
                    assert(covered(prev_all, p[i]));
                    let k = choose|k: int| 0 <= k < prev_all.len() && (#[trigger] prev_all[k]).0 <= p[i].0 && p[i].1
                        <= prev_all[k].1;
                    assert(all[k] == prev_all[k]);
                } else {
                    assert(s[i] == x);
                    assert(all[all.len() - 1] == x);
                }
            }
        }
    }
}

/// Every span is covered by one merged span: merging loses no protected text.
pub proof fn lemma_merged_spans_cover(s: Seq<(usize, usize)>)
    ensures
        forall|i: int| 0 <= i < s.len() ==> covered(merged_spans(s), #[trigger] s[i]),
{
    lemma_sort_spans_sorted(s);
    let t = sort_spans(s);
    if s.len() > 0 {
        assert(s.contains(s[0]));
        assert(t.len() > 0);
        lemma_merge_scan_covers(t);
        assert forall|i: int| 0 <= i < s.len() implies covered(merged_spans(s), #[trigger] s[i]) by {
            assert(s.contains(s[i]));
            let j = choose|j: int| 0 <= j < t.len() && t[j] == s[i];
            assert(covered(merged_spans(s), t[j]));
        }
    }
}

} // verus!
