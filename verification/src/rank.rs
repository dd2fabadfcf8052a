//! Ranking of the process snapshot: a stable sort, descending by CPU
//! utilization, so that the busiest processes come first and records
//! with equal utilization keep their snapshot order.
use vstd::prelude::*;

use crate::record::{views, ProcessRecord, RecordView};

verus! {

/// Stable descending insertion: `x` goes after every element with
/// `cpu >= x.cpu` and before the first with `cpu < x.cpu`.
pub open spec fn insert_desc(s: Seq<RecordView>, x: RecordView) -> Seq<RecordView>
    decreases s.len(),
{
    if s.len() > 0 && s[0].cpu >= x.cpu {
        seq![s[0]] + insert_desc(s.drop_first(), x)
    } else {
        seq![x] + s
    }
}

/// The ranked order of a snapshot: stable insertion sort, descending
/// by CPU utilization.
pub open spec fn ranked(s: Seq<RecordView>) -> Seq<RecordView>
    decreases s.len(),
{
    if s.len() == 0 {
        Seq::empty()
    } else {
        insert_desc(ranked(s.drop_last()), s.last())
    }
}

/// Non-increasing CPU utilization along the sequence.
pub open spec fn sorted_desc(s: Seq<RecordView>) -> bool {
    forall|i: int, j: int| 0 <= i <= j < s.len() ==> s[i].cpu >= s[j].cpu
}

/// The subsequence of records with CPU utilization exactly `c`, in order.
pub open spec fn with_cpu(s: Seq<RecordView>, c: u32) -> Seq<RecordView> {
    s.filter(|r: RecordView| r.cpu == c)
}

/// When the first `p` elements of `s` have `cpu >= x.cpu` and the rest
/// start below it, the stable insertion is exactly `s.insert(p, x)`.
proof fn lemma_insert_desc_at(s: Seq<RecordView>, x: RecordView, p: int)
    requires
        0 <= p <= s.len(),
        forall|k: int| 0 <= k < p ==> s[k].cpu >= x.cpu,
        p < s.len() ==> s[p].cpu < x.cpu,
    ensures
        insert_desc(s, x) == s.insert(p, x),
    decreases p,
{
    if p == 0 {
        assert(insert_desc(s, x) =~= s.insert(0, x));
    } else {
        assert(s[0].cpu >= x.cpu);
        lemma_insert_desc_at(s.drop_first(), x, p - 1);
        assert(seq![s[0]] + s.drop_first().insert(p - 1, x) =~= s.insert(p, x));
    }
}

/// In a descending sequence, the position where an element with CPU
/// `x.cpu` is stably inserted: just past every element at or above it.
proof fn desc_pos(s: Seq<RecordView>, x: RecordView) -> (p: int)
    requires
        sorted_desc(s),
    ensures
        0 <= p <= s.len(),
        forall|k: int| 0 <= k < p ==> s[k].cpu >= x.cpu,
        p < s.len() ==> s[p].cpu < x.cpu,
        insert_desc(s, x) == s.insert(p, x),
    decreases s.len(),
{
    if s.len() == 0 {
        lemma_insert_desc_at(s, x, 0);
        0
    } else if s[0].cpu < x.cpu {
        lemma_insert_desc_at(s, x, 0);
        0
    } else {
        assert(sorted_desc(s.drop_first()));
        let q = desc_pos(s.drop_first(), x);
        assert forall|k: int| 0 <= k < 1 + q implies s[k].cpu >= x.cpu by {
            if k > 0 {
                assert(s.drop_first()[k - 1].cpu >= x.cpu);
            }
        }
        assert(1 + q < s.len() ==> s.drop_first()[q] == s[1 + q]);
        lemma_insert_desc_at(s, x, 1 + q);
        1 + q
    }
}

/// A filter over a sequence none of whose elements satisfies the
/// predicate is empty.
proof fn lemma_filter_all_false(s: Seq<RecordView>, pred: spec_fn(RecordView) -> bool)
    requires
        forall|i: int| 0 <= i < s.len() ==> !pred(s[i]),
    ensures
        s.filter(pred) == Seq::<RecordView>::empty(),
    decreases s.len(),
{
    reveal(Seq::filter);
    if s.len() > 0 {
        assert(forall|i: int|
            0 <= i < s.drop_last().len() ==> s.drop_last()[i] == s[i] && !pred(s.drop_last()[i]));
        lemma_filter_all_false(s.drop_last(), pred);
    }
    assert(s.filter(pred) =~= Seq::<RecordView>::empty());
}

/// Inserting anywhere adds exactly that element to the multiset.
proof fn lemma_seq_insert_multiset(s: Seq<RecordView>, p: int, x: RecordView)
    requires
        0 <= p <= s.len(),
    ensures
        s.insert(p, x).to_multiset() == s.to_multiset().insert(x),
{
    broadcast use vstd::seq_lib::group_to_multiset_ensures;

    let t = s.insert(p, x);
    assert(t.remove(p) =~= s);
    assert(t[p] == x);
    assert(t.remove(p).to_multiset() =~= t.to_multiset().remove(x));
    assert(t.to_multiset().count(x) > 0) by {
        assert(t.contains(x));
    }
    assert(t.to_multiset() =~= s.to_multiset().insert(x));
}

/// One stable insertion into a descending sequence keeps it descending,
/// adds the element to the multiset, and appends it to the subsequence
/// of its own CPU value while leaving every other such subsequence alone.
proof fn lemma_insert_desc_props(s: Seq<RecordView>, x: RecordView, c: u32)
    requires
        sorted_desc(s),
    ensures
        insert_desc(s, x).len() == s.len() + 1,
        sorted_desc(insert_desc(s, x)),
        insert_desc(s, x).to_multiset() == s.to_multiset().insert(x),
        c == x.cpu ==> with_cpu(insert_desc(s, x), c) == with_cpu(s, c).push(x),
        c != x.cpu ==> with_cpu(insert_desc(s, x), c) == with_cpu(s, c),
{
    broadcast use Seq::filter_distributes_over_add;

    let p = desc_pos(s, x);
    let t = s.insert(p, x);
    assert(t.len() == s.len() + 1);
    assert(sorted_desc(t)) by {
        assert(forall|i: int| 0 <= i < p ==> t[i] == s[i]);
        assert(forall|i: int| p < i < t.len() ==> t[i] == s[i - 1]);
        assert(t[p] == x);
    }
    let pred = |r: RecordView| r.cpu == c;
    let a = s.subrange(0, p);
    let b = s.subrange(p, s.len() as int);
    assert(s =~= a + b);
    assert(t =~= a + (seq![x] + b));
    assert(seq![x].filter(pred) == if pred(x) { seq![x] } else { Seq::<RecordView>::empty() })
        by {
        reveal_with_fuel(Seq::filter, 2);
        assert(seq![x].drop_last() =~= Seq::<RecordView>::empty());
        if pred(x) {
            assert(seq![x].filter(pred) =~= seq![x]);
        } else {
            assert(seq![x].filter(pred) =~= Seq::<RecordView>::empty());
        }
    }
    if c == x.cpu {
        assert(forall|i: int| 0 <= i < b.len() ==> !pred(b[i]));
        lemma_filter_all_false(b, pred);
        assert(t.filter(pred) =~= s.filter(pred).push(x));
    } else {
        assert(t.filter(pred) =~= s.filter(pred));
    }
    lemma_seq_insert_multiset(s, p, x);
}

/// Ranking law: `ranked` returns a permutation of the snapshot that is
/// non-increasing in CPU utilization and stable — for every CPU value,
/// the records carrying it appear in `ranked(s)` exactly as they do in
/// `s`, in the same order.
pub proof fn lemma_ranked_props(s: Seq<RecordView>)
    ensures
        ranked(s).len() == s.len(),
        sorted_desc(ranked(s)),
        ranked(s).to_multiset() == s.to_multiset(),
        forall|c: u32| #[trigger] with_cpu(ranked(s), c) == with_cpu(s, c),
    decreases s.len(),
{
    broadcast use vstd::seq_lib::group_to_multiset_ensures;

    reveal(Seq::filter);
    if s.len() == 0 {
        assert(ranked(s) =~= s);
        assert(forall|c: u32| #[trigger] with_cpu(ranked(s), c) == with_cpu(s, c));
    } else {
        let butlast = s.drop_last();
        let x = s.last();
        lemma_ranked_props(butlast);
        assert forall|c: u32| #[trigger] with_cpu(ranked(s), c) == with_cpu(s, c) by {
            lemma_insert_desc_props(ranked(butlast), x, c);
            let pred = |r: RecordView| r.cpu == c;
            assert(s.filter(pred) == if pred(x) {
                butlast.filter(pred).push(x)
            } else {
                butlast.filter(pred)
            });
        }
        lemma_insert_desc_props(ranked(butlast), x, x.cpu);
        assert(ranked(s).to_multiset() =~= s.to_multiset()) by {
            assert(s.to_multiset() == butlast.push(x).to_multiset()) by {
                assert(butlast.push(x) =~= s);
            }
        }
    }
}

/// Sorts a snapshot for display: stable, descending by CPU utilization.
pub fn rank(v: Vec<ProcessRecord>) -> (out: Vec<ProcessRecord>)
    ensures
        views(out@) == ranked(views(v@)),
{
    let ghost orig = views(v@);
    let mut v = v;
    let mut out: Vec<ProcessRecord> = Vec::new();
    while v.len() > 0
        invariant
            v@.len() <= orig.len(),
            views(v@) == orig.subrange(orig.len() - v@.len(), orig.len() as int),
            views(out@) == ranked(orig.subrange(0, orig.len() - v@.len())),
        decreases v@.len(),
    {
        let ghost done = orig.len() - v@.len();
        let ghost raw = v@;
        let ghost prev = views(v@);
        let x = v.remove(0);
        proof {
            assert(prev[0] == orig[done]);
            assert(x@ == prev[0]);
            assert forall|k: int| 0 <= k < v@.len() implies views(v@)[k] == orig.subrange(
                orig.len() - v@.len(),
                orig.len() as int,
            )[k] by {
                assert(v@[k] == raw[k + 1]);
                assert(views(v@)[k] == views(raw)[k + 1]);
                assert(prev[k + 1] == orig.subrange(done, orig.len() as int)[k + 1]);
            }
            assert(views(v@) =~= orig.subrange(orig.len() - v@.len(), orig.len() as int));
        }
        let ghost sorted_pre = views(out@);
        let mut p: usize = 0;
        while p < out.len() && out[p].cpu >= x.cpu
            invariant
                p <= out@.len(),
                views(out@) == sorted_pre,
                forall|k: int| 0 <= k < p ==> sorted_pre[k].cpu >= x@.cpu,
            decreases out@.len() - p,
        {
            proof {
                assert(sorted_pre[p as int] == out@[p as int]@);
            }
            p += 1;
        }
        let ghost xv = x@;
        out.insert(p, x);
        proof {
            assert(p < sorted_pre.len() ==> sorted_pre[p as int].cpu < xv.cpu);
            lemma_insert_desc_at(sorted_pre, xv, p as int);
            assert(views(out@) =~= sorted_pre.insert(p as int, xv));
            let pre = orig.subrange(0, done);
            let now = orig.subrange(0, done + 1);
            assert(now.drop_last() =~= pre);
            assert(now.last() == orig[done]);
            assert(views(out@) == ranked(now));
        }
    }
    proof {
        assert(orig.subrange(0, orig.len() as int) =~= orig);
    }
    out
}

} // verus!
