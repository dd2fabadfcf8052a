//! Narrowing the ranked snapshot by the live query: a record survives
//! iff some displayed cell, lowercased, contains the lowercased query
//! as a substring. Filtering runs after ranking, so survivors keep
//! their ranked order.
use vstd::prelude::*;

use crate::record::{pid_text, record_matches, record_matches_exec, views, ProcessRecord, RecordView};
use crate::text::{lower, match_at, to_lower};

verus! {

/// The rows of `s` that the query `q` retains, in order.
pub open spec fn filtered(s: Seq<RecordView>, q: Seq<u8>) -> Seq<RecordView> {
    s.filter(|r: RecordView| record_matches(r, lower(q)))
}

/// Retains the records some displayed cell of which contains the query,
/// case-insensitively, preserving order.
pub fn filter_records(v: Vec<ProcessRecord>, query: &Vec<u8>) -> (out: Vec<ProcessRecord>)
    ensures
        views(out@) == filtered(views(v@), query@),
{
    let lq = to_lower(query);
    let ghost orig = views(v@);
    let mut v = v;
    let mut out: Vec<ProcessRecord> = Vec::new();
    while v.len() > 0
        invariant
            lq@ == lower(query@),
            v@.len() <= orig.len(),
            views(v@) == orig.subrange(orig.len() - v@.len(), orig.len() as int),
            views(out@) == filtered(orig.subrange(0, orig.len() - v@.len()), query@),
        decreases v@.len(),
    {
        let ghost done = orig.len() - v@.len();
        let ghost raw = v@;
        let ghost prev = views(v@);
        let x = v.remove(0);
        proof {
            assert(prev[0] == orig[done]);
            assert(x@ == prev[0]);
            assert forall|k: int| 0 <= k < v@.len() implies views(v@)[k] == orig.subrange(
                orig.len() - v@.len(),
                orig.len() as int,
            )[k] by {
                assert(v@[k] == raw[k + 1]);
                assert(views(v@)[k] == views(raw)[k + 1]);
                assert(prev[k + 1] == orig.subrange(done, orig.len() as int)[k + 1]);
            }
            assert(views(v@) =~= orig.subrange(orig.len() - v@.len(), orig.len() as int));
        }
        let ghost kept = views(out@);
        let retain = record_matches_exec(&x, &lq);
        let ghost xv = x@;
        if retain {
            out.push(x);
        }
        proof {
            reveal(Seq::filter);
            let pre = orig.subrange(0, done);
            let now = orig.subrange(0, done + 1);
            assert(now.drop_last() =~= pre);
            assert(now.last() == orig[done]);
            if retain {
                assert(views(out@) =~= kept.push(xv));
            }
            assert(views(out@) == filtered(now, query@));
        }
    }
    proof {
        assert(orig.subrange(0, orig.len() as int) =~= orig);
    }
    out
}

/// Filter law: every retained row matches the query, and every row of
/// the snapshot that matches the query is retained — no false
/// positives, no false negatives.
pub proof fn lemma_filter_correct(s: Seq<RecordView>, q: Seq<u8>)
    ensures
        forall|i: int|
            0 <= i < filtered(s, q).len() ==> record_matches(
                #[trigger] filtered(s, q)[i],
                lower(q),
            ),
        forall|i: int|
            0 <= i < s.len() && record_matches(#[trigger] s[i], lower(q)) ==> filtered(
                s,
                q,
            ).contains(s[i]),
{
    let pred = |r: RecordView| record_matches(r, lower(q));
    assert forall|i: int| 0 <= i < filtered(s, q).len() implies record_matches(
        #[trigger] filtered(s, q)[i],
        lower(q),
    ) by {
        s.lemma_filter_pred(pred, i);
    }
    assert forall|i: int|
        0 <= i < s.len() && record_matches(#[trigger] s[i], lower(q)) implies filtered(
        s,
        q,
    ).contains(s[i]) by {
        s.lemma_filter_contains(pred, i);
    }
}

/// Filter law: the survivors form an in-order subsequence of the input
/// — the returned index sequence locates each retained row in the
/// input, strictly increasing, so filtering after ranking preserves
/// the ranked order.
pub proof fn lemma_filter_preserves_order(s: Seq<RecordView>, q: Seq<u8>) -> (idx: Seq<int>)
    ensures
        idx.len() == filtered(s, q).len(),
        forall|a: int, b: int| 0 <= a < b < idx.len() ==> idx[a] < idx[b],
        forall|a: int|
            0 <= a < idx.len() ==> 0 <= #[trigger] idx[a] < s.len() && filtered(s, q)[a]
                == s[idx[a]],
    decreases s.len(),
{
    reveal(Seq::filter);
    if s.len() == 0 {
        Seq::empty()
    } else {
        let sub = lemma_filter_preserves_order(s.drop_last(), q);
        assert(forall|i: int| 0 <= i < s.len() - 1 ==> s.drop_last()[i] == s[i]);
        if record_matches(s.last(), lower(q)) {
            let idx = sub.push(s.len() - 1);
            assert(filtered(s, q) == filtered(s.drop_last(), q).push(s.last()));
            assert forall|a: int|
                0 <= a < idx.len() implies 0 <= #[trigger] idx[a] < s.len() && filtered(s, q)[a]
                == s[idx[a]] by {
                if a < idx.len() - 1 {
                    assert(idx[a] == sub[a]);
                    assert(filtered(s, q)[a] == filtered(s.drop_last(), q)[a]);
                }
            }
            idx
        } else {
            assert(filtered(s, q) == filtered(s.drop_last(), q));
            sub
        }
    }
}

/// Every record matches the empty query: its pid cell contains the
/// empty string at position zero.
proof fn lemma_empty_query_matches(r: RecordView, q: Seq<u8>)
    requires
        q.len() == 0,
    ensures
        record_matches(r, lower(q)),
{
    let cell = lower(pid_text(r.pid));
    assert(cell.subrange(0, 0) =~= lower(q));
    assert(match_at(cell, lower(q), 0));
}

/// Filter law: the empty query retains the ranked sequence unchanged.
pub proof fn lemma_filter_empty_query(s: Seq<RecordView>, q: Seq<u8>)
    requires
        q.len() == 0,
    ensures
        filtered(s, q) == s,
    decreases s.len(),
{
    reveal(Seq::filter);
    if s.len() > 0 {
        lemma_filter_empty_query(s.drop_last(), q);
        lemma_empty_query_matches(s.last(), q);
        assert(filtered(s, q) =~= s);
    } else {
        assert(filtered(s, q) =~= s);
    }
}

} // verus!
