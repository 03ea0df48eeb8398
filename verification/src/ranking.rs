//! The ranking algorithm: a stable sort of the registry by score,
//! descending.  Entries with equal score keep their relative registration
//! order — this tie-break is part of the contract, because it decides who is
//! paid when scores tie.

use vstd::prelude::*;

use crate::model::AgentEntry;
use crate::model::AgentEntryV;
use crate::model::clone_entry;
use crate::model::views_of;

verus! {

/// Scores never increase along the sequence.
pub open spec fn sorted_desc(s: Seq<AgentEntryV>) -> bool {
    forall|i: int, j: int| 0 <= i < j < s.len() ==> s[i].final_roi >= s[j].final_roi
}

/// Where a stable descending insertion places `e` in `s`: after every entry
/// whose score is at least `e`'s, before the first entry whose score is
/// strictly below.
pub open spec fn insert_pos(e: AgentEntryV, s: Seq<AgentEntryV>) -> int
    decreases s.len(),
{
    if s.len() == 0 {
        0
    } else if e.final_roi > s[0].final_roi {
        0
    } else {
        1 + insert_pos(e, s.drop_first())
    }
}

/// `s` with `e` inserted at its stable position.
pub open spec fn insert_desc(e: AgentEntryV, s: Seq<AgentEntryV>) -> Seq<AgentEntryV>
    decreases s.len(),
{
    if s.len() == 0 {
        seq![e]
    } else if e.final_roi > s[0].final_roi {
        seq![e] + s
    } else {
        seq![s[0]] + insert_desc(e, s.drop_first())
    }
}

/// The ranked order of a registry: each entry, in registration order,
/// inserted at its stable position.  This is the unique stable descending
/// sort of `s` by score.
pub open spec fn rank_of(s: Seq<AgentEntryV>) -> Seq<AgentEntryV>
    decreases s.len(),
{
    if s.len() == 0 {
        Seq::empty()
    } else {
        insert_desc(s.last(), rank_of(s.drop_last()))
    }
}

/// The entries of `s` whose score is exactly `v`, in order.
pub open spec fn roi_is(v: i64) -> spec_fn(AgentEntryV) -> bool {
    |x: AgentEntryV| x.final_roi == v
}

/// `insert_pos` is the boundary it claims to be, and `insert_desc` inserts
/// exactly there.
pub proof fn lemma_insert_desc_splits(e: AgentEntryV, s: Seq<AgentEntryV>)
    ensures
        0 <= insert_pos(e, s) <= s.len(),
        forall|k: int| 0 <= k < insert_pos(e, s) ==> s[k].final_roi >= e.final_roi,
        insert_pos(e, s) < s.len() ==> s[insert_pos(e, s)].final_roi < e.final_roi,
        insert_desc(e, s) == s.insert(insert_pos(e, s), e),
    decreases s.len(),
{
    let p = insert_pos(e, s);
    if s.len() == 0 {
        assert(insert_desc(e, s) =~= s.insert(0, e));
    } else if e.final_roi > s[0].final_roi {
        assert(insert_desc(e, s) =~= s.insert(0, e));
    } else {
        let d = s.drop_first();
        lemma_insert_desc_splits(e, d);
        let q = insert_pos(e, d);
        assert(forall|k: int| 0 <= k < p ==> s[k].final_roi >= e.final_roi) by {
            assert(forall|k: int| 1 <= k < p ==> s[k].final_roi == d[k - 1].final_roi);
        }
        assert(p < s.len() ==> s[p].final_roi < e.final_roi) by {
            if p < s.len() {
                assert(s[p] == d[q]);
            }
        }
        assert(insert_desc(e, s) =~= s.insert(p, e)) by {
            assert(insert_desc(e, s) == seq![s[0]] + d.insert(q, e));
        }
    }
}

/// Inserting into a sorted sequence keeps it sorted.
pub proof fn lemma_insert_desc_sorted(e: AgentEntryV, s: Seq<AgentEntryV>)
    requires
        sorted_desc(s),
    ensures
        sorted_desc(insert_desc(e, s)),
{
    lemma_insert_desc_splits(e, s);
    let p = insert_pos(e, s);
    let r = insert_desc(e, s);
    assert forall|i: int, j: int| 0 <= i < j < r.len() implies r[i].final_roi
        >= r[j].final_roi by {
        if i < p {
            assert(r[i] == s[i]);
        } else if i == p {
            assert(r[i] == e);
        } else {
            assert(r[i] == s[i - 1]);
        }
        if j < p {
            assert(r[j] == s[j]);
        } else if j == p {
            assert(r[j] == e);
        } else {
            assert(r[j] == s[j - 1]);
        }
    }
}

/// Inserting adds exactly the inserted entry to the contents.
pub proof fn lemma_insert_desc_multiset(e: AgentEntryV, s: Seq<AgentEntryV>)
    ensures
        insert_desc(e, s).to_multiset() == s.to_multiset().insert(e),
{
    lemma_insert_desc_splits(e, s);
    vstd::seq_lib::to_multiset_insert(s, insert_pos(e, s), e);
}

/// Inserting an entry scored `v` appends it to the `v`-scored subsequence;
/// every other score's subsequence is untouched.
pub proof fn lemma_insert_desc_filter(e: AgentEntryV, s: Seq<AgentEntryV>, v: i64)
    requires
        sorted_desc(s),
    ensures
        insert_desc(e, s).filter(roi_is(v)) == if e.final_roi == v {
            s.filter(roi_is(v)).push(e)
        } else {
            s.filter(roi_is(v))
        },
{
    let pred = roi_is(v);
    lemma_insert_desc_splits(e, s);
    let p = insert_pos(e, s);
    let front = s.take(p);
    let back = s.skip(p);
    assert(front == s.subrange(0, p));
    assert(back == s.subrange(p, s.len() as int));
    assert(insert_desc(e, s) == front.push(e) + back);
    assert(front.push(e) == front + seq![e]) by {
        assert(front.push(e) =~= front + seq![e]);
    }
    Seq::filter_distributes_over_add(front, seq![e], pred);
    Seq::filter_distributes_over_add(front + seq![e], back, pred);
    assert(s == front + back) by {
        assert(front + back =~= s);
    }
    Seq::filter_distributes_over_add(front, back, pred);
    assert(seq![e] == Seq::empty().push(e)) by {
        assert(seq![e] =~= Seq::<AgentEntryV>::empty().push(e));
    }
    Seq::empty().lemma_filter_push(e, pred);
    assert(Seq::<AgentEntryV>::empty().filter(pred) == Seq::<AgentEntryV>::empty()) by {
        reveal(Seq::filter);
    }
    if e.final_roi == v {
        // Nothing past the insertion point can score `v`: the sequence is
        // sorted and the entry there scores strictly below `e`.
        assert(back.all(|x: AgentEntryV| !pred(x))) by {
            assert forall|x: AgentEntryV| back.contains(x) implies !pred(x) by {
                let k = choose|k: int| 0 <= k < back.len() && back[k] == x;
                assert(back[k] == s[p + k]);
                if p + k > p {
                    assert(s[p].final_roi >= s[p + k].final_roi);
                }
            }
        }
        back.lemma_all_neg_filter_empty(pred);
        assert(back.filter(pred).len() == 0);
        assert(insert_desc(e, s).filter(pred) =~= s.filter(pred).push(e)) by {
            assert(insert_desc(e, s).filter(pred) == front.filter(pred) + seq![e].filter(pred)
                + back.filter(pred));
            assert(seq![e].filter(pred) == Seq::<AgentEntryV>::empty().push(e));
            assert(s.filter(pred) == front.filter(pred) + back.filter(pred));
            assert(s.filter(pred) =~= front.filter(pred));
        }
    } else {
        assert(seq![e].filter(pred).len() == 0);
        assert(insert_desc(e, s).filter(pred) =~= s.filter(pred)) by {
            assert(insert_desc(e, s).filter(pred) == front.filter(pred) + seq![e].filter(pred)
                + back.filter(pred));
            assert(s.filter(pred) == front.filter(pred) + back.filter(pred));
        }
    }
}

/// Ranking neither adds nor drops entries: the ranked order has the
/// registry's length.
pub proof fn lemma_rank_of_len(s: Seq<AgentEntryV>)
    ensures
        rank_of(s).len() == s.len(),
    decreases s.len(),
{
    if s.len() > 0 {
        let d = s.drop_last();
        lemma_rank_of_len(d);
        lemma_insert_desc_splits(s.last(), rank_of(d));
    }
}

/// The ranked order is sorted by score, descending.
pub proof fn lemma_rank_of_sorted(s: Seq<AgentEntryV>)
    ensures
        sorted_desc(rank_of(s)),
    decreases s.len(),
{
    if s.len() > 0 {
        lemma_rank_of_sorted(s.drop_last());
        lemma_insert_desc_sorted(s.last(), rank_of(s.drop_last()));
    }
}

/// The ranked order holds exactly the entries of the registry: nothing is
/// added, dropped or duplicated by ranking.
pub proof fn lemma_rank_of_permutation(s: Seq<AgentEntryV>)
    ensures
        rank_of(s).to_multiset() == s.to_multiset(),
    decreases s.len(),
{
    if s.len() == 0 {
        assert(rank_of(s) =~= s);
    } else {
        let d = s.drop_last();
        lemma_rank_of_permutation(d);
        lemma_insert_desc_multiset(s.last(), rank_of(d));
        vstd::seq_lib::to_multiset_build(d, s.last());
        assert(d.push(s.last()) =~= s);
        assert(rank_of(s).to_multiset() == rank_of(d).to_multiset().insert(s.last()));
        assert(d.push(s.last()).to_multiset() =~= d.to_multiset().insert(s.last()));
    }
}

/// Stability of the ranking: for every score `v`, the entries scored `v`
/// appear in the ranked order exactly as they appear in registration order.
pub proof fn lemma_rank_of_stable(s: Seq<AgentEntryV>, v: i64)
    ensures
        rank_of(s).filter(roi_is(v)) == s.filter(roi_is(v)),
    decreases s.len(),
{
    let pred = roi_is(v);
    if s.len() == 0 {
    } else {
        let d = s.drop_last();
        let e = s.last();
        lemma_rank_of_stable(d, v);
        lemma_rank_of_sorted(d);
        lemma_insert_desc_filter(e, rank_of(d), v);
        d.lemma_filter_push(e, pred);
        assert(d.push(e) =~= s);
    }
}

/// With every score equal — before any score has been recorded, say — the
/// ranked order degrades to pure registration order.
pub proof fn lemma_rank_of_constant_scores(s: Seq<AgentEntryV>, v: i64)
    requires
        forall|k: int| 0 <= k < s.len() ==> s[k].final_roi == v,
    ensures
        rank_of(s) == s,
    decreases s.len(),
{
    if s.len() > 0 {
        let d = s.drop_last();
        lemma_rank_of_constant_scores(d, v);
        lemma_insert_desc_splits(s.last(), d);
        let p = insert_pos(s.last(), d);
        if p < d.len() {
            assert(d[p].final_roi == v);
        }
        assert(d.insert(d.len() as int, s.last()) =~= s);
    }
}

/// Place `e` at its stable position in the already ranked `r`.
fn insert_ranked(r: &mut Vec<AgentEntry>, e: AgentEntry)
    ensures
        views_of(final(r)@) == insert_desc(e@, views_of(old(r)@)),
{
    let ghost vs = views_of(old(r)@);
    let mut j: usize = 0;
    while j < r.len() && r[j].final_roi >= e.final_roi
        invariant
            j <= r.len(),
            *r == *old(r),
            forall|k: int| 0 <= k < j ==> views_of(r@)[k].final_roi >= e.final_roi,
        decreases r.len() - j,
    {
        j += 1;
    }
    proof {
        lemma_insert_desc_splits(e@, vs);
        let p = insert_pos(e@, vs);
        if j < p {
            assert(vs[j as int].final_roi >= e@.final_roi);
        }
        if p < j {
            assert(vs[p].final_roi >= e@.final_roi);
        }
        assert(j == p);
    }
    r.insert(j, e);
    proof {
        assert(views_of(r@) =~= vs.insert(j as int, e@));
    }
}

/// A ranked copy of the registry: the entries in stable descending score
/// order, the registry itself untouched.
pub fn ranked_copy(agents: &Vec<AgentEntry>) -> (r: Vec<AgentEntry>)
    ensures
        views_of(r@) == rank_of(views_of(agents@)),
{
    let ghost vs = views_of(agents@);
    let mut r: Vec<AgentEntry> = Vec::new();
    let mut i: usize = 0;
    proof {
        assert(views_of(r@) =~= rank_of(vs.take(0)));
    }
    while i < agents.len()
        invariant
            i <= agents.len(),
            views_of(r@) == rank_of(views_of(agents@).take(i as int)),
        decreases agents.len() - i,
    {
        let e = clone_entry(&agents[i]);
        proof {
            assert(e@ == views_of(agents@)[i as int]);
        }
        insert_ranked(&mut r, e);
        proof {
            let taken = views_of(agents@).take(i as int + 1);
            assert(taken.drop_last() =~= views_of(agents@).take(i as int));
            assert(taken.last() == views_of(agents@)[i as int]);
        }
        i += 1;
    }
    proof {
        assert(views_of(agents@).take(agents@.len() as int) =~= views_of(agents@));
    }
    r
}

} // verus!
