use vstd::prelude::*;
use crate::record::AddrRecord;
use crate::timestamp::{before, lemma_before_total, lemma_before_transitive};

verus! {

/// Places `x` into `s` before the first record seen strictly before `x`.
pub open spec fn insert_desc(s: Seq<AddrRecord>, x: AddrRecord) -> Seq<AddrRecord>
    decreases s.len(),
{
    if s.len() == 0 {
        seq![x]
    } else if before(s[0].last_seen, x.last_seen) {
        seq![x] + s
    } else {
        seq![s[0]] + insert_desc(s.drop_first(), x)
    }
}

/// The records ordered by `last_seen`, most recent first; records seen at the
/// same time keep their relative order.
pub open spec fn sort_desc(s: Seq<AddrRecord>) -> Seq<AddrRecord>
    decreases s.len(),
{
    if s.len() == 0 {
        Seq::empty()
    } else {
        insert_desc(sort_desc(s.drop_last()), s.last())
    }
}

/// No record is seen strictly before one that follows it.
pub open spec fn is_desc(s: Seq<AddrRecord>) -> bool {
    forall|i: int, j: int| 0 <= i < j < s.len() ==> !before(s[i].last_seen, s[j].last_seen)
}

/// Where `insert_desc` places `x` in `s`.
pub open spec fn insert_pos(s: Seq<AddrRecord>, x: AddrRecord) -> int
    decreases s.len(),
{
    if s.len() == 0 {
        0
    } else if before(s[0].last_seen, x.last_seen) {
        0
    } else {
        1 + insert_pos(s.drop_first(), x)
    }
}

proof fn lemma_insert_pos(s: Seq<AddrRecord>, x: AddrRecord)
    ensures
        0 <= insert_pos(s, x) <= s.len(),
        forall|k: int| 0 <= k < insert_pos(s, x) ==> !before(#[trigger] s[k].last_seen, x.last_seen),
        insert_pos(s, x) < s.len() ==> before(s[insert_pos(s, x)].last_seen, x.last_seen),
        insert_desc(s, x) == s.insert(insert_pos(s, x), x),
    decreases s.len(),
{
    if s.len() == 0 {
        assert(s.insert(0, x) =~= seq![x]);
    } else if before(s[0].last_seen, x.last_seen) {
        assert(s.insert(0, x) =~= seq![x] + s);
    } else {
        let t = s.drop_first();
        lemma_insert_pos(t, x);
        let p = insert_pos(t, x);
        assert forall|k: int| 0 <= k < p + 1 implies !before(#[trigger] s[k].last_seen, x.last_seen) by {
            if k > 0 {
                assert(s[k] == t[k - 1]);
            }
        }
        if p < t.len() {
            assert(s[p + 1] == t[p]);
        }
        assert(seq![s[0]] + t.insert(p, x) =~= s.insert(p + 1, x));
    }
}

proof fn lemma_insert_keeps_desc(s: Seq<AddrRecord>, x: AddrRecord)
    requires
        is_desc(s),
    ensures
        is_desc(insert_desc(s, x)),
        insert_desc(s, x).to_multiset() == s.to_multiset().insert(x),
{
    lemma_insert_pos(s, x);
    let p = insert_pos(s, x);
    let r = s.insert(p, x);
    vstd::seq_lib::to_multiset_insert(s, p, x);
    assert forall|k: int| p <= k < s.len() implies !before(x.last_seen, #[trigger] s[k].last_seen) by {
        if k > p {
            assert(!before(s[p].last_seen, s[k].last_seen));
            lemma_before_total(s[p].last_seen, s[k].last_seen);
            if s[k].last_seen != s[p].last_seen {
                lemma_before_transitive(s[k].last_seen, s[p].last_seen, x.last_seen);
            }
        }
        lemma_before_total(x.last_seen, s[k].last_seen);
    }
    assert forall|i: int, j: int| 0 <= i < j < r.len() implies !before(r[i].last_seen, r[j].last_seen) by {
        if j < p {
            assert(r[i] == s[i] && r[j] == s[j]);
        } else if j == p {
            assert(r[i] == s[i]);
        } else if i < p {
            assert(r[i] == s[i] && r[j] == s[j - 1]);
        } else if i == p {
            assert(r[j] == s[j - 1]);
        } else {
            assert(r[i] == s[i - 1] && r[j] == s[j - 1]);
        }
    }
}

/// Sorting by `last_seen` yields a most-recent-first order of the same records.
pub proof fn lemma_sort_desc(s: Seq<AddrRecord>)
    ensures
        is_desc(sort_desc(s)),
        sort_desc(s).to_multiset() == s.to_multiset(),
    decreases s.len(),
{
    broadcast use vstd::seq_lib::group_to_multiset_ensures;
    if s.len() > 0 {
        lemma_sort_desc(s.drop_last());
        lemma_insert_keeps_desc(sort_desc(s.drop_last()), s.last());
        assert(s =~= s.drop_last().push(s.last()));
    } else {
        assert(s.to_multiset() =~= sort_desc(s).to_multiset());
    }
}

proof fn lemma_sort_three(x: AddrRecord, y: AddrRecord, z: AddrRecord)
    ensures
        sort_desc(seq![x, y, z]) == insert_desc(insert_desc(seq![x], y), z),
{
    let s = seq![x, y, z];
    assert(s.drop_last().drop_last().drop_last() =~= Seq::<AddrRecord>::empty());
    assert(s.drop_last().drop_last() =~= seq![x]);
    assert(s.drop_last() =~= seq![x, y]);
    reveal_with_fuel(sort_desc, 4);
    reveal_with_fuel(insert_desc, 2);
    assert(insert_desc(Seq::empty(), x) =~= seq![x]);
}

/// Records seen at times T1 < T2 < T3 are listed as T3, T2, T1, in whatever
/// order they arrive.
pub proof fn lemma_three_records_order(a: AddrRecord, b: AddrRecord, c: AddrRecord, s: Seq<AddrRecord>)
    requires
        before(a.last_seen, b.last_seen),
        before(b.last_seen, c.last_seen),
        s == seq![a, b, c] || s == seq![a, c, b] || s == seq![b, a, c] || s == seq![b, c, a]
            || s == seq![c, a, b] || s == seq![c, b, a],
    ensures
        sort_desc(s) == seq![c, b, a],
{
    lemma_before_transitive(a.last_seen, b.last_seen, c.last_seen);
    lemma_before_total(a.last_seen, b.last_seen);
    lemma_before_total(b.last_seen, c.last_seen);
    lemma_before_total(a.last_seen, c.last_seen);
    reveal_with_fuel(insert_desc, 4);
    lemma_sort_three(s[0], s[1], s[2]);
    assert(s =~= seq![s[0], s[1], s[2]]);
    let one = seq![s[0]];
    let two = insert_desc(one, s[1]);
    assert(one.drop_first() =~= Seq::<AddrRecord>::empty());
    assert(insert_desc(Seq::<AddrRecord>::empty(), s[1]) =~= seq![s[1]]);
    if before(s[0].last_seen, s[1].last_seen) {
        assert(two =~= seq![s[1], s[0]]);
    } else {
        assert(two =~= seq![s[0], s[1]]);
    }
    assert(two.drop_first() =~= seq![two[1]]);
    assert(seq![two[1]].drop_first() =~= Seq::<AddrRecord>::empty());
    assert(insert_desc(Seq::<AddrRecord>::empty(), s[2]) =~= seq![s[2]]);
    assert(insert_desc(two, s[2]) =~= seq![c, b, a]);
}

/// Orders records by `last_seen`, most recent first; records seen at the same
/// time keep their relative order.
pub fn order_by_last_seen(records: Vec<AddrRecord>) -> (r: Vec<AddrRecord>)
    ensures
        r@ == sort_desc(records@),
{
    let mut out: Vec<AddrRecord> = Vec::new();
    let mut i: usize = 0;
    while i < records.len()
        invariant
            i <= records@.len(),
            out@ == sort_desc(records@.take(i as int)),
        decreases records@.len() - i,
    {
        let x = records[i].duplicate();
        proof {
            lemma_insert_pos(out@, x);
        }
        let mut p: usize = 0;
        while p < out.len() && !out[p].last_seen.is_before(&x.last_seen)
            invariant
                p <= out@.len(),
                p <= insert_pos(out@, x),
                0 <= insert_pos(out@, x) <= out@.len(),
                forall|k: int| 0 <= k < insert_pos(out@, x) ==> !before(#[trigger] out@[k].last_seen, x.last_seen),
                insert_pos(out@, x) < out@.len() ==> before(out@[insert_pos(out@, x)].last_seen, x.last_seen),
            decreases out@.len() - p,
        {
            p = p + 1;
        }
        assert(records@.take(i + 1).drop_last() =~= records@.take(i as int));
        assert(records@.take(i + 1).last() == records@[i as int]);
        out.insert(p, x);
        i = i + 1;
    }
    assert(records@.take(records@.len() as int) =~= records@);
    out
}

} // verus!
