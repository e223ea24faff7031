use vstd::prelude::*;

verus! {

// The status timeline of a lead is modelled as a sequence of
// (time, message) entries, strictly ascending by time: one message per
// instant, oldest first.

/// The entries are strictly ascending by time; in particular no instant
/// appears twice.
pub open spec fn time_sorted(s: Seq<(i64, Seq<char>)>) -> bool {
    forall|i: int, j: int| 0 <= i < j < s.len() ==> s[i].0 < s[j].0
}

/// Some entry of `s` is dated exactly `t`.
pub open spec fn has_time(s: Seq<(i64, Seq<char>)>, t: i64) -> bool {
    exists|i: int| 0 <= i < s.len() && s[i].0 == t
}

/// Insertion into the timeline: the entry lands at its place in time order,
/// and overwrites the message of an entry dated exactly `t`.
pub open spec fn timeline_insert(
    s: Seq<(i64, Seq<char>)>,
    t: i64,
    msg: Seq<char>,
) -> Seq<(i64, Seq<char>)>
    decreases s.len(),
{
    if s.len() == 0 {
        seq![(t, msg)]
    } else if t < s[0].0 {
        seq![(t, msg)] + s
    } else if t == s[0].0 {
        seq![(t, msg)] + s.drop_first()
    } else {
        seq![s[0]] + timeline_insert(s.drop_first(), t, msg)
    }
}

/// Where the new entry lands, stated from a split point: everything before
/// `i` is dated earlier than `t`, and `i` is the first entry (if any) dated
/// at or after it. Bridges the recursive definition and an iterative search.
pub proof fn lemma_insert_at(s: Seq<(i64, Seq<char>)>, t: i64, msg: Seq<char>, i: int)
    requires
        time_sorted(s),
        0 <= i <= s.len(),
        forall|k: int| 0 <= k < i ==> s[k].0 < t,
        i < s.len() ==> s[i].0 >= t,
    ensures
        i < s.len() && s[i].0 == t ==> timeline_insert(s, t, msg) == s.update(i, (t, msg)),
        !(i < s.len() && s[i].0 == t) ==> timeline_insert(s, t, msg) == s.take(i) + seq![(t, msg)]
            + s.skip(i),
    decreases i,
{
    if i == 0 {
        if s.len() == 0 || t < s[0].0 {
            assert(timeline_insert(s, t, msg) =~= s.take(0) + seq![(t, msg)] + s.skip(0));
        } else {
            assert(s[0].0 == t);
            assert(timeline_insert(s, t, msg) =~= s.update(0, (t, msg)));
        }
    } else {
        let rest = s.drop_first();
        lemma_insert_at(rest, t, msg, i - 1);
        if i < s.len() && s[i].0 == t {
            assert(timeline_insert(s, t, msg) =~= s.update(i, (t, msg)));
        } else {
            assert(timeline_insert(s, t, msg) =~= s.take(i) + seq![(t, msg)] + s.skip(i));
        }
    }
}

/// Every time found in the new timeline is `t` or was already present.
pub proof fn lemma_insert_keys_subset(s: Seq<(i64, Seq<char>)>, t: i64, msg: Seq<char>)
    ensures
        forall|k: int|
            0 <= k < timeline_insert(s, t, msg).len() ==> timeline_insert(s, t, msg)[k].0 == t
                || has_time(s, timeline_insert(s, t, msg)[k].0),
    decreases s.len(),
{
    let out = timeline_insert(s, t, msg);
    if s.len() == 0 {
    } else if t < s[0].0 {
        assert forall|k: int| 0 <= k < out.len() implies out[k].0 == t || has_time(s, out[k].0) by {
            if k > 0 {
                assert(out[k] == s[k - 1]);
            }
        }
    } else if t == s[0].0 {
        assert forall|k: int| 0 <= k < out.len() implies out[k].0 == t || has_time(s, out[k].0) by {
            if k > 0 {
                assert(out[k] == s[k]);
            }
        }
    } else {
        let rest = s.drop_first();
        lemma_insert_keys_subset(rest, t, msg);
        let sub = timeline_insert(rest, t, msg);
        assert forall|k: int| 0 <= k < out.len() implies out[k].0 == t || has_time(s, out[k].0) by {
            if k > 0 {
                assert(out[k] == sub[k - 1]);
                if sub[k - 1].0 != t {
                    let j = choose|j: int| 0 <= j < rest.len() && rest[j].0 == sub[k - 1].0;
                    assert(s[j + 1].0 == out[k].0);
                }
            }
        }
    }
}

/// Insertion keeps the timeline strictly ascending.
pub proof fn lemma_insert_sorted(s: Seq<(i64, Seq<char>)>, t: i64, msg: Seq<char>)
    requires
        time_sorted(s),
    ensures
        time_sorted(timeline_insert(s, t, msg)),
    decreases s.len(),
{
    let out = timeline_insert(s, t, msg);
    if s.len() == 0 {
    } else if t < s[0].0 {
    } else if t == s[0].0 {
    } else {
        let rest = s.drop_first();
        lemma_insert_sorted(rest, t, msg);
        lemma_insert_keys_subset(rest, t, msg);
        let sub = timeline_insert(rest, t, msg);
        assert forall|i: int, j: int| 0 <= i < j < out.len() implies out[i].0 < out[j].0 by {
            if i == 0 {
                assert(out[j] == sub[j - 1]);
                if sub[j - 1].0 != t {
                    let k = choose|k: int| 0 <= k < rest.len() && rest[k].0 == sub[j - 1].0;
                    assert(s[0].0 < s[k + 1].0);
                }
            } else {
                assert(out[i] == sub[i - 1]);
                assert(out[j] == sub[j - 1]);
            }
        }
    }
}

/// The inserted entry stands in the new timeline.
pub proof fn lemma_insert_contains_new(s: Seq<(i64, Seq<char>)>, t: i64, msg: Seq<char>)
    ensures
        timeline_insert(s, t, msg).contains((t, msg)),
    decreases s.len(),
{
    let out = timeline_insert(s, t, msg);
    if s.len() == 0 || t < s[0].0 || t == s[0].0 {
        assert(out[0] == (t, msg));
    } else {
        let rest = s.drop_first();
        lemma_insert_contains_new(rest, t, msg);
        let sub = timeline_insert(rest, t, msg);
        let k = choose|k: int| 0 <= k < sub.len() && sub[k] == (t, msg);
        assert(out[k + 1] == (t, msg));
    }
}

/// Entries dated at any other instant survive the insertion untouched.
pub proof fn lemma_insert_preserves_others(s: Seq<(i64, Seq<char>)>, t: i64, msg: Seq<char>)
    ensures
        forall|k: int|
            0 <= k < s.len() && s[k].0 != t ==> timeline_insert(s, t, msg).contains(s[k]),
    decreases s.len(),
{
    let out = timeline_insert(s, t, msg);
    if s.len() == 0 {
    } else if t < s[0].0 {
        assert forall|k: int| 0 <= k < s.len() && s[k].0 != t implies out.contains(s[k]) by {
            assert(out[k + 1] == s[k]);
        }
    } else if t == s[0].0 {
        assert forall|k: int| 0 <= k < s.len() && s[k].0 != t implies out.contains(s[k]) by {
            assert(k != 0);
            assert(out[k] == s[k]);
        }
    } else {
        let rest = s.drop_first();
        lemma_insert_preserves_others(rest, t, msg);
        let sub = timeline_insert(rest, t, msg);
        assert forall|k: int| 0 <= k < s.len() && s[k].0 != t implies out.contains(s[k]) by {
            if k == 0 {
                assert(out[0] == s[0]);
            } else {
                assert(sub.contains(rest[k - 1]));
                let j = choose|j: int| 0 <= j < sub.len() && sub[j] == rest[k - 1];
                assert(out[j + 1] == s[k]);
            }
        }
    }
}

/// Two status entries made at distinct instants both stand afterwards, and
/// the timeline stays in ascending time order.
pub proof fn lemma_insert_distinct_times_keeps_both(
    s: Seq<(i64, Seq<char>)>,
    t1: i64,
    m1: Seq<char>,
    t2: i64,
    m2: Seq<char>,
)
    requires
        time_sorted(s),
        t1 != t2,
    ensures
        timeline_insert(timeline_insert(s, t1, m1), t2, m2).contains((t1, m1)),
        timeline_insert(timeline_insert(s, t1, m1), t2, m2).contains((t2, m2)),
        time_sorted(timeline_insert(timeline_insert(s, t1, m1), t2, m2)),
{
    let s1 = timeline_insert(s, t1, m1);
    lemma_insert_contains_new(s, t1, m1);
    lemma_insert_sorted(s, t1, m1);
    let k = choose|k: int| 0 <= k < s1.len() && s1[k] == (t1, m1);
    lemma_insert_preserves_others(s1, t2, m2);
    lemma_insert_contains_new(s1, t2, m2);
    lemma_insert_sorted(s1, t2, m2);
}

/// A second status entry at the very same instant overwrites the first:
/// the outcome is as if only the second had ever been made, so no instant
/// ends up with two messages.
pub proof fn lemma_insert_same_time_overwrites(
    s: Seq<(i64, Seq<char>)>,
    t: i64,
    m1: Seq<char>,
    m2: Seq<char>,
)
    requires
        time_sorted(s),
    ensures
        timeline_insert(timeline_insert(s, t, m1), t, m2) == timeline_insert(s, t, m2),
    decreases s.len(),
{
    let s1 = timeline_insert(s, t, m1);
    if s.len() == 0 {
        assert(timeline_insert(s1, t, m2) =~= timeline_insert(s, t, m2));
    } else if t < s[0].0 {
        assert(timeline_insert(s1, t, m2) =~= timeline_insert(s, t, m2));
    } else if t == s[0].0 {
        assert(timeline_insert(s1, t, m2) =~= timeline_insert(s, t, m2));
    } else {
        let rest = s.drop_first();
        lemma_insert_same_time_overwrites(rest, t, m1, m2);
        assert(s1.drop_first() =~= timeline_insert(rest, t, m1));
        assert(timeline_insert(s1, t, m2) =~= seq![s[0]] + timeline_insert(
            timeline_insert(rest, t, m1),
            t,
            m2,
        ));
        assert(timeline_insert(s1, t, m2) =~= timeline_insert(s, t, m2));
    }
}

} // verus!
