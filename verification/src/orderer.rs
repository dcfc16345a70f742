//! Time ordering of per-frame hit soups.
//!
//! Hits from all channels of one frame are collected into one buffer and
//! sorted by time. The sort is stable: hits with equal times keep the order
//! in which they were added, which pins the tie-break behaviour.

use vstd::prelude::*;

verus! {

/// One hit as the orderer carries it: rising-edge flag, channel, time
/// (the sort key) and time over threshold.
pub type Hit = (bool, u16, u64, u32);

/// The predicate selecting hits at one given time.
pub open spec fn at_time(t: u64) -> spec_fn(Hit) -> bool {
    |x: Hit| x.2 == t
}

/// A sequence of hits that never decreases in time.
pub open spec fn time_sorted(s: Seq<Hit>) -> bool {
    forall|i: int, j: int| 0 <= i <= j < s.len() ==> s[i].2 <= s[j].2
}

/// Inserts a hit into a sequence after every element whose time is not
/// greater, so that equal times keep their order of arrival.
pub open spec fn insert_by_time(s: Seq<Hit>, h: Hit) -> Seq<Hit>
    decreases s.len(),
{
    if s.len() == 0 {
        seq![h]
    } else if s.last().2 <= h.2 {
        s.push(h)
    } else {
        insert_by_time(s.drop_last(), h).push(s.last())
    }
}

/// The stable sort of a hit sequence by time: each hit in arrival order is
/// inserted after all earlier-arrived hits of equal or smaller time.
pub open spec fn sort_by_time(s: Seq<Hit>) -> Seq<Hit>
    decreases s.len(),
{
    if s.len() == 0 {
        Seq::<Hit>::empty()
    } else {
        insert_by_time(sort_by_time(s.drop_last()), s.last())
    }
}

/// What one insertion does: it grows the sequence by the new hit, keeps the
/// multiset of hits, introduces no hit from elsewhere, and preserves time
/// order.
pub proof fn lemma_insert_by_time_props(s: Seq<Hit>, h: Hit)
    ensures
        insert_by_time(s, h).len() == s.len() + 1,
        insert_by_time(s, h).to_multiset() == s.to_multiset().insert(h),
        forall|i: int|
            0 <= i < s.len() + 1 ==> (#[trigger] insert_by_time(s, h)[i] == h || s.contains(
                insert_by_time(s, h)[i],
            )),
        time_sorted(s) ==> time_sorted(insert_by_time(s, h)),
    decreases s.len(),
{
    broadcast use vstd::seq_lib::group_to_multiset_ensures;

    if s.len() == 0 {
        assert(seq![h] =~= Seq::<Hit>::empty().push(h));
        assert(insert_by_time(s, h).to_multiset() =~= s.to_multiset().insert(h));
    } else if s.last().2 <= h.2 {
        let r = s.push(h);
        assert(forall|i: int| 0 <= i < s.len() ==> #[trigger] r[i] == s[i]);
        assert(forall|i: int| 0 <= i < s.len() ==> s.contains(#[trigger] s[i]));
        if time_sorted(s) {
            assert forall|i: int, j: int| 0 <= i <= j < r.len() implies r[i].2 <= r[j].2 by {
                if j == s.len() {
                    if i < s.len() {
                        assert(s[i].2 <= s.last().2);
                    }
                }
            }
        }
    } else {
        let d = s.drop_last();
        let l = s.last();
        lemma_insert_by_time_props(d, h);
        let inner = insert_by_time(d, h);
        let r = inner.push(l);
        assert(s =~= d.push(l));
        assert(s.to_multiset() == d.to_multiset().insert(l));
        assert(r.to_multiset() == inner.to_multiset().insert(l));
        assert(d.to_multiset().insert(h).insert(l) =~= d.to_multiset().insert(l).insert(h));
        // every element of the result is the new hit or came from s
        assert forall|i: int|
            0 <= i < s.len() + 1 implies (#[trigger] r[i] == h || s.contains(r[i])) by {
            if i < inner.len() {
                assert(r[i] == inner[i]);
                if inner[i] != h {
                    assert(d.contains(inner[i]));
                    let k = choose|k: int| 0 <= k < d.len() && d[k] == inner[i];
                    assert(s[k] == inner[i]);
                }
            } else {
                assert(r[i] == l);
                assert(s[s.len() - 1] == l);
            }
        }
        if time_sorted(s) {
            assert(time_sorted(d)) by {
                assert(forall|i: int, j: int|
                    0 <= i <= j < d.len() ==> d[i] == s[i] && d[j] == s[j]);
            }
            assert forall|i: int, j: int| 0 <= i <= j < r.len() implies r[i].2 <= r[j].2 by {
                if j < inner.len() {
                    assert(inner[i].2 <= inner[j].2);
                } else {
                    // r[j] is the old last element; r[i] came from d or is h
                    if i < inner.len() {
                        assert(inner[i] == h || d.contains(inner[i]));
                        if inner[i] == h {
                            assert(h.2 <= l.2);
                        } else {
                            let k = choose|k: int| 0 <= k < d.len() && d[k] == inner[i];
                            assert(s[k].2 <= s[s.len() - 1].2);
                        }
                    }
                }
            }
        }
    }
}

/// What one insertion does to the hits at one fixed time: if the new hit is
/// at that time it is appended after them, otherwise they are untouched.
pub proof fn lemma_insert_by_time_filter(s: Seq<Hit>, h: Hit, t: u64)
    ensures
        insert_by_time(s, h).filter(at_time(t)) == if h.2 == t {
            s.filter(at_time(t)).push(h)
        } else {
            s.filter(at_time(t))
        },
    decreases s.len(),
{
    let p = at_time(t);
    if s.len() == 0 {
        reveal(Seq::filter);
        assert(seq![h] =~= Seq::<Hit>::empty().push(h));
        assert(Seq::<Hit>::empty().filter(p) =~= Seq::<Hit>::empty());
        lemma_filter_push(Seq::<Hit>::empty(), h, t);
        assert(s.filter(p) =~= Seq::<Hit>::empty());
    } else if s.last().2 <= h.2 {
        lemma_filter_push(s, h, t);
    } else {
        let d = s.drop_last();
        let l = s.last();
        lemma_insert_by_time_filter(d, h, t);
        lemma_filter_push(insert_by_time(d, h), l, t);
        assert(s =~= d.push(l));
        lemma_filter_push(d, l, t);
    }
}

/// Filtering a sequence extended by one element: the element is kept exactly
/// when it satisfies the predicate.
pub proof fn lemma_filter_push(s: Seq<Hit>, a: Hit, t: u64)
    ensures
        s.push(a).filter(at_time(t)) == if at_time(t)(a) {
            s.filter(at_time(t)).push(a)
        } else {
            s.filter(at_time(t))
        },
{
    reveal(Seq::filter);
    assert(s.push(a).drop_last() =~= s);
    assert(s.push(a).last() == a);
}

/// Totality and permutation: sorting by time keeps exactly the hits that
/// were put in, as a multiset, and in particular their number.
pub proof fn lemma_sort_by_time_permutes(s: Seq<Hit>)
    ensures
        sort_by_time(s).to_multiset() == s.to_multiset(),
        sort_by_time(s).len() == s.len(),
    decreases s.len(),
{
    broadcast use vstd::seq_lib::group_to_multiset_ensures;

    if s.len() == 0 {
    } else {
        let d = s.drop_last();
        lemma_sort_by_time_permutes(d);
        lemma_insert_by_time_props(sort_by_time(d), s.last());
        assert(s =~= d.push(s.last()));
        assert(s.to_multiset() == d.to_multiset().insert(s.last()));
    }
}

/// Ordering: the sorted sequence never decreases in time.
pub proof fn lemma_sort_by_time_sorted(s: Seq<Hit>)
    ensures
        time_sorted(sort_by_time(s)),
    decreases s.len(),
{
    if s.len() == 0 {
    } else {
        lemma_sort_by_time_sorted(s.drop_last());
        lemma_insert_by_time_props(sort_by_time(s.drop_last()), s.last());
    }
}

/// Stability: at every fixed time, the sorted sequence carries exactly the
/// input's hits of that time, in their order of arrival. Together with the
/// ordering law this pins the output completely: ties are broken by
/// insertion order.
pub proof fn lemma_sort_by_time_stable(s: Seq<Hit>, t: u64)
    ensures
        sort_by_time(s).filter(at_time(t)) == s.filter(at_time(t)),
    decreases s.len(),
{
    if s.len() == 0 {
    } else {
        let d = s.drop_last();
        let l = s.last();
        lemma_sort_by_time_stable(d, t);
        lemma_insert_by_time_filter(sort_by_time(d), l, t);
        assert(s =~= d.push(l));
        lemma_filter_push(d, l, t);
    }
}

/// Equal-time hits stand in ascending channel order. This holds of the
/// orderer's input whenever the per-channel streams are fed in one channel
/// at a time, by ascending channel index.
pub open spec fn ties_by_channel(s: Seq<Hit>) -> bool {
    forall|i: int, j: int|
        0 <= i <= j < s.len() && s[i].2 == s[j].2 ==> s[i].1 <= s[j].1
}

/// One insertion keeps equal-time hits in ascending channel order, provided
/// the new hit's channel is not below that of any already-present hit of its
/// time.
pub proof fn lemma_insert_by_time_ties(s: Seq<Hit>, h: Hit)
    requires
        time_sorted(s),
        ties_by_channel(s),
        forall|i: int| 0 <= i < s.len() && s[i].2 == h.2 ==> s[i].1 <= h.1,
    ensures
        ties_by_channel(insert_by_time(s, h)),
    decreases s.len(),
{
    if s.len() == 0 {
    } else if s.last().2 <= h.2 {
        let r = s.push(h);
        assert forall|i: int, j: int|
            0 <= i <= j < r.len() && r[i].2 == r[j].2 implies r[i].1 <= r[j].1 by {
            if j < s.len() {
                assert(s[i].1 <= s[j].1);
            } else if i < s.len() {
                assert(s[i].1 <= h.1);
            }
        }
    } else {
        let d = s.drop_last();
        let l = s.last();
        assert(time_sorted(d) && ties_by_channel(d)) by {
            assert(forall|i: int, j: int|
                0 <= i <= j < d.len() ==> d[i] == s[i] && d[j] == s[j]);
        }
        assert(forall|i: int| 0 <= i < d.len() && d[i].2 == h.2 ==> d[i].1 <= h.1) by {
            assert(forall|i: int| 0 <= i < d.len() ==> d[i] == s[i]);
        }
        lemma_insert_by_time_ties(d, h);
        lemma_insert_by_time_props(d, h);
        let inner = insert_by_time(d, h);
        let r = inner.push(l);
        assert forall|i: int, j: int|
            0 <= i <= j < r.len() && r[i].2 == r[j].2 implies r[i].1 <= r[j].1 by {
            if j < inner.len() {
                assert(inner[i].1 <= inner[j].1);
            } else if i < inner.len() {
                // r[j] is the old last element; r[i] is the new hit (whose
                // time is strictly smaller) or came from d
                assert(inner[i] == h || d.contains(inner[i]));
                if inner[i] != h {
                    let k = choose|k: int| 0 <= k < d.len() && d[k] == inner[i];
                    assert(s[k] == inner[i]);
                    assert(s[k].2 == s[s.len() - 1].2 ==> s[k].1 <= s[s.len() - 1].1);
                }
            }
        }
    }
}

/// Tie-break by channel: when equal-time hits arrive in ascending channel
/// order — as they do when per-channel time-non-decreasing streams are fed
/// one channel at a time — the time-sorted output also breaks every tie by
/// ascending channel index.
pub proof fn lemma_sort_by_time_channel_ties(s: Seq<Hit>)
    requires
        ties_by_channel(s),
    ensures
        ties_by_channel(sort_by_time(s)),
    decreases s.len(),
{
    broadcast use vstd::seq_lib::group_to_multiset_ensures;

    if s.len() > 0 {
        let d = s.drop_last();
        let h = s.last();
        let sorted_d = sort_by_time(d);
        assert(ties_by_channel(d)) by {
            assert(forall|i: int, j: int|
                0 <= i <= j < d.len() ==> d[i] == s[i] && d[j] == s[j]);
        }
        lemma_sort_by_time_channel_ties(d);
        lemma_sort_by_time_sorted(d);
        lemma_sort_by_time_permutes(d);
        assert forall|i: int|
            0 <= i < sorted_d.len() && sorted_d[i].2 == h.2 implies sorted_d[i].1 <= h.1 by {
            let x = sorted_d[i];
            assert(sorted_d.contains(x));
            assert(sorted_d.to_multiset().count(x) > 0);
            assert(d.to_multiset().count(x) > 0);
            assert(d.contains(x));
            let k = choose|k: int| 0 <= k < d.len() && d[k] == x;
            assert(s[k] == x);
            assert(s[k].2 == s[s.len() - 1].2 ==> s[k].1 <= s[s.len() - 1].1);
        }
        lemma_insert_by_time_ties(sorted_d, h);
    }
}

/// Merges hits into a fully time-ordered stream, one frame at a time: feed
/// every hit of a frame in, pull the ordered hits out, and the orderer is
/// empty again for the next frame.
pub struct Orderer {
    hits: Vec<Hit>,
}

impl View for Orderer {
    type V = Seq<Hit>;

    closed spec fn view(&self) -> Seq<Hit> {
        self.hits@
    }
}

impl Orderer {
    /// Creates an empty orderer.
    pub fn new() -> (r: Orderer)
        ensures
            r@ == Seq::<Hit>::empty(),
    {
        Orderer { hits: Vec::new() }
    }

    /// Appends a hit to the soup awaiting ordering.
    pub fn add_hit(&mut self, rising: bool, chan: u16, time: u64, tot: u32)
        ensures
            final(self)@ == old(self)@.push((rising, chan, time, tot)),
    {
        self.hits.push((rising, chan, time, tot));
    }

    /// The hits accumulated so far, in arrival order.
    pub fn hits(&self) -> (r: &Vec<Hit>)
        ensures
            r@ == self@,
    {
        &self.hits
    }

    /// Returns the accumulated hits stably sorted by time and clears the
    /// orderer for the next frame.
    pub fn order(&mut self) -> (r: Vec<Hit>)
        ensures
            r@ == sort_by_time(old(self)@),
            final(self)@ == Seq::<Hit>::empty(),
    {
        let ghost orig: Seq<Hit> = self.hits@;
        let mut result: Vec<Hit> = Vec::new();
        let n = self.hits.len();
        let mut i: usize = 0;
        while i < n
            invariant
                i <= n,
                self.hits@ == orig,
                n == orig.len(),
                result@ == sort_by_time(orig.take(i as int)),
            decreases n - i,
        {
            let h = self.hits[i];
            proof {
                lemma_insert_by_time_props(result@, h);
            }
            let ghost target: Seq<Hit> = insert_by_time(result@, h);
            let mut j: usize = result.len();
            proof {
                assert(result@.take(j as int) =~= result@);
                assert(insert_by_time(result@, h) + result@.skip(j as int) =~= insert_by_time(
                    result@,
                    h,
                ));
            }
            while j > 0 && result[j - 1].2 > h.2
                invariant
                    j <= result@.len(),
                    target == insert_by_time(result@, h),
                    target == insert_by_time(result@.take(j as int), h) + result@.skip(j as int),
                decreases j,
            {
                proof {
                    let jj = j as int;
                    assert(result@.take(jj).drop_last() =~= result@.take(jj - 1));
                    assert(result@.take(jj).last() == result@[jj - 1]);
                    assert(insert_by_time(result@.take(jj), h) == insert_by_time(
                        result@.take(jj - 1),
                        h,
                    ).push(result@[jj - 1]));
                    lemma_insert_by_time_props(result@.take(jj - 1), h);
                    assert(insert_by_time(result@.take(jj - 1), h).push(result@[jj - 1])
                        + result@.skip(jj) =~= insert_by_time(result@.take(jj - 1), h)
                        + result@.skip(jj - 1));
                }
                j = j - 1;
            }
            proof {
                let jj = j as int;
                if j == 0 {
                    assert(result@.take(0) =~= Seq::<Hit>::empty());
                    assert(insert_by_time(result@.take(0), h) =~= result@.take(0).push(h));
                } else {
                    assert(result@.take(jj).last() == result@[jj - 1]);
                    assert(result@.take(jj).drop_last() =~= result@.take(jj - 1));
                    assert(insert_by_time(result@.take(jj), h) == result@.take(jj).push(h));
                }
            }
            result.insert(j, h);
            proof {
                let jj = j as int;
                assert(result@ =~= target);
                assert(orig.take(i as int + 1).drop_last() =~= orig.take(i as int));
                assert(orig.take(i as int + 1).last() == orig[i as int]);
            }
            i = i + 1;
        }
        proof {
            assert(orig.take(n as int) =~= orig);
        }
        self.hits.clear();
        result
    }
}

} // verus!
