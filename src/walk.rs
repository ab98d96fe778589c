use vstd::prelude::*;
use vstd::hash_set::StringHashSet;

verus! {

pub open spec fn seen_before(ids: Seq<String>, i: int) -> bool {
    exists|k: int| 0 <= k < i && (#[trigger] ids[k])@ == ids[i]@
}

/// The ids of `ids` at their first occurrence, in order.
pub open spec fn first_visits_of(ids: Seq<String>) -> Seq<String>
    decreases ids.len(),
{
    if ids.len() == 0 {
        Seq::empty()
    } else {
        let prev = first_visits_of(ids.drop_last());
        if seen_before(ids, ids.len() - 1) {
            prev
        } else {
            prev.push(ids.last())
        }
    }
}

pub open spec fn views_distinct(s: Seq<String>) -> bool {
    forall|i: int, j: int| 0 <= i < j < s.len() ==> (#[trigger] s[i])@ != (#[trigger] s[j])@
}

pub open spec fn view_set(s: Seq<String>) -> Set<Seq<char>> {
    Set::new(|v: Seq<char>| exists|i: int| 0 <= i < s.len() && (#[trigger] s[i])@ == v)
}

proof fn lemma_first_visits_step(ids: Seq<String>, i: int)
    requires
        0 <= i < ids.len(),
    ensures
        first_visits_of(ids.take(i + 1)) == if seen_before(ids, i) {
            first_visits_of(ids.take(i))
        } else {
            first_visits_of(ids.take(i)).push(ids[i])
        },
{
    let t = ids.take(i + 1);
    assert(t.drop_last() =~= ids.take(i));
    assert(seen_before(t, i) == seen_before(ids, i)) by {
        if seen_before(ids, i) {
            let k = choose|k: int| 0 <= k < i && (#[trigger] ids[k])@ == ids[i]@;
            assert(t[k] == ids[k]);
        }
        if seen_before(t, i) {
            let k = choose|k: int| 0 <= k < i && (#[trigger] t[k])@ == t[i]@;
            assert(t[k] == ids[k]);
        }
    }
}

/// Keeps the first visit of each commit id of a walk and drops every later
/// one, so that a malformed back-reference is never followed twice.
pub fn first_visits(ids: &Vec<String>) -> (r: Vec<String>)
    ensures
        r@ == first_visits_of(ids@),
        views_distinct(r@),
        view_set(r@) == view_set(ids@),
{
    let mut seen = StringHashSet::new();
    let mut out: Vec<String> = Vec::new();
    let mut i: usize = 0;
    while i < ids.len()
        invariant
            i <= ids.len(),
            out@ == first_visits_of(ids@.take(i as int)),
            views_distinct(out@),
            seen@ == view_set(out@),
            view_set(out@) == view_set(ids@.take(i as int)),
        decreases ids.len() - i,
    {
        proof { lemma_first_visits_step(ids@, i as int); }
        let id = &ids[i];
        let ghost prev_take = ids@.take(i as int);
        let ghost next_take = ids@.take(i + 1);
        if seen.contains(id.as_str()) {
            proof {
                let k = choose|k: int| 0 <= k < out@.len() && (#[trigger] out@[k])@ == id@;
                let m = choose|m: int| 0 <= m < prev_take.len() && (#[trigger] prev_take[m])@ == id@;
                assert(ids@[m] == prev_take[m]);
                assert(seen_before(ids@, i as int));
                assert(view_set(out@) =~= view_set(next_take)) by {
                    assert forall|v: Seq<char>| view_set(next_take).contains(v) implies view_set(out@).contains(v) by {
                        let j = choose|j: int| 0 <= j < next_take.len() && (#[trigger] next_take[j])@ == v;
                        if j < i {
                            assert(prev_take[j] == next_take[j]);
                            assert(view_set(prev_take).contains(v));
                        } else {
                            assert(out@[k]@ == v);
                        }
                    }
                    assert forall|v: Seq<char>| view_set(out@).contains(v) implies view_set(next_take).contains(v) by {
                        assert(view_set(prev_take).contains(v));
                        let j = choose|j: int| 0 <= j < prev_take.len() && (#[trigger] prev_take[j])@ == v;
                        assert(prev_take[j] == next_take[j]);
                    }
                }
            }
        } else {
            proof {
                if seen_before(ids@, i as int) {
                    let k = choose|k: int| 0 <= k < i && (#[trigger] ids@[k])@ == ids@[i as int]@;
                    assert(prev_take[k] == ids@[k]);
                    assert(view_set(prev_take).contains(id@));
                }
            }
            let ghost old_out = out@;
            seen.insert(id.clone());
            out.push(id.clone());
            proof {
                assert(view_set(out@) =~= view_set(next_take)) by {
                    assert forall|v: Seq<char>| view_set(next_take).contains(v) implies view_set(out@).contains(v) by {
                        let j = choose|j: int| 0 <= j < next_take.len() && (#[trigger] next_take[j])@ == v;
                        if j < i {
                            assert(prev_take[j] == next_take[j]);
                            assert(view_set(prev_take).contains(v));
                            assert(view_set(old_out).contains(v));
                            let q = choose|q: int| 0 <= q < old_out.len() && (#[trigger] old_out[q])@ == v;
                            assert(out@[q] == old_out[q]);
                        } else {
                            assert(out@[out@.len() - 1]@ == v);
                        }
                    }
                    assert forall|v: Seq<char>| view_set(out@).contains(v) implies view_set(next_take).contains(v) by {
                        let q = choose|q: int| 0 <= q < out@.len() && (#[trigger] out@[q])@ == v;
                        if q < out@.len() - 1 {
                            assert(out@[q] == old_out[q]);
                            assert(view_set(old_out).contains(v));
                            let j = choose|j: int| 0 <= j < prev_take.len() && (#[trigger] prev_take[j])@ == v;
                            assert(prev_take[j] == next_take[j]);
                        } else {
                            assert(next_take[i as int]@ == v);
                        }
                    }
                }
                assert forall|a: int, b: int| 0 <= a < b < out@.len() implies (#[trigger] out@[a])@ != (#[trigger] out@[b])@ by {
                    if b == out@.len() - 1 {
                        assert(out@[a] == old_out[a]);
                        assert(view_set(old_out).contains(out@[a]@));
                    } else {
                        assert(out@[a] == old_out[a] && out@[b] == old_out[b]);
                    }
                }
            }
        }
        i = i + 1;
    }
    proof { assert(ids@.take(ids.len() as int) =~= ids@); }
    out
}

} // verus!
