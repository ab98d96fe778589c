use vstd::prelude::*;
use crate::walk::{view_set, views_distinct};

verus! {

/// The watchers that are running, one per watched path.
pub struct WatchRegistry<H> {
    entries: Vec<(String, H)>,
}

pub open spec fn keys_distinct<H>(s: Seq<(String, H)>) -> bool {
    forall|i: int, j: int| 0 <= i < j < s.len() ==> (#[trigger] s[i]).0@ != (#[trigger] s[j]).0@
}

pub open spec fn has_key<H>(s: Seq<(String, H)>, k: Seq<char>) -> bool {
    exists|i: int| 0 <= i < s.len() && (#[trigger] s[i]).0@ == k
}

pub open spec fn map_of<H>(s: Seq<(String, H)>) -> Map<Seq<char>, H> {
    Map::new(
        |k: Seq<char>| has_key(s, k),
        |k: Seq<char>| s[choose|i: int| 0 <= i < s.len() && (#[trigger] s[i]).0@ == k].1,
    )
}

proof fn lemma_map_at<H>(s: Seq<(String, H)>, i: int)
    requires
        keys_distinct(s),
        0 <= i < s.len(),
    ensures
        map_of(s).contains_key(s[i].0@),
        map_of(s)[s[i].0@] == s[i].1,
{
    assert(has_key(s, s[i].0@));
    let j = choose|j: int| 0 <= j < s.len() && (#[trigger] s[j]).0@ == s[i].0@;
    assert(j == i);
}

proof fn lemma_map_remove<H>(s: Seq<(String, H)>, i: int)
    requires
        keys_distinct(s),
        0 <= i < s.len(),
    ensures
        keys_distinct(s.remove(i)),
        map_of(s.remove(i)) == map_of(s).remove(s[i].0@),
{
    let t = s.remove(i);
    assert forall|a: int, b: int| 0 <= a < b < t.len() implies (#[trigger] t[a]).0@ != (#[trigger] t[b]).0@ by {
        let a2 = if a < i { a } else { a + 1 };
        let b2 = if b < i { b } else { b + 1 };
        assert(t[a] == s[a2] && t[b] == s[b2]);
    }
    let m = map_of(s).remove(s[i].0@);
    assert forall|k: Seq<char>| #[trigger] has_key(t, k) <==> m.contains_key(k) by {
        if has_key(t, k) {
            let a = choose|a: int| 0 <= a < t.len() && (#[trigger] t[a]).0@ == k;
            let a2 = if a < i { a } else { a + 1 };
            assert(t[a] == s[a2]);
            assert(has_key(s, k));
        }
        if m.contains_key(k) {
            let a = choose|a: int| 0 <= a < s.len() && (#[trigger] s[a]).0@ == k;
            let a2 = if a < i { a } else { a - 1 };
            assert(t[a2] == s[a]);
        }
    }
    assert forall|k: Seq<char>| #[trigger] m.contains_key(k) implies map_of(t)[k] == m[k] by {
        assert(has_key(t, k) <==> m.contains_key(k));
        let a = choose|a: int| 0 <= a < t.len() && (#[trigger] t[a]).0@ == k;
        let a2 = if a < i { a } else { a + 1 };
        assert(t[a] == s[a2]);
        lemma_map_at(t, a);
        lemma_map_at(s, a2);
    }
    assert(map_of(t) =~= m);
}

proof fn lemma_map_push<H>(s: Seq<(String, H)>, e: (String, H))
    requires
        keys_distinct(s),
        !has_key(s, e.0@),
    ensures
        keys_distinct(s.push(e)),
        map_of(s.push(e)) == map_of(s).insert(e.0@, e.1),
{
    let t = s.push(e);
    assert forall|a: int, b: int| 0 <= a < b < t.len() implies (#[trigger] t[a]).0@ != (#[trigger] t[b]).0@ by {
        assert(t[a] == s[a]);
        if b < s.len() {
            assert(t[b] == s[b]);
        }
    }
    let m = map_of(s).insert(e.0@, e.1);
    assert forall|k: Seq<char>| #[trigger] has_key(t, k) <==> m.contains_key(k) by {
        if has_key(t, k) {
            let a = choose|a: int| 0 <= a < t.len() && (#[trigger] t[a]).0@ == k;
            if a < s.len() {
                assert(t[a] == s[a]);
            }
        }
        if has_key(s, k) {
            let a = choose|a: int| 0 <= a < s.len() && (#[trigger] s[a]).0@ == k;
            assert(t[a] == s[a]);
        }
        assert(t[s.len() as int] == e);
    }
    assert forall|k: Seq<char>| #[trigger] m.contains_key(k) implies map_of(t)[k] == m[k] by {
        assert(has_key(t, k) <==> m.contains_key(k));
        let a = choose|a: int| 0 <= a < t.len() && (#[trigger] t[a]).0@ == k;
        lemma_map_at(t, a);
        if a < s.len() {
            assert(t[a] == s[a]);
            lemma_map_at(s, a);
        }
    }
    assert(map_of(t) =~= m);
}

impl<H> View for WatchRegistry<H> {
    type V = Map<Seq<char>, H>;

    closed spec fn view(&self) -> Map<Seq<char>, H> {
        map_of(self.entries@)
    }
}

impl<H> WatchRegistry<H> {
    pub closed spec fn wf(&self) -> bool {
        keys_distinct(self.entries@)
    }

    pub fn new() -> (r: WatchRegistry<H>)
        ensures
            r.wf(),
            r@ == Map::<Seq<char>, H>::empty(),
    {
        let r = WatchRegistry { entries: Vec::new() };
        assert(r@ =~= Map::<Seq<char>, H>::empty());
        r
    }

    fn find(&self, path: &String) -> (r: Option<usize>)
        ensures
            r matches Some(i) ==> i < self.entries@.len() && self.entries@[i as int].0@ == path@,
            r is None ==> !has_key(self.entries@, path@),
    {
        let mut i: usize = 0;
        while i < self.entries.len()
            invariant
                i <= self.entries@.len(),
                forall|k: int| 0 <= k < i ==> (#[trigger] self.entries@[k]).0@ != path@,
            decreases self.entries.len() - i,
        {
            if self.entries[i].0 == *path {
                return Some(i);
            }
            i = i + 1;
        }
        None
    }

    /// Whether `path` is watched.
    pub fn contains(&self, path: &String) -> (r: bool)
        ensures
            r == self@.contains_key(path@),
    {
        self.find(path).is_some()
    }

    /// Stops tracking `path`; returns its watcher, if it had one.
    pub fn remove(&mut self, path: &String) -> (r: Option<H>)
        requires
            old(self).wf(),
        ensures
            final(self).wf(),
            final(self)@ == old(self)@.remove(path@),
            r == if old(self)@.contains_key(path@) {
                Some(old(self)@[path@])
            } else {
                None::<H>
            },
    {
        match self.find(path) {
            Some(i) => {
                proof {
                    lemma_map_remove(self.entries@, i as int);
                    lemma_map_at(self.entries@, i as int);
                }
                let (_, h) = self.entries.remove(i);
                Some(h)
            },
            None => {
                assert(self@.remove(path@) =~= self@);
                None
            },
        }
    }

    /// Tracks `h` as the watcher of `path`; returns the watcher that it
    /// replaces, if any.
    pub fn insert(&mut self, path: String, h: H) -> (r: Option<H>)
        requires
            old(self).wf(),
        ensures
            final(self).wf(),
            final(self)@ == old(self)@.insert(path@, h),
            r == if old(self)@.contains_key(path@) {
                Some(old(self)@[path@])
            } else {
                None::<H>
            },
    {
        let old_h = self.remove(&path);
        proof {
            assert(!self@.contains_key(path@));
            assert(!has_key(self.entries@, path@));
            lemma_map_push(self.entries@, (path, h));
        }
        let ghost p = path@;
        self.entries.push((path, h));
        proof { assert(old(self)@.remove(p).insert(p, h) =~= old(self)@.insert(p, h)); }
        old_h
    }

    /// The watched paths, each once.
    pub fn paths(&self) -> (r: Vec<String>)
        requires
            self.wf(),
        ensures
            view_set(r@) == self@.dom(),
            views_distinct(r@),
    {
        let mut out: Vec<String> = Vec::new();
        let mut i: usize = 0;
        while i < self.entries.len()
            invariant
                i <= self.entries@.len(),
                out@.len() == i,
                forall|k: int| 0 <= k < i ==> (#[trigger] out@[k])@ == self.entries@[k].0@,
            decreases self.entries.len() - i,
        {
            out.push(self.entries[i].0.clone());
            i = i + 1;
        }
        proof {
            assert forall|v: Seq<char>| view_set(out@).contains(v) <==> self@.dom().contains(v) by {
                if view_set(out@).contains(v) {
                    let k = choose|k: int| 0 <= k < out@.len() && (#[trigger] out@[k])@ == v;
                    assert(has_key(self.entries@, v));
                }
                if self@.dom().contains(v) {
                    let k = choose|k: int| 0 <= k < self.entries@.len() && (#[trigger] self.entries@[k]).0@ == v;
                    assert(out@[k]@ == v);
                }
            }
            assert(view_set(out@) =~= self@.dom());
            assert forall|a: int, b: int| 0 <= a < b < out@.len() implies (#[trigger] out@[a])@ != (#[trigger] out@[b])@ by {
                assert(out@[a]@ == self.entries@[a].0@ && out@[b]@ == self.entries@[b].0@);
            }
        }
        out
    }

    /// Stops tracking every path; returns their watchers, none exactly when
    /// nothing was watched.
    pub fn drain(&mut self) -> (r: Vec<H>)
        requires
            old(self).wf(),
        ensures
            final(self).wf(),
            final(self)@ == Map::<Seq<char>, H>::empty(),
            (r@.len() == 0) == (old(self)@ == Map::<Seq<char>, H>::empty()),
    {
        let mut out: Vec<H> = Vec::new();
        let ghost was = self.entries@;
        proof {
            if was.len() > 0 {
                lemma_map_at(was, 0);
                assert(!Map::<Seq<char>, H>::empty().contains_key(was[0].0@));
            } else {
                assert(map_of(was) =~= Map::<Seq<char>, H>::empty());
            }
        }
        while self.entries.len() > 0
            invariant
                out@.len() + self.entries@.len() == was.len(),
            decreases self.entries.len(),
        {
            let (_, h) = self.entries.pop().unwrap();
            out.push(h);
        }
        assert(self@ =~= Map::<Seq<char>, H>::empty());
        out
    }
}

} // verus!
