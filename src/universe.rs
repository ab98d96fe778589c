use vstd::prelude::*;
use vstd::hash_set::StringHashSet;
use crate::history::{history_of, metadata_of, resolve_last};
use crate::model::{CommitChanges, FileMetadata, FileStatus};
use crate::text::chars_of;
use crate::walk::{view_set, views_distinct};

verus! {

pub open spec fn has_prefix(s: Seq<char>, pre: Seq<char>) -> bool {
    pre.len() <= s.len() && s.take(pre.len() as int) == pre
}

/// A path under the version-control metadata directory.
pub open spec fn is_metadata_path(p: Seq<char>) -> bool {
    has_prefix(p, ".git/"@)
}

/// `p` lies in directory `base`, compared by whole path components; the
/// directory `.` holds every path.
pub open spec fn in_directory(p: Seq<char>, base: Seq<char>) -> bool {
    ||| base == "."@
    ||| base.len() == 0
    ||| p == base
    ||| (has_prefix(p, base) && base.len() < p.len() && (p[base.len() as int] == '/' || base.last()
        == '/'))
}

pub open spec fn in_status(st: Seq<FileStatus>, v: Seq<char>) -> bool {
    exists|i: int| 0 <= i < st.len() && (#[trigger] st[i]).path@ == v
}

pub open spec fn flagged_ignored(st: Seq<FileStatus>, v: Seq<char>) -> bool {
    exists|i: int| 0 <= i < st.len() && (#[trigger] st[i]).path@ == v && st[i].is_ignored
}

pub open spec fn flagged_new(st: Seq<FileStatus>, v: Seq<char>) -> bool {
    exists|i: int| 0 <= i < st.len() && (#[trigger] st[i]).path@ == v && st[i].is_new
}

pub open spec fn in_tree(tree: Seq<String>, v: Seq<char>) -> bool {
    exists|i: int| 0 <= i < tree.len() && (#[trigger] tree[i])@ == v
}

pub open spec fn admitted(st: Seq<FileStatus>, base: Seq<char>, v: Seq<char>) -> bool {
    v.len() > 0 && in_directory(v, base) && !flagged_ignored(st, v) && !is_metadata_path(v)
}

/// The paths to list: those of the status scan and those of the tree of
/// HEAD, in `base`, minus ignored paths, metadata-directory paths and the
/// empty path (a path that does not read as text).
pub open spec fn universe(st: Seq<FileStatus>, tree: Seq<String>, base: Seq<char>) -> Set<Seq<char>> {
    Set::new(|v: Seq<char>| (in_status(st, v) || in_tree(tree, v)) && admitted(st, base, v))
}

/// The fixed message of the entry of a file that no commit holds.
pub open spec fn untracked_message() -> Seq<char> {
    "Untracked file"@
}

pub open spec fn is_untracked_entry(m: FileMetadata, p: String) -> bool {
    &&& m.path == p
    &&& m.last_commit_hash@.len() == 0
    &&& m.last_commit_message@ == untracked_message()
    &&& m.last_author_name@.len() == 0
    &&& m.last_author_email@.len() == 0
    &&& m.last_commit_time == 0
    &&& m.added_lines == 0
    &&& m.deleted_lines == 0
}

/// A path gets an entry when some commit touches it, or when the scan
/// flags it new.
pub open spec fn is_listed(log: Seq<CommitChanges>, st: Seq<FileStatus>, v: Seq<char>) -> bool {
    history_of(log, v).len() > 0 || flagged_new(st, v)
}

pub open spec fn listed_paths(log: Seq<CommitChanges>, st: Seq<FileStatus>, paths: Seq<String>) -> Seq<String>
    decreases paths.len(),
{
    if paths.len() == 0 {
        Seq::empty()
    } else {
        let prev = listed_paths(log, st, paths.drop_last());
        if is_listed(log, st, paths.last()@) {
            prev.push(paths.last())
        } else {
            prev
        }
    }
}

/// The entry of a listed path: its last change, or the untracked entry.
pub open spec fn entry_for(log: Seq<CommitChanges>, p: String, m: FileMetadata) -> bool {
    if history_of(log, p@).len() > 0 {
        m == metadata_of(p, history_of(log, p@)[0])
    } else {
        is_untracked_entry(m, p)
    }
}

pub fn has_prefix_exec(s: &Vec<char>, pre: &Vec<char>) -> (r: bool)
    ensures
        r == has_prefix(s@, pre@),
{
    if pre.len() > s.len() {
        return false;
    }
    let mut i: usize = 0;
    while i < pre.len()
        invariant
            i <= pre.len() <= s.len(),
            forall|k: int| 0 <= k < i ==> s@[k] == pre@[k],
        decreases pre.len() - i,
    {
        if s[i] != pre[i] {
            proof { assert(s@.take(pre.len() as int)[i as int] != pre@[i as int]); }
            return false;
        }
        i = i + 1;
    }
    proof { assert(s@.take(pre.len() as int) =~= pre@); }
    true
}

pub fn is_metadata_path_exec(p: &String) -> (r: bool)
    ensures
        r == is_metadata_path(p@),
{
    has_prefix_exec(&chars_of(p.as_str()), &chars_of(".git/"))
}

pub fn in_directory_exec(p: &String, base: &String) -> (r: bool)
    ensures
        r == in_directory(p@, base@),
{
    let pc = chars_of(p.as_str());
    let bc = chars_of(base.as_str());
    let dot = chars_of(".");
    proof { reveal_strlit("."); }
    if bc.len() == 0 || *p == *base || (bc.len() == 1 && bc[0] == '.') {
        proof {
            if bc.len() == 1 && bc@[0] == '.' {
                assert(bc@ =~= "."@);
            }
        }
        return true;
    }
    proof {
        assert(bc@ != "."@ ==> !(bc@.len() == 1 && bc@[0] == '.')) by {
            if bc@.len() == 1 && bc@[0] == '.' {
                assert(bc@ =~= "."@);
            }
        }
    }
    if has_prefix_exec(&pc, &bc) && bc.len() < pc.len() {
        pc[bc.len()] == '/' || bc[bc.len() - 1] == '/'
    } else {
        false
    }
}

/// Adds `cand` to `out` when it is admitted and not yet there.
fn add_path(out: &mut Vec<String>, seen: &mut StringHashSet, cand: &String, keep: bool)
    requires
        views_distinct(old(out)@),
        old(seen)@ == view_set(old(out)@),
    ensures
        views_distinct(final(out)@),
        final(seen)@ == view_set(final(out)@),
        view_set(final(out)@) == if keep {
            view_set(old(out)@).insert(cand@)
        } else {
            view_set(old(out)@)
        },
{
    if keep && !seen.contains(cand.as_str()) {
        let ghost before = out@;
        seen.insert(cand.clone());
        out.push(cand.clone());
        proof {
            assert(view_set(out@) =~= view_set(before).insert(cand@)) by {
                assert forall|v: Seq<char>| view_set(out@).contains(v) implies view_set(before).insert(
                    cand@,
                ).contains(v) by {
                    let q = choose|q: int| 0 <= q < out@.len() && (#[trigger] out@[q])@ == v;
                    if q < before.len() {
                        assert(out@[q] == before[q]);
                    }
                }
                assert forall|v: Seq<char>| view_set(before).insert(cand@).contains(v) implies view_set(
                    out@,
                ).contains(v) by {
                    if v == cand@ {
                        assert(out@[before.len() as int]@ == v);
                    } else {
                        let q = choose|q: int| 0 <= q < before.len() && (#[trigger] before[q])@ == v;
                        assert(out@[q] == before[q]);
                    }
                }
            }
            assert forall|a: int, b: int| 0 <= a < b < out@.len() implies (#[trigger] out@[a])@ != (
            #[trigger] out@[b])@ by {
                assert(out@[a] == before[a]);
                if b < before.len() {
                    assert(out@[b] == before[b]);
                } else {
                    assert(view_set(before).contains(out@[a]@));
                }
            }
        }
    } else {
        proof {
            if keep {
                assert(view_set(out@).insert(cand@) =~= view_set(out@));
            }
        }
    }
}

/// The paths to list, each once: see `universe`.
pub fn path_universe(statuses: &Vec<FileStatus>, tree: &Vec<String>, base: &String) -> (r: Vec<String>)
    ensures
        views_distinct(r@),
        view_set(r@) == universe(statuses@, tree@, base@),
{
    let ghost st = statuses@;
    let mut ignored = StringHashSet::new();
    let mut i: usize = 0;
    while i < statuses.len()
        invariant
            i <= statuses.len(),
            st == statuses@,
            ignored@ == Set::new(|v: Seq<char>| flagged_ignored(st.take(i as int), v)),
        decreases statuses.len() - i,
    {
        let ghost prev = ignored@;
        if statuses[i].is_ignored {
            ignored.insert(statuses[i].path.clone());
        }
        proof {
            let t0 = st.take(i as int);
            let t1 = st.take(i + 1);
            assert(ignored@ =~= Set::new(|v: Seq<char>| flagged_ignored(t1, v))) by {
                assert forall|v: Seq<char>| flagged_ignored(t1, v) implies ignored@.contains(v) by {
                    let k = choose|k: int| 0 <= k < t1.len() && (#[trigger] t1[k]).path@ == v && t1[k].is_ignored;
                    if k < i {
                        assert(t0[k] == t1[k]);
                        assert(flagged_ignored(t0, v));
                    }
                }
                assert forall|v: Seq<char>| ignored@.contains(v) implies flagged_ignored(t1, v) by {
                    if prev.contains(v) {
                        let k = choose|k: int| 0 <= k < t0.len() && (#[trigger] t0[k]).path@ == v && t0[k].is_ignored;
                        assert(t0[k] == t1[k]);
                    } else {
                        assert(t1[i as int] == st[i as int]);
                    }
                }
            }
        }
        i = i + 1;
    }
    proof {
        assert(st.take(st.len() as int) =~= st);
    }
    let mut seen = StringHashSet::new();
    let mut out: Vec<String> = Vec::new();
    proof { assert(view_set(out@) =~= Set::<Seq<char>>::empty()); }
    let mut j: usize = 0;
    while j < statuses.len()
        invariant
            j <= statuses.len(),
            st == statuses@,
            ignored@ == Set::new(|v: Seq<char>| flagged_ignored(st, v)),
            views_distinct(out@),
            seen@ == view_set(out@),
            view_set(out@) == Set::new(|v: Seq<char>| in_status(st.take(j as int), v) && admitted(st, base@, v)),
        decreases statuses.len() - j,
    {
        let cand = &statuses[j].path;
        let keep = !cand.as_str().is_empty() && in_directory_exec(cand, base) && !ignored.contains(cand.as_str())
            && !is_metadata_path_exec(cand);
        let ghost before = view_set(out@);
        add_path(&mut out, &mut seen, cand, keep);
        proof {
            let t0 = st.take(j as int);
            let t1 = st.take(j + 1);
            assert(view_set(out@) =~= Set::new(|v: Seq<char>| in_status(t1, v) && admitted(st, base@, v))) by {
                assert forall|v: Seq<char>| in_status(t1, v) && admitted(st, base@, v) implies view_set(out@).contains(v) by {
                    let k = choose|k: int| 0 <= k < t1.len() && (#[trigger] t1[k]).path@ == v;
                    if k < j {
                        assert(t0[k] == t1[k]);
                        assert(in_status(t0, v));
                    }
                }
                assert forall|v: Seq<char>| view_set(out@).contains(v) implies in_status(t1, v) && admitted(st, base@, v) by {
                    if before.contains(v) {
                        let k = choose|k: int| 0 <= k < t0.len() && (#[trigger] t0[k]).path@ == v;
                        assert(t0[k] == t1[k]);
                    } else {
                        assert(t1[j as int] == st[j as int]);
                    }
                }
            }
        }
        j = j + 1;
    }
    proof { assert(st.take(st.len() as int) =~= st); }
    let ghost tr = tree@;
    let mut k: usize = 0;
    while k < tree.len()
        invariant
            k <= tree.len(),
            st == statuses@,
            tr == tree@,
            ignored@ == Set::new(|v: Seq<char>| flagged_ignored(st, v)),
            views_distinct(out@),
            seen@ == view_set(out@),
            view_set(out@) == Set::new(|v: Seq<char>| (in_status(st, v) || in_tree(tr.take(k as int), v)) && admitted(st, base@, v)),
        decreases tree.len() - k,
    {
        let cand = &tree[k];
        let keep = !cand.as_str().is_empty() && in_directory_exec(cand, base) && !ignored.contains(cand.as_str())
            && !is_metadata_path_exec(cand);
        let ghost before = view_set(out@);
        add_path(&mut out, &mut seen, cand, keep);
        proof {
            let t0 = tr.take(k as int);
            let t1 = tr.take(k + 1);
            assert(view_set(out@) =~= Set::new(|v: Seq<char>| (in_status(st, v) || in_tree(t1, v)) && admitted(st, base@, v))) by {
                assert forall|v: Seq<char>| (in_status(st, v) || in_tree(t1, v)) && admitted(st, base@, v) implies view_set(out@).contains(v) by {
                    if !in_status(st, v) {
                        let q = choose|q: int| 0 <= q < t1.len() && (#[trigger] t1[q])@ == v;
                        if q < k {
                            assert(t0[q] == t1[q]);
                            assert(in_tree(t0, v));
                        }
                    }
                }
                assert forall|v: Seq<char>| view_set(out@).contains(v) implies (in_status(st, v) || in_tree(t1, v)) && admitted(st, base@, v) by {
                    if before.contains(v) {
                        if !in_status(st, v) {
                            let q = choose|q: int| 0 <= q < t0.len() && (#[trigger] t0[q])@ == v;
                            assert(t0[q] == t1[q]);
                        }
                    } else {
                        assert(t1[k as int] == tr[k as int]);
                    }
                }
            }
        }
        k = k + 1;
    }
    proof {
        assert(tr.take(tr.len() as int) =~= tr);
        assert(view_set(out@) =~= universe(st, tr, base@));
    }
    out
}

/// The entry of a file that no commit holds.
pub fn untracked_entry(path: String) -> (r: FileMetadata)
    ensures
        is_untracked_entry(r, path),
{
    FileMetadata {
        path,
        last_commit_hash: String::new(),
        last_commit_message: "Untracked file".to_owned(),
        last_author_name: String::new(),
        last_author_email: String::new(),
        last_commit_time: 0,
        added_lines: 0,
        deleted_lines: 0,
    }
}

pub fn is_flagged_new(statuses: &Vec<FileStatus>, path: &String) -> (r: bool)
    ensures
        r == flagged_new(statuses@, path@),
{
    let mut i: usize = 0;
    while i < statuses.len()
        invariant
            i <= statuses.len(),
            forall|k: int| 0 <= k < i ==> !((#[trigger] statuses@[k]).path@ == path@ && statuses@[k].is_new),
        decreases statuses.len() - i,
    {
        if statuses[i].is_new && statuses[i].path == *path {
            return true;
        }
        i = i + 1;
    }
    false
}

proof fn lemma_listed_step(log: Seq<CommitChanges>, st: Seq<FileStatus>, paths: Seq<String>, i: int)
    requires
        0 <= i < paths.len(),
    ensures
        listed_paths(log, st, paths.take(i + 1)) == if is_listed(log, st, paths[i]@) {
            listed_paths(log, st, paths.take(i)).push(paths[i])
        } else {
            listed_paths(log, st, paths.take(i))
        },
{
    assert(paths.take(i + 1).drop_last() =~= paths.take(i));
}

/// One entry per listed path of `paths`, in order: the path's last change,
/// or the untracked entry for a path that no commit touches but the scan
/// flags new. Any other path is left out.
pub fn listing_entries(log: &Vec<CommitChanges>, statuses: &Vec<FileStatus>, paths: &Vec<String>) -> (r: Vec<FileMetadata>)
    ensures
        r@.len() == listed_paths(log@, statuses@, paths@).len(),
        forall|i: int| 0 <= i < r@.len() ==> entry_for(log@, listed_paths(log@, statuses@, paths@)[i], #[trigger] r@[i]),
        forall|i: int| 0 <= i < r@.len() ==> (#[trigger] r@[i]).path == listed_paths(log@, statuses@, paths@)[i],
{
    let mut out: Vec<FileMetadata> = Vec::new();
    let mut i: usize = 0;
    while i < paths.len()
        invariant
            i <= paths.len(),
            out@.len() == listed_paths(log@, statuses@, paths@.take(i as int)).len(),
            forall|k: int| 0 <= k < out@.len() ==> entry_for(log@, listed_paths(log@, statuses@, paths@.take(i as int))[k], #[trigger] out@[k]),
            forall|k: int| 0 <= k < out@.len() ==> (#[trigger] out@[k]).path == listed_paths(log@, statuses@, paths@.take(i as int))[k],
        decreases paths.len() - i,
    {
        proof { lemma_listed_step(log@, statuses@, paths@, i as int); }
        let p = &paths[i];
        match resolve_last(log, p) {
            Ok(m) => {
                out.push(m);
            },
            Err(_) => {
                if is_flagged_new(statuses, p) {
                    out.push(untracked_entry(p.clone()));
                }
            },
        }
        i = i + 1;
    }
    proof { assert(paths@.take(paths.len() as int) =~= paths@); }
    out
}

/// `r` lists the universe of `st`, `tree` and `base`, taken in some order
/// without repeats: see `universe`, `is_listed` and `entry_for`.
pub open spec fn is_listing(log: Seq<CommitChanges>, st: Seq<FileStatus>, tree: Seq<String>, base: Seq<char>, r: Seq<FileMetadata>) -> bool {
    exists|u: Seq<String>| #![auto] {
        &&& views_distinct(u)
        &&& view_set(u) == universe(st, tree, base)
        &&& r.len() == listed_paths(log, st, u).len()
        &&& forall|i: int| 0 <= i < r.len() ==> entry_for(log, listed_paths(log, st, u)[i], #[trigger] r[i])
        &&& forall|i: int| 0 <= i < r.len() ==> (#[trigger] r[i]).path == listed_paths(log, st, u)[i]
    }
}

/// Lists every path of the universe that has an entry.
pub fn list_entries(log: &Vec<CommitChanges>, statuses: &Vec<FileStatus>, tree: &Vec<String>, base: &String) -> (r: Vec<FileMetadata>)
    ensures
        is_listing(log@, statuses@, tree@, base@, r@),
{
    let u = path_universe(statuses, tree, base);
    let r = listing_entries(log, statuses, &u);
    proof {
        let uu = u@;
        assert(views_distinct(uu) && view_set(uu) == universe(statuses@, tree@, base@));
    }
    r
}

/// With no commit at all, every listed entry is an untracked one.
pub proof fn law_no_history_lists_untracked(st: Seq<FileStatus>, tree: Seq<String>, base: Seq<char>, r: Seq<FileMetadata>)
    requires
        is_listing(Seq::empty(), st, tree, base, r),
    ensures
        forall|i: int| 0 <= i < r.len() ==> is_untracked_entry(#[trigger] r[i], r[i].path),
{
    let u = choose|u: Seq<String>| #![auto] {
        &&& views_distinct(u)
        &&& view_set(u) == universe(st, tree, base)
        &&& r.len() == listed_paths(Seq::empty(), st, u).len()
        &&& forall|i: int| 0 <= i < r.len() ==> entry_for(Seq::empty(), listed_paths(Seq::empty(), st, u)[i], #[trigger] r[i])
        &&& forall|i: int| 0 <= i < r.len() ==> (#[trigger] r[i]).path == listed_paths(Seq::empty(), st, u)[i]
    };
    assert forall|i: int| 0 <= i < r.len() implies is_untracked_entry(#[trigger] r[i], r[i].path) by {
        let p = listed_paths(Seq::empty(), st, u)[i];
        assert(history_of(Seq::<CommitChanges>::empty(), p@).len() == 0);
        assert(entry_for(Seq::empty(), p, r[i]));
    }
}

proof fn lemma_all_listed(log: Seq<CommitChanges>, st: Seq<FileStatus>, paths: Seq<String>)
    requires
        forall|i: int| 0 <= i < paths.len() ==> is_listed(log, st, (#[trigger] paths[i])@),
    ensures
        listed_paths(log, st, paths) == paths,
    decreases paths.len(),
{
    if paths.len() > 0 {
        let d = paths.drop_last();
        assert forall|i: int| 0 <= i < d.len() implies is_listed(log, st, (#[trigger] d[i])@) by {
            assert(d[i] == paths[i]);
        }
        lemma_all_listed(log, st, d);
        assert(is_listed(log, st, paths[paths.len() - 1]@));
        assert(d.push(paths.last()) =~= paths);
    }
}

/// When every path of the universe either has a modifying commit or is
/// flagged new, the listing covers exactly the universe: the tracked and
/// status paths, minus ignored and metadata-directory paths.
pub proof fn law_listing_covers_universe(
    log: Seq<CommitChanges>,
    st: Seq<FileStatus>,
    tree: Seq<String>,
    base: Seq<char>,
    u: Seq<String>,
)
    requires
        view_set(u) == universe(st, tree, base),
        forall|v: Seq<char>| #[trigger] universe(st, tree, base).contains(v) ==> is_listed(log, st, v),
    ensures
        view_set(listed_paths(log, st, u)) == universe(st, tree, base),
{
    assert forall|i: int| 0 <= i < u.len() implies is_listed(log, st, (#[trigger] u[i])@) by {
        assert(view_set(u).contains(u[i]@));
    }
    lemma_all_listed(log, st, u);
}

} // verus!
