use vstd::prelude::*;
use crate::attribution::{capped, change_stat, count_lines, touches, FileChangeStat};
use crate::model::{CommitChanges, CommitInfo, ErrorKind, FileMetadata, GitError};

verus! {

/// The history entry that a commit gives for path `p`.
pub open spec fn info_of(c: CommitChanges, p: Seq<char>) -> CommitInfo {
    CommitInfo {
        commit_hash: c.record.id,
        commit_message: c.record.message,
        author_name: c.record.author_name,
        author_email: c.record.author_email,
        commit_time: c.record.time,
        added_lines: capped(count_lines(c.lines@, p, '+')),
        deleted_lines: capped(count_lines(c.lines@, p, '-')),
    }
}

/// The entries of the commits of `log` whose diff touches `p`, in the
/// order of `log` (most recent first when `log` is in walk order).
pub open spec fn history_of(log: Seq<CommitChanges>, p: Seq<char>) -> Seq<CommitInfo>
    decreases log.len(),
{
    if log.len() == 0 {
        Seq::empty()
    } else {
        let prev = history_of(log.drop_last(), p);
        if touches(log.last().lines@, p) {
            prev.push(info_of(log.last(), p))
        } else {
            prev
        }
    }
}

/// How many commits of `log` touch `p`.
pub open spec fn touch_count(log: Seq<CommitChanges>, p: Seq<char>) -> nat
    decreases log.len(),
{
    if log.len() == 0 {
        0
    } else {
        touch_count(log.drop_last(), p) + if touches(log.last().lines@, p) {
            1nat
        } else {
            0nat
        }
    }
}

pub open spec fn metadata_of(path: String, c: CommitInfo) -> FileMetadata {
    FileMetadata {
        path: path,
        last_commit_hash: c.commit_hash,
        last_commit_message: c.commit_message,
        last_author_name: c.author_name,
        last_author_email: c.author_email,
        last_commit_time: c.commit_time,
        added_lines: c.added_lines,
        deleted_lines: c.deleted_lines,
    }
}

/// No commit appears twice in the walk.
pub open spec fn commits_distinct(log: Seq<CommitChanges>) -> bool {
    forall|i: int, j: int|
        0 <= i < j < log.len() ==> (#[trigger] log[i]).record.id@ != (#[trigger] log[j]).record.id@
}

pub open spec fn walk_is_time_ordered(log: Seq<CommitChanges>) -> bool {
    forall|i: int, j: int|
        0 <= i < j < log.len() ==> (#[trigger] log[i]).record.time >= (#[trigger] log[j]).record.time
}

/// Builds the entry of commit `c` from its attribution to one path.
pub fn commit_info(c: &CommitChanges, stat: FileChangeStat) -> (r: CommitInfo)
    ensures
        r == (CommitInfo {
            commit_hash: c.record.id,
            commit_message: c.record.message,
            author_name: c.record.author_name,
            author_email: c.record.author_email,
            commit_time: c.record.time,
            added_lines: stat.added_lines,
            deleted_lines: stat.deleted_lines,
        }),
{
    CommitInfo {
        commit_hash: c.record.id.clone(),
        commit_message: c.record.message.clone(),
        author_name: c.record.author_name.clone(),
        author_email: c.record.author_email.clone(),
        commit_time: c.record.time,
        added_lines: stat.added_lines,
        deleted_lines: stat.deleted_lines,
    }
}

pub fn metadata_from(path: String, c: CommitInfo) -> (r: FileMetadata)
    ensures
        r == metadata_of(path, c),
{
    FileMetadata {
        path,
        last_commit_hash: c.commit_hash,
        last_commit_message: c.commit_message,
        last_author_name: c.author_name,
        last_author_email: c.author_email,
        last_commit_time: c.commit_time,
        added_lines: c.added_lines,
        deleted_lines: c.deleted_lines,
    }
}

/// The entry for `path` that one commit of the walk gives, if its diff
/// touches it.
pub fn last_change_step(c: &CommitChanges, path: &String) -> (r: Option<FileMetadata>)
    ensures
        r is Some <==> touches(c.lines@, path@),
        r matches Some(m) ==> m == metadata_of(*path, info_of(*c, path@)),
{
    match change_stat(&c.lines, path) {
        Some(stat) => {
            let info = commit_info(c, stat);
            Some(metadata_from(path.clone(), info))
        },
        None => None,
    }
}

proof fn lemma_history_step(log: Seq<CommitChanges>, p: Seq<char>, i: int)
    requires
        0 <= i < log.len(),
    ensures
        history_of(log.take(i + 1), p) == if touches(log[i].lines@, p) {
            history_of(log.take(i), p).push(info_of(log[i], p))
        } else {
            history_of(log.take(i), p)
        },
{
    assert(log.take(i + 1).drop_last() =~= log.take(i));
}

/// The history of a prefix of the walk is a prefix of the whole history.
proof fn lemma_history_prefix(log: Seq<CommitChanges>, p: Seq<char>, j: int)
    requires
        0 <= j <= log.len(),
    ensures
        history_of(log.take(j), p).len() <= history_of(log, p).len(),
        forall|k: int|
            0 <= k < history_of(log.take(j), p).len() ==> #[trigger] history_of(log.take(j), p)[k]
                == history_of(log, p)[k],
    decreases log.len(),
{
    if j == log.len() {
        assert(log.take(j) =~= log);
    } else {
        let d = log.drop_last();
        assert(d.take(j) =~= log.take(j));
        lemma_history_prefix(d, p, j);
    }
}

/// Each history entry comes from a commit of the walk that touches the path.
proof fn lemma_history_sources(log: Seq<CommitChanges>, p: Seq<char>)
    ensures
        forall|k: int|
            0 <= k < history_of(log, p).len() ==> exists|m: int|
                0 <= m < log.len() && touches(log[m].lines@, p) && #[trigger] history_of(log, p)[k]
                    == info_of(log[m], p),
    decreases log.len(),
{
    if log.len() > 0 {
        let d = log.drop_last();
        lemma_history_sources(d, p);
        assert forall|k: int| 0 <= k < history_of(log, p).len() implies exists|m: int|
            0 <= m < log.len() && touches(log[m].lines@, p) && #[trigger] history_of(log, p)[k]
                == info_of(log[m], p) by {
            if k < history_of(d, p).len() {
                let m = choose|m: int|
                    0 <= m < d.len() && touches(d[m].lines@, p) && history_of(d, p)[k] == info_of(d[m], p);
                assert(log[m] == d[m]);
            } else {
                assert(history_of(log, p)[k] == info_of(log[log.len() - 1], p));
            }
        }
    }
}

/// Only first-parent diffs count: a commit of the walk whose own diff does
/// not touch the path (a merge that changes it only against a later parent)
/// has no entry in the path's history.
pub proof fn law_untouching_commit_is_absent(log: Seq<CommitChanges>, p: Seq<char>, k: int)
    requires
        0 <= k < log.len(),
        commits_distinct(log),
        !touches(log[k].lines@, p),
    ensures
        forall|i: int|
            0 <= i < history_of(log, p).len() ==> (#[trigger] history_of(log, p)[i]).commit_hash@
                != log[k].record.id@,
{
    lemma_history_sources(log, p);
    assert forall|i: int| 0 <= i < history_of(log, p).len() implies (#[trigger] history_of(
        log,
        p,
    )[i]).commit_hash@ != log[k].record.id@ by {
        let m = choose|m: int|
            0 <= m < log.len() && touches(log[m].lines@, p) && history_of(log, p)[i] == info_of(log[m], p);
        assert(m != k);
    }
}

/// A prefix of the walk in which no commit touches `p` gives no history.
proof fn lemma_untouched_prefix(log: Seq<CommitChanges>, p: Seq<char>, i: int)
    requires
        0 <= i <= log.len(),
        forall|j: int| 0 <= j < i ==> !touches((#[trigger] log[j]).lines@, p),
    ensures
        history_of(log.take(i), p).len() == 0,
    decreases i,
{
    if i > 0 {
        lemma_untouched_prefix(log, p, i - 1);
        lemma_history_step(log, p, i - 1);
    }
}

/// A path modified by commit `log[k]` of the walk and by no commit walked
/// before it resolves to that commit.
pub proof fn law_last_change_is_first_touch(log: Seq<CommitChanges>, p: Seq<char>, k: int)
    requires
        0 <= k < log.len(),
        touches(log[k].lines@, p),
        forall|i: int| 0 <= i < k ==> !touches((#[trigger] log[i]).lines@, p),
    ensures
        history_of(log, p).len() > 0,
        history_of(log, p)[0] == info_of(log[k], p),
{
    lemma_untouched_prefix(log, p, k);
    lemma_history_step(log, p, k);
    lemma_history_prefix(log, p, k + 1);
    assert(history_of(log.take(k + 1), p)[0] == info_of(log[k], p));
}

/// The history of a path has one entry per commit of the walk that touches
/// it; when the walk is ordered by non-increasing commit time, so is the
/// history.
pub proof fn law_history_count_and_order(log: Seq<CommitChanges>, p: Seq<char>)
    ensures
        history_of(log, p).len() == touch_count(log, p),
        walk_is_time_ordered(log) ==> forall|i: int, j: int|
            0 <= i < j < history_of(log, p).len() ==> (#[trigger] history_of(log, p)[i]).commit_time
                >= (#[trigger] history_of(log, p)[j]).commit_time,
    decreases log.len(),
{
    if log.len() > 0 {
        let d = log.drop_last();
        law_history_count_and_order(d, p);
        if walk_is_time_ordered(log) {
            assert(walk_is_time_ordered(d)) by {
                assert forall|i: int, j: int| 0 <= i < j < d.len() implies (#[trigger] d[i]).record.time
                    >= (#[trigger] d[j]).record.time by {
                    assert(d[i] == log[i] && d[j] == log[j]);
                }
            }
            lemma_history_sources(d, p);
            let h = history_of(log, p);
            let hd = history_of(d, p);
            assert forall|i: int, j: int| 0 <= i < j < h.len() implies (#[trigger] h[i]).commit_time
                >= (#[trigger] h[j]).commit_time by {
                if j < hd.len() {
                    assert(h[i] == hd[i] && h[j] == hd[j]);
                } else {
                    let m = choose|m: int| 0 <= m < d.len() && touches(d[m].lines@, p) && hd[i] == info_of(d[m], p);
                    assert(h[i] == hd[i]);
                    assert(d[m] == log[m]);
                    assert(h[j] == info_of(log[log.len() - 1], p));
                }
            }
        }
    }
}

/// Resolution reads nothing but its arguments: equal walks give equal
/// answers, so asking again of an unchanged repository answers the same.
pub proof fn law_resolution_is_repeatable(
    log1: Seq<CommitChanges>,
    log2: Seq<CommitChanges>,
    p: Seq<char>,
)
    requires
        log1 == log2,
    ensures
        history_of(log1, p) == history_of(log2, p),
        touch_count(log1, p) == touch_count(log2, p),
{
}

/// The full history of `path` over a walk: one entry per commit whose diff
/// touches it, in walk order.
pub fn resolve_history(log: &Vec<CommitChanges>, path: &String) -> (r: Vec<CommitInfo>)
    ensures
        r@ == history_of(log@, path@),
{
    let mut out: Vec<CommitInfo> = Vec::new();
    let mut i: usize = 0;
    while i < log.len()
        invariant
            i <= log.len(),
            out@ == history_of(log@.take(i as int), path@),
        decreases log.len() - i,
    {
        let c = &log[i];
        proof { lemma_history_step(log@, path@, i as int); }
        match change_stat(&c.lines, path) {
            Some(stat) => {
                let info = commit_info(c, stat);
                assert(info == info_of(log@[i as int], path@));
                out.push(info);
            },
            None => {},
        }
        i = i + 1;
    }
    proof { assert(log@.take(log.len() as int) =~= log@); }
    out
}

/// The most recent commit of a walk that touches `path`; the walk stops at
/// the first match. Fails with `HistoryNotFound` when none does.
pub fn resolve_last(log: &Vec<CommitChanges>, path: &String) -> (r: Result<FileMetadata, GitError>)
    ensures
        r is Ok <==> history_of(log@, path@).len() > 0,
        r matches Ok(m) ==> m == metadata_of(*path, history_of(log@, path@)[0]),
        r matches Err(e) ==> e.kind == ErrorKind::HistoryNotFound && e.target@ == path@,
{
    let mut i: usize = 0;
    while i < log.len()
        invariant
            i <= log.len(),
            history_of(log@.take(i as int), path@).len() == 0,
        decreases log.len() - i,
    {
        let c = &log[i];
        proof { lemma_history_step(log@, path@, i as int); }
        match last_change_step(c, path) {
            Some(m) => {
                proof {
                    lemma_history_prefix(log@, path@, i + 1);
                    assert(history_of(log@.take(i + 1), path@)[0] == info_of(log@[i as int], path@));
                }
                return Ok(m);
            },
            None => {},
        }
        i = i + 1;
    }
    proof { assert(log@.take(log.len() as int) =~= log@); }
    Err(GitError::new(ErrorKind::HistoryNotFound, "resolve last change", path.as_str(), String::new()))
}

} // verus!
