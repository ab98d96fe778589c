use vstd::prelude::*;
use crate::model::DiffLine;

verus! {

/// The change that one commit made to one path.
#[derive(Debug)]
pub struct FileChangeStat {
    pub path: String,
    pub added_lines: i32,
    pub deleted_lines: i32,
}

/// A diff line belongs to a path when either side of its file change is
/// that path, so that a rename is seen from both names.
pub open spec fn line_touches(l: DiffLine, p: Seq<char>) -> bool {
    l.old_path@ == p || l.new_path@ == p
}

pub open spec fn touches(lines: Seq<DiffLine>, p: Seq<char>) -> bool {
    exists|i: int| 0 <= i < lines.len() && line_touches(#[trigger] lines[i], p)
}

/// How many lines of `lines` belong to `p` and carry the marker `origin`.
pub open spec fn count_lines(lines: Seq<DiffLine>, p: Seq<char>, origin: char) -> nat
    decreases lines.len(),
{
    if lines.len() == 0 {
        0
    } else {
        count_lines(lines.drop_last(), p, origin) + if line_touches(lines.last(), p)
            && lines.last().origin == origin {
            1nat
        } else {
            0nat
        }
    }
}

/// A line count as stored, capped at the largest `i32`.
pub open spec fn capped(n: nat) -> i32 {
    if n <= i32::MAX as nat {
        n as i32
    } else {
        i32::MAX
    }
}

/// Attributes the lines of one diff to `path`: `None` when no line belongs
/// to it, else the number of its added and deleted lines.
pub fn change_stat(lines: &Vec<DiffLine>, path: &String) -> (r: Option<FileChangeStat>)
    ensures
        r is Some <==> touches(lines@, path@),
        r matches Some(s) ==> s.path == *path
            && s.added_lines == capped(count_lines(lines@, path@, '+'))
            && s.deleted_lines == capped(count_lines(lines@, path@, '-')),
{
    let mut touched = false;
    let mut added: i32 = 0;
    let mut deleted: i32 = 0;
    let mut i: usize = 0;
    while i < lines.len()
        invariant
            i <= lines.len(),
            touched == touches(lines@.take(i as int), path@),
            added == capped(count_lines(lines@.take(i as int), path@, '+')),
            deleted == capped(count_lines(lines@.take(i as int), path@, '-')),
        decreases lines.len() - i,
    {
        let l = &lines[i];
        let hit = l.old_path == *path || l.new_path == *path;
        if hit {
            touched = true;
            if l.origin == '+' {
                if added < i32::MAX {
                    added = added + 1;
                }
            } else if l.origin == '-' {
                if deleted < i32::MAX {
                    deleted = deleted + 1;
                }
            }
        }
        proof {
            let prev = lines@.take(i as int);
            let next = lines@.take(i + 1);
            assert(next.drop_last() =~= prev);
            assert(next.last() == lines@[i as int]);
            if hit {
                assert(line_touches(next[i as int], path@));
            } else if touches(prev, path@) {
                let j = choose|j: int| 0 <= j < prev.len() && line_touches(#[trigger] prev[j], path@);
                assert(line_touches(next[j], path@));
            }
            if touches(next, path@) && !hit {
                let j = choose|j: int| 0 <= j < next.len() && line_touches(#[trigger] next[j], path@);
                assert(line_touches(prev[j], path@));
            }
        }
        i = i + 1;
    }
    proof {
        assert(lines@.take(lines.len() as int) =~= lines@);
    }
    if touched {
        Some(FileChangeStat { path: path.clone(), added_lines: added, deleted_lines: deleted })
    } else {
        None
    }
}

} // verus!
