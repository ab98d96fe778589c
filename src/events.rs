use vstd::prelude::*;
use crate::text::chars_of;
use crate::universe::{has_prefix, has_prefix_exec};

verus! {

/// The kind of a filesystem change, as the notification component reports it.
#[derive(Clone, Copy, Debug, PartialEq, Eq, Structural)]
pub enum ChangeKind {
    Create,
    Modify,
    Remove,
    Access,
    Other,
}

pub open spec fn event_type_of(k: ChangeKind) -> Seq<char> {
    match k {
        ChangeKind::Create => "create"@,
        ChangeKind::Modify => "modify"@,
        ChangeKind::Remove => "remove"@,
        ChangeKind::Access => "access"@,
        ChangeKind::Other => "other"@,
    }
}

/// The name under which a change is reported to a watcher's listener.
pub fn event_type(k: ChangeKind) -> (r: String)
    ensures
        r@ == event_type_of(k),
{
    match k {
        ChangeKind::Create => "create".to_owned(),
        ChangeKind::Modify => "modify".to_owned(),
        ChangeKind::Remove => "remove".to_owned(),
        ChangeKind::Access => "access".to_owned(),
        ChangeKind::Other => "other".to_owned(),
    }
}

/// The name under which a project watcher reports a change: only
/// creations, modifications and removals are reported.
pub fn project_event_type(k: ChangeKind) -> (r: Option<String>)
    ensures
        r is Some <==> (k == ChangeKind::Create || k == ChangeKind::Modify || k == ChangeKind::Remove),
        r matches Some(s) ==> s@ == event_type_of(k),
{
    match k {
        ChangeKind::Create | ChangeKind::Modify | ChangeKind::Remove => Some(event_type(k)),
        _ => None,
    }
}

/// `p` is `dir` or lies beneath it, compared by whole path components.
pub open spec fn is_under(p: Seq<char>, dir: Seq<char>) -> bool {
    ||| p == dir
    ||| (has_prefix(p, dir) && dir.len() < p.len() && (p[dir.len() as int] == '/' || (dir.len() > 0
        && dir.last() == '/')))
}

pub fn is_under_exec(p: &String, dir: &String) -> (r: bool)
    ensures
        r == is_under(p@, dir@),
{
    if *p == *dir {
        return true;
    }
    let pc = chars_of(p.as_str());
    let dc = chars_of(dir.as_str());
    if has_prefix_exec(&pc, &dc) && dc.len() < pc.len() {
        pc[dc.len()] == '/' || (dc.len() > 0 && dc[dc.len() - 1] == '/')
    } else {
        false
    }
}

pub open spec fn event_is_ignored(paths: Seq<String>, ignore: Seq<String>) -> bool {
    exists|i: int, j: int|
        0 <= i < paths.len() && 0 <= j < ignore.len() && is_under(
            (#[trigger] paths[i])@,
            (#[trigger] ignore[j])@,
        )
}

/// An event is dropped when any of its paths lies under an ignored path.
pub fn is_ignored_event(paths: &Vec<String>, ignore: &Vec<String>) -> (r: bool)
    ensures
        r == event_is_ignored(paths@, ignore@),
{
    let mut i: usize = 0;
    while i < paths.len()
        invariant
            i <= paths.len(),
            forall|a: int, b: int|
                0 <= a < i && 0 <= b < ignore@.len() ==> !is_under((#[trigger] paths@[a])@, (#[trigger] ignore@[b])@),
        decreases paths.len() - i,
    {
        let mut j: usize = 0;
        while j < ignore.len()
            invariant
                i < paths.len(),
                j <= ignore.len(),
                forall|a: int, b: int|
                    0 <= a < i && 0 <= b < ignore@.len() ==> !is_under((#[trigger] paths@[a])@, (#[trigger] ignore@[b])@),
                forall|b: int| 0 <= b < j ==> !is_under(paths@[i as int]@, (#[trigger] ignore@[b])@),
            decreases ignore.len() - j,
        {
            if is_under_exec(&paths[i], &ignore[j]) {
                return true;
            }
            j = j + 1;
        }
        i = i + 1;
    }
    false
}

/// A change reported to a watcher's listener.
#[derive(Debug)]
pub struct FileEvent {
    pub path: String,
    pub event_type: String,
}

pub fn file_event(path: String, k: ChangeKind) -> (r: FileEvent)
    ensures
        r.path == path && r.event_type@ == event_type_of(k),
{
    FileEvent { path, event_type: event_type(k) }
}

/// How a path is watched: recursively unless told otherwise, and without
/// ignored paths unless some are given.
#[derive(Debug)]
pub struct WatchOptions {
    pub recursive: Option<bool>,
    pub ignore_paths: Option<Vec<String>>,
}

pub fn resolve_options(options: Option<WatchOptions>) -> (r: (bool, Vec<String>))
    ensures
        match options {
            Some(o) => {
                &&& r.0 == match o.recursive {
                    Some(b) => b,
                    None => true,
                }
                &&& r.1@ == match o.ignore_paths {
                    Some(v) => v@,
                    None => Seq::<String>::empty(),
                }
            },
            None => r.0 && r.1@.len() == 0,
        },
{
    match options {
        Some(o) => {
            let recursive = match o.recursive {
                Some(b) => b,
                None => true,
            };
            let ignore = match o.ignore_paths {
                Some(v) => v,
                None => Vec::new(),
            };
            (recursive, ignore)
        },
        None => (true, Vec::new()),
    }
}

} // verus!
