use git_meta::attribution::change_stat;
use git_meta::history::{resolve_history, resolve_last};
use git_meta::status::file_status;
use git_meta::universe::{in_directory_exec, is_metadata_path_exec, list_entries, path_universe};
use git_meta::walk::first_visits;
use git_meta::{CommitChanges, CommitRecord, DiffLine, ErrorKind, FileStatus};

fn rec(id: &str, time: i64, parents: &[&str]) -> CommitRecord {
    CommitRecord {
        id: id.to_string(),
        message: format!("message {}", id),
        author_name: "Ann".to_string(),
        author_email: "ann@example.com".to_string(),
        time,
        author_time: time,
        parents: parents.iter().map(|p| p.to_string()).collect(),
    }
}

fn line(old: &str, new: &str, origin: char) -> DiffLine {
    DiffLine { old_path: old.to_string(), new_path: new.to_string(), origin }
}

fn changes(id: &str, time: i64, parents: &[&str], lines: Vec<DiffLine>) -> CommitChanges {
    CommitChanges { record: rec(id, time, parents), lines }
}

fn status(path: &str, is_new: bool, is_ignored: bool) -> FileStatus {
    FileStatus {
        path: path.to_string(),
        is_new,
        is_modified: false,
        is_deleted: false,
        is_renamed: false,
        is_ignored,
    }
}

/// Walk order of C1 -> C2 -> C3: `a.txt` created in C1, modified in C2.
fn three_commits() -> Vec<CommitChanges> {
    vec![
        changes("c3", 300, &["c2"], vec![line("b.txt", "b.txt", '+')]),
        changes("c2", 200, &["c1"], vec![line("a.txt", "a.txt", '-'), line("a.txt", "a.txt", '+'), line("a.txt", "a.txt", '+')]),
        changes("c1", 100, &[], vec![line("a.txt", "a.txt", '+'), line("a.txt", "a.txt", ' ')]),
    ]
}

#[test]
fn change_stat_counts_lines_of_the_path() {
    let lines = vec![line("a", "a", '+'), line("a", "a", '-'), line("a", "a", '+'), line("b", "b", '+'), line("a", "a", ' ')];
    let s = change_stat(&lines, &"a".to_string()).unwrap();
    assert_eq!(s.path, "a");
    assert_eq!(s.added_lines, 2);
    assert_eq!(s.deleted_lines, 1);
    assert!(change_stat(&lines, &"c".to_string()).is_none());
}

#[test]
fn change_stat_matches_either_side_of_a_rename() {
    let lines = vec![line("old.txt", "new.txt", '+')];
    assert_eq!(change_stat(&lines, &"old.txt".to_string()).unwrap().added_lines, 1);
    assert_eq!(change_stat(&lines, &"new.txt".to_string()).unwrap().added_lines, 1);
}

#[test]
fn context_lines_alone_still_touch_a_path() {
    let lines = vec![line("a", "a", ' ')];
    let s = change_stat(&lines, &"a".to_string()).unwrap();
    assert_eq!((s.added_lines, s.deleted_lines), (0, 0));
}

#[test]
fn last_change_is_the_most_recent_touching_commit() {
    let log = three_commits();
    let m = resolve_last(&log, &"a.txt".to_string()).unwrap();
    assert_eq!(m.path, "a.txt");
    assert_eq!(m.last_commit_hash, "c2");
    assert_eq!(m.last_commit_message, "message c2");
    assert_eq!(m.last_commit_time, 200);
    assert_eq!(m.added_lines, 2);
    assert_eq!(m.deleted_lines, 1);
}

#[test]
fn history_lists_touching_commits_most_recent_first() {
    let log = three_commits();
    let h = resolve_history(&log, &"a.txt".to_string());
    let ids: Vec<&str> = h.iter().map(|c| c.commit_hash.as_str()).collect();
    assert_eq!(ids, vec!["c2", "c1"]);
    assert_eq!((h[1].added_lines, h[1].deleted_lines), (1, 0));
    assert!(h.windows(2).all(|w| w[0].commit_time >= w[1].commit_time));
}

#[test]
fn single_touching_commit_resolves_to_it() {
    let log = three_commits();
    let m = resolve_last(&log, &"b.txt".to_string()).unwrap();
    assert_eq!(m.last_commit_hash, "c3");
    assert_eq!(resolve_history(&log, &"b.txt".to_string()).len(), 1);
}

#[test]
fn untouched_path_has_no_last_change_and_empty_history() {
    let log = three_commits();
    let e = resolve_last(&log, &"zzz".to_string()).unwrap_err();
    assert_eq!(e.kind, ErrorKind::HistoryNotFound);
    assert_eq!(e.target, "zzz");
    assert!(resolve_history(&log, &"zzz".to_string()).is_empty());
}

#[test]
fn merge_is_diffed_against_its_first_parent_only() {
    // M's diff against its first parent does not touch b.txt; the second parent does.
    let log = vec![
        changes("m", 300, &["left", "right"], vec![line("c.txt", "c.txt", '+')]),
        changes("right", 250, &["left"], vec![line("b.txt", "b.txt", '+')]),
        changes("left", 200, &[], vec![line("a.txt", "a.txt", '+')]),
    ];
    let ids: Vec<String> = resolve_history(&log, &"b.txt".to_string()).into_iter().map(|c| c.commit_hash).collect();
    assert_eq!(ids, vec!["right".to_string()]);
}

#[test]
fn repeated_resolution_gives_the_same_answer() {
    let log = three_commits();
    let a = resolve_history(&log, &"a.txt".to_string());
    let b = resolve_history(&log, &"a.txt".to_string());
    assert_eq!(format!("{:?}", a), format!("{:?}", b));
    let m1 = resolve_last(&log, &"a.txt".to_string()).unwrap();
    let m2 = resolve_last(&log, &"a.txt".to_string()).unwrap();
    assert_eq!(format!("{:?}", m1), format!("{:?}", m2));
}

#[test]
fn walk_keeps_first_visit_of_each_id() {
    let ids: Vec<String> = ["a", "b", "a", "c", "b"].iter().map(|s| s.to_string()).collect();
    assert_eq!(first_visits(&ids), vec!["a", "b", "c"]);
    assert!(first_visits(&Vec::new()).is_empty());
}

#[test]
fn status_bits_map_to_independent_flags() {
    let s = file_status("f".to_string(), 1 | 256);
    assert!(s.is_new && s.is_modified && !s.is_deleted && !s.is_renamed && !s.is_ignored);
    let s = file_status("g".to_string(), 128 | 512 | 2048 | 16384);
    assert!(s.is_new && !s.is_modified && s.is_deleted && s.is_renamed && s.is_ignored);
    let s = file_status("h".to_string(), 2 | 4 | 8);
    assert!(!s.is_new && s.is_modified && s.is_deleted && s.is_renamed);
    let s = file_status("i".to_string(), 0);
    assert!(!(s.is_new || s.is_modified || s.is_deleted || s.is_renamed || s.is_ignored));
}

#[test]
fn metadata_and_directory_paths() {
    assert!(is_metadata_path_exec(&".git/config".to_string()));
    assert!(!is_metadata_path_exec(&".gitignore".to_string()));
    assert!(in_directory_exec(&"src/a.rs".to_string(), &"src".to_string()));
    assert!(in_directory_exec(&"src/a.rs".to_string(), &"src/".to_string()));
    assert!(!in_directory_exec(&"srcs/a.rs".to_string(), &"src".to_string()));
    assert!(in_directory_exec(&"anything".to_string(), &".".to_string()));
}

#[test]
fn universe_unions_status_and_tree_minus_ignored_and_metadata() {
    let st = vec![status("new.txt", true, false), status("skip.log", false, true), status(".git/HEAD", false, false), status("a.txt", false, false)];
    let tree: Vec<String> = ["a.txt", "b.txt", "skip.log"].iter().map(|s| s.to_string()).collect();
    let mut u = path_universe(&st, &tree, &".".to_string());
    u.sort();
    assert_eq!(u, vec!["a.txt", "b.txt", "new.txt"]);
}

#[test]
fn listing_resolves_tracked_and_synthesizes_untracked() {
    let log = three_commits();
    let st = vec![status("new.txt", true, false), status("gone.txt", false, false)];
    let tree: Vec<String> = ["a.txt", "b.txt"].iter().map(|s| s.to_string()).collect();
    let mut v = list_entries(&log, &st, &tree, &".".to_string());
    v.sort_by(|x, y| x.path.cmp(&y.path));
    let paths: Vec<&str> = v.iter().map(|m| m.path.as_str()).collect();
    assert_eq!(paths, vec!["a.txt", "b.txt", "new.txt"]);
    assert_eq!(v[0].last_commit_hash, "c2");
    assert_eq!(v[1].last_commit_hash, "c3");
    assert_eq!(v[2].last_commit_hash, "");
    assert_eq!(v[2].last_commit_message, "Untracked file");
    assert_eq!((v[2].last_commit_time, v[2].added_lines, v[2].deleted_lines), (0, 0, 0));
}

#[test]
fn listing_without_commits_has_only_untracked_entries() {
    let st = vec![status("x.txt", true, false), status("y.txt", false, false)];
    let v = list_entries(&Vec::new(), &st, &Vec::new(), &".".to_string());
    assert_eq!(v.len(), 1);
    assert_eq!(v[0].path, "x.txt");
    assert_eq!(v[0].last_commit_message, "Untracked file");
}

#[test]
fn listing_keeps_to_the_directory() {
    let log = three_commits();
    let tree: Vec<String> = ["a.txt", "docs/b.txt"].iter().map(|s| s.to_string()).collect();
    let st = vec![status("docs/new.md", true, false)];
    let mut v = list_entries(&log, &st, &tree, &"docs".to_string());
    v.sort_by(|x, y| x.path.cmp(&y.path));
    let paths: Vec<&str> = v.iter().map(|m| m.path.as_str()).collect();
    assert_eq!(paths, vec!["docs/new.md"]);
}

#[test]
fn universe_leaves_out_the_empty_path() {
    let st = vec![status("", true, false), status("n.txt", true, false)];
    let u = path_universe(&st, &Vec::new(), &".".to_string());
    assert_eq!(u, vec!["n.txt"]);
}
