use git_meta::events::{event_type, file_event, is_ignored_event, project_event_type, resolve_options, ChangeKind, WatchOptions};
use git_meta::listing::{directory_entry, file_entry, project_event, sort_entries, FileEntry};
use git_meta::registry::WatchRegistry;
use git_meta::repo::GitRepo;

fn strings(v: &[&str]) -> Vec<String> {
    v.iter().map(|s| s.to_string()).collect()
}

fn entry(name: &str, is_dir: bool) -> FileEntry {
    file_entry(name.to_string(), format!("/p/{}", name), is_dir, !is_dir, 3)
}

#[test]
fn entries_sort_directories_first_then_by_lowercase_name() {
    let v = sort_entries(vec![entry("b.txt", false), entry("Zeta", true), entry("A.txt", false), entry("alpha", true)]);
    let names: Vec<&str> = v.iter().map(|e| e.name.as_str()).collect();
    assert_eq!(names, vec!["alpha", "Zeta", "A.txt", "b.txt"]);
}

#[test]
fn sort_compares_lowercase_forms() {
    let v = sort_entries(vec![entry("B", false), entry("a", false)]);
    let names: Vec<&str> = v.iter().map(|e| e.name.as_str()).collect();
    assert_eq!(names, vec!["a", "B"]);
}

#[test]
fn sort_keeps_order_of_equal_names_and_handles_empty() {
    let v = sort_entries(vec![file_entry("x".to_string(), "/1".to_string(), false, true, 1), file_entry("X".to_string(), "/2".to_string(), false, true, 2)]);
    let paths: Vec<&str> = v.iter().map(|e| e.path.as_str()).collect();
    assert_eq!(paths, vec!["/1", "/2"]);
    assert!(sort_entries(Vec::new()).is_empty());
}

#[test]
fn only_files_have_a_size() {
    assert_eq!(entry("f", false).size, Some(3));
    assert_eq!(entry("d", true).size, None);
    let d = directory_entry("d".to_string(), "/d".to_string(), vec![entry("z", false), entry("sub", true)]);
    assert!(d.is_dir && !d.is_file && d.size.is_none());
    let names: Vec<String> = d.children.unwrap().into_iter().map(|e| e.name).collect();
    assert_eq!(names, vec!["sub", "z"]);
}

#[test]
fn event_names() {
    assert_eq!(event_type(ChangeKind::Create), "create");
    assert_eq!(event_type(ChangeKind::Modify), "modify");
    assert_eq!(event_type(ChangeKind::Remove), "remove");
    assert_eq!(event_type(ChangeKind::Access), "access");
    assert_eq!(event_type(ChangeKind::Other), "other");
    assert_eq!(project_event_type(ChangeKind::Access), None);
    assert!(project_event("/a".to_string(), ChangeKind::Other).is_none());
    assert_eq!(project_event("/a".to_string(), ChangeKind::Remove).unwrap().kind, "remove");
    assert_eq!(file_event("/a".to_string(), ChangeKind::Create).event_type, "create");
}

#[test]
fn ignored_events_by_path_component() {
    let ignore = strings(&["/p/target", "/p/.git/"]);
    assert!(is_ignored_event(&strings(&["/p/src/a.rs", "/p/target/x"]), &ignore));
    assert!(is_ignored_event(&strings(&["/p/.git/index"]), &ignore));
    assert!(is_ignored_event(&strings(&["/p/target"]), &ignore));
    assert!(!is_ignored_event(&strings(&["/p/targets/x"]), &ignore));
    assert!(!is_ignored_event(&strings(&["/p/src/a.rs"]), &Vec::new()));
}

#[test]
fn watch_options_defaults() {
    assert_eq!(resolve_options(None), (true, Vec::new()));
    let o = WatchOptions { recursive: Some(false), ignore_paths: Some(strings(&["x"])) };
    assert_eq!(resolve_options(Some(o)), (false, strings(&["x"])));
    let o = WatchOptions { recursive: None, ignore_paths: None };
    assert_eq!(resolve_options(Some(o)), (true, Vec::new()));
}

#[test]
fn registry_replaces_removes_and_drains() {
    let mut r: WatchRegistry<u32> = WatchRegistry::new();
    assert_eq!(r.insert("/a".to_string(), 1), None);
    assert_eq!(r.insert("/b".to_string(), 2), None);
    assert_eq!(r.insert("/a".to_string(), 3), Some(1));
    assert!(r.contains(&"/a".to_string()));
    let mut paths = r.paths();
    paths.sort();
    assert_eq!(paths, strings(&["/a", "/b"]));
    assert_eq!(r.remove(&"/b".to_string()), Some(2));
    assert_eq!(r.remove(&"/b".to_string()), None);
    assert_eq!(r.drain(), vec![3]);
    assert!(r.drain().is_empty());
    assert!(!r.contains(&"/a".to_string()));
}

#[test]
fn engine_error_text_is_kept() {
    let e = GitRepo::new("/nonexistent/git_meta/detail".to_string()).err().unwrap();
    assert_eq!(e.target, "/nonexistent/git_meta/detail");
    assert!(!e.detail.is_empty());
}

#[test]
fn registry_lists_each_path_once() {
    let mut r: WatchRegistry<u32> = WatchRegistry::new();
    r.insert("/a".to_string(), 1);
    r.insert("/a".to_string(), 2);
    assert_eq!(r.paths(), strings(&["/a"]));
}
