use git_meta::repo::{get_branch_name, init_repository, is_git_repository, GitRepo};
use git_meta::ErrorKind;
use std::time::{SystemTime, UNIX_EPOCH};

fn fresh_path(name: &str) -> String {
    let nanos = SystemTime::now().duration_since(UNIX_EPOCH).unwrap().as_nanos();
    format!("/tmp/git_meta_{}_{}", name, nanos)
}

fn commit_files(repo: &git2::Repository, files: &[(&str, &str)], parents: &[git2::Oid], time: i64, update: Option<&str>) -> git2::Oid {
    let mut tb = repo.treebuilder(None).unwrap();
    for (name, content) in files {
        let blob = repo.blob(content.as_bytes()).unwrap();
        tb.insert(name, blob, 0o100644).unwrap();
    }
    let tree = repo.find_tree(tb.write().unwrap()).unwrap();
    let sig = git2::Signature::new("Ann", "ann@example.com", &git2::Time::new(time, 0)).unwrap();
    let parents: Vec<git2::Commit> = parents.iter().map(|p| repo.find_commit(*p).unwrap()).collect();
    let refs: Vec<&git2::Commit> = parents.iter().collect();
    repo.commit(update, &sig, &sig, &format!("at {}", time), &tree, &refs).unwrap()
}

/// C1 -> C2 -> C3 on HEAD: `a.txt` created in C1, modified in C2.
fn three_commit_repo(name: &str) -> (String, git2::Oid, git2::Oid, git2::Oid) {
    let path = fresh_path(name);
    let repo = git2::Repository::init(&path).unwrap();
    let c1 = commit_files(&repo, &[("a.txt", "one\n")], &[], 1000, Some("HEAD"));
    let c2 = commit_files(&repo, &[("a.txt", "one\ntwo\n")], &[c1], 2000, Some("HEAD"));
    let c3 = commit_files(&repo, &[("a.txt", "one\ntwo\n"), ("b.txt", "b\n")], &[c2], 3000, Some("HEAD"));
    (path, c1, c2, c3)
}

#[test]
fn repository_last_change_and_history() {
    let (path, c1, c2, _c3) = three_commit_repo("history");
    let repo = GitRepo::new(path).unwrap();
    let m = repo.get_file_metadata("a.txt".to_string()).unwrap();
    assert_eq!(m.last_commit_hash, c2.to_string());
    assert_eq!(m.last_author_name, "Ann");
    assert_eq!(m.last_commit_time, 2000);
    assert_eq!((m.added_lines, m.deleted_lines), (1, 0));
    let h = repo.get_file_history("a.txt".to_string()).unwrap();
    let ids: Vec<String> = h.iter().map(|c| c.commit_hash.clone()).collect();
    assert_eq!(ids, vec![c2.to_string(), c1.to_string()]);
    assert_eq!(h[1].commit_message, "at 1000");
    let again = repo.get_file_history("a.txt".to_string()).unwrap();
    assert_eq!(format!("{:?}", h), format!("{:?}", again));
}

#[test]
fn repository_history_can_be_cancelled() {
    let (path, c1, c2, _) = three_commit_repo("cancel");
    let repo = GitRepo::new(path).unwrap();
    let flag = std::sync::atomic::AtomicBool::new(false);
    let h = repo.get_file_history_cancellable("a.txt".to_string(), &flag).unwrap().unwrap();
    let ids: Vec<String> = h.into_iter().map(|c| c.commit_hash).collect();
    assert_eq!(ids, vec![c2.to_string(), c1.to_string()]);
    flag.store(true, std::sync::atomic::Ordering::Relaxed);
    assert!(repo.get_file_history_cancellable("a.txt".to_string(), &flag).unwrap().is_none());
}

#[test]
fn repository_unknown_path_has_no_history() {
    let (path, _, _, _) = three_commit_repo("unknown");
    let repo = GitRepo::new(path).unwrap();
    let e = repo.get_file_metadata("nope.txt".to_string()).unwrap_err();
    assert_eq!(e.kind, ErrorKind::HistoryNotFound);
    assert!(repo.get_file_history("nope.txt".to_string()).unwrap().is_empty());
}

#[test]
fn repository_merge_uses_first_parent() {
    let path = fresh_path("merge");
    let raw = git2::Repository::init(&path).unwrap();
    let base = commit_files(&raw, &[("a.txt", "a\n"), ("b.txt", "x\n")], &[], 1000, Some("HEAD"));
    let left = commit_files(&raw, &[("a.txt", "a2\n"), ("b.txt", "x\n")], &[base], 2000, Some("HEAD"));
    let right = commit_files(&raw, &[("a.txt", "a\n"), ("b.txt", "y\n")], &[base], 3000, None);
    let m = commit_files(&raw, &[("a.txt", "a2\n"), ("b.txt", "x\n")], &[left, right], 4000, Some("HEAD"));
    let repo = GitRepo::new(path).unwrap();
    let ids: Vec<String> = repo.get_file_history("b.txt".to_string()).unwrap().into_iter().map(|c| c.commit_hash).collect();
    assert!(!ids.contains(&m.to_string()));
    assert_eq!(ids, vec![right.to_string(), base.to_string()]);
}

#[test]
fn repository_without_commits() {
    let path = fresh_path("empty");
    let repo = init_repository(path.clone()).unwrap();
    assert_eq!(repo.walk_ids().unwrap_err().kind, ErrorKind::ReferenceResolutionFailure);
    assert_eq!(repo.get_head_commit_hash().unwrap_err().kind, ErrorKind::ReferenceResolutionFailure);
    assert!(repo.list_files_with_metadata(None).unwrap().is_empty());
    assert!(is_git_repository(path));
}

#[test]
fn repository_listing_holds_tracked_files() {
    let (path, _, c2, c3) = three_commit_repo("listing");
    let repo = GitRepo::new(path).unwrap();
    let mut v = repo.list_files_with_metadata(None).unwrap();
    v.sort_by(|x, y| x.path.cmp(&y.path));
    let got: Vec<(String, String)> = v.iter().map(|m| (m.path.clone(), m.last_commit_hash.clone())).collect();
    assert_eq!(got, vec![("a.txt".to_string(), c2.to_string()), ("b.txt".to_string(), c3.to_string())]);
}

#[test]
fn repository_tags_of_both_kinds() {
    let (path, c1, _, c3) = three_commit_repo("tags");
    let repo = GitRepo::new(path).unwrap();
    repo.create_tag("v1".to_string(), Some("first release".to_string()), Some(c1.to_string())).unwrap();
    let light = repo.create_tag("light".to_string(), None, None).unwrap();
    assert_eq!(light, c3.to_string());
    let mut tags = repo.list_tags().unwrap();
    tags.sort_by(|x, y| x.name.cmp(&y.name));
    assert_eq!(tags.len(), 2);
    assert_eq!(tags[0].name, "light");
    assert_eq!(tags[0].message, "");
    assert_eq!(tags[0].target_commit, c3.to_string());
    assert_eq!((tags[0].tagger_name.as_str(), tags[0].tagger_email.as_str(), tags[0].tag_time), ("Ann", "ann@example.com", 3000));
    assert_eq!(tags[1].name, "v1");
    assert_eq!(tags[1].message, "first release");
    assert_eq!(tags[1].target_commit, c1.to_string());
    repo.delete_tag("light".to_string()).unwrap();
    assert_eq!(repo.list_tags().unwrap().len(), 1);
}

#[test]
fn repository_checkout_commit_leaves_clean_status() {
    let (path, c1, _, _) = three_commit_repo("checkout");
    let raw = git2::Repository::open(&path).unwrap();
    raw.checkout_head(Some(git2::build::CheckoutBuilder::new().force())).unwrap();
    let repo = GitRepo::new(path).unwrap();
    repo.checkout_commit(c1.to_string()).unwrap();
    assert_eq!(repo.get_head_commit_hash().unwrap(), c1.to_string());
    assert_eq!(repo.get_current_branch().unwrap_err().kind, ErrorKind::ReferenceResolutionFailure);
    let st = repo.get_file_status().unwrap();
    assert!(st.iter().all(|s| !s.is_modified && !s.is_new));
}

#[test]
fn repository_branch_checkout_attaches_head() {
    let (path, c1, _, _) = three_commit_repo("branch");
    let raw = git2::Repository::open(&path).unwrap();
    raw.checkout_head(Some(git2::build::CheckoutBuilder::new().force())).unwrap();
    let repo = GitRepo::new(path.clone()).unwrap();
    repo.create_branch("old".to_string(), Some(c1.to_string())).unwrap();
    repo.checkout_branch("old".to_string()).unwrap();
    assert_eq!(repo.get_current_branch().unwrap(), "old");
    assert_eq!(get_branch_name(path).unwrap(), "old");
    assert_eq!(repo.get_head_commit_hash().unwrap(), c1.to_string());
}

#[test]
fn repository_errors_by_kind() {
    let e = GitRepo::new("/nonexistent/git_meta/none".to_string()).err().unwrap();
    assert_eq!(e.kind, ErrorKind::RepositoryNotFound);
    assert!(!is_git_repository("/nonexistent/git_meta/none".to_string()));
    let (path, _, _, _) = three_commit_repo("errors");
    let repo = GitRepo::new(path).unwrap();
    assert_eq!(repo.checkout_commit("0123".to_string()).unwrap_err().kind, ErrorKind::ObjectNotFound);
    assert_eq!(repo.checkout_branch("missing".to_string()).unwrap_err().kind, ErrorKind::ReferenceResolutionFailure);
    assert_eq!(repo.get_remote_url("origin".to_string()).unwrap_err().kind, ErrorKind::ReferenceResolutionFailure);
}

#[test]
fn repository_without_commits_lists_staged_files_as_untracked() {
    let path = fresh_path("staged");
    let raw = git2::Repository::init(&path).unwrap();
    let mut index = raw.index().unwrap();
    let entry = git2::IndexEntry {
        ctime: git2::IndexTime::new(0, 0),
        mtime: git2::IndexTime::new(0, 0),
        dev: 0,
        ino: 0,
        mode: 0o100644,
        uid: 0,
        gid: 0,
        file_size: 0,
        id: git2::Oid::zero(),
        flags: 0,
        flags_extended: 0,
        path: b"new.txt".to_vec(),
    };
    index.add_frombuffer(&entry, b"hello\n").unwrap();
    index.write().unwrap();
    let repo = GitRepo::new(path).unwrap();
    assert_eq!(repo.get_file_metadata("new.txt".to_string()).unwrap_err().kind, ErrorKind::ReferenceResolutionFailure);
    let v = repo.list_files_with_metadata(None).unwrap();
    assert_eq!(v.len(), 1);
    assert_eq!(v[0].path, "new.txt");
    assert_eq!(v[0].last_commit_hash, "");
    assert_eq!(v[0].last_commit_message, "Untracked file");
    let st = repo.get_file_status().unwrap();
    assert!(st.iter().any(|s| s.path == "new.txt" && s.is_new));
}

#[test]
fn repository_lightweight_tag_takes_the_author_time() {
    let path = fresh_path("authortime");
    let raw = git2::Repository::init(&path).unwrap();
    let tree = raw.find_tree(raw.treebuilder(None).unwrap().write().unwrap()).unwrap();
    let author = git2::Signature::new("Ann", "ann@example.com", &git2::Time::new(500, 0)).unwrap();
    let committer = git2::Signature::new("Cid", "cid@example.com", &git2::Time::new(9000, 0)).unwrap();
    let c = raw.commit(Some("HEAD"), &author, &committer, "m", &tree, &[]).unwrap();
    let repo = GitRepo::new(path).unwrap();
    assert_eq!(repo.create_tag("lw".to_string(), None, None).unwrap(), c.to_string());
    let tags = repo.list_tags().unwrap();
    assert_eq!(tags.len(), 1);
    assert_eq!((tags[0].tagger_name.as_str(), tags[0].tag_time, tags[0].message.as_str()), ("Ann", 500, ""));
}

#[test]
fn repository_listing_has_no_empty_path() {
    let (path, _, _, _) = three_commit_repo("emptypath");
    let repo = GitRepo::new(path).unwrap();
    let v = repo.list_files_with_metadata(None).unwrap();
    assert!(v.iter().all(|m| !m.path.is_empty()));
}
