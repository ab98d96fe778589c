use git_meta::checkout::{head_after, CheckoutTarget, HeadState};
use git_meta::engine::{AnnotatedTag, TreeItem};
use git_meta::repo::{tag_plan, TagPlan, blob_paths, branch_of_head, search_step, SearchStep, first_parent, remote_url_of, tagger_identity};
use git_meta::tags::{tag_info, tag_listing, TagKind};
use git_meta::{CommitRecord, ErrorKind};

fn record(id: &str, parents: &[&str]) -> CommitRecord {
    CommitRecord {
        id: id.to_string(),
        message: "m".to_string(),
        author_name: "Bob".to_string(),
        author_email: "bob@example.com".to_string(),
        time: 42,
        author_time: 41,
        parents: parents.iter().map(|p| p.to_string()).collect(),
    }
}

#[test]
fn annotated_tag_keeps_its_own_fields() {
    let a = AnnotatedTag { target: "abc".to_string(), message: "msg".to_string(), tagger: Some(("T".to_string(), "t@x".to_string(), 7)) };
    let t = tag_info("v1".to_string(), TagKind::Annotated(a));
    assert_eq!((t.name.as_str(), t.target_commit.as_str(), t.message.as_str()), ("v1", "abc", "msg"));
    assert_eq!((t.tagger_name.as_str(), t.tagger_email.as_str(), t.tag_time), ("T", "t@x", 7));
}

#[test]
fn annotated_tag_without_tagger() {
    let a = AnnotatedTag { target: "abc".to_string(), message: "msg".to_string(), tagger: None };
    let t = tag_info("v1".to_string(), TagKind::Annotated(a));
    assert_eq!((t.tagger_name.as_str(), t.tagger_email.as_str(), t.tag_time), ("", "", 0));
}

#[test]
fn lightweight_tag_borrows_the_commit_author() {
    let t = tag_info("v2".to_string(), TagKind::Lightweight(record("c1", &[])));
    assert_eq!((t.target_commit.as_str(), t.message.as_str()), ("c1", ""));
    assert_eq!((t.tagger_name.as_str(), t.tagger_email.as_str(), t.tag_time), ("Bob", "bob@example.com", 41));
}

#[test]
fn only_branch_checkout_attaches() {
    match head_after(&CheckoutTarget::Branch("main".to_string()), "c1".to_string()) {
        HeadState::OnBranch(n) => assert_eq!(n, "main"),
        other => panic!("unexpected {:?}", other),
    }
    match head_after(&CheckoutTarget::Tag("v1".to_string()), "c1".to_string()) {
        HeadState::Detached(id) => assert_eq!(id, "c1"),
        other => panic!("unexpected {:?}", other),
    }
    match head_after(&CheckoutTarget::Commit("c2".to_string()), "c2".to_string()) {
        HeadState::Detached(id) => assert_eq!(id, "c2"),
        other => panic!("unexpected {:?}", other),
    }
}

#[test]
fn first_parent_is_diffed() {
    assert_eq!(first_parent(&record("m", &["left", "right"])).unwrap(), "left");
    assert!(first_parent(&record("root", &[])).is_none());
}

#[test]
fn branch_of_head_cases() {
    assert_eq!(branch_of_head(true, Some("main".to_string())).unwrap(), "main");
    assert_eq!(branch_of_head(false, Some("main".to_string())).unwrap_err().kind, ErrorKind::ReferenceResolutionFailure);
    assert_eq!(branch_of_head(true, None).unwrap_err().kind, ErrorKind::ReferenceResolutionFailure);
}

#[test]
fn remote_url_cases() {
    assert_eq!(remote_url_of(&"origin".to_string(), Some("u".to_string())).unwrap(), "u");
    let e = remote_url_of(&"origin".to_string(), None).unwrap_err();
    assert_eq!((e.kind, e.target.as_str()), (ErrorKind::ReferenceResolutionFailure, "origin"));
}

#[test]
fn tagger_identity_defaults() {
    assert_eq!(tagger_identity(None, None), ("Unknown".to_string(), "unknown@example.com".to_string()));
    assert_eq!(tagger_identity(Some("A".to_string()), None), ("A".to_string(), "unknown@example.com".to_string()));
}

#[test]
fn tree_walk_keeps_named_blobs() {
    let items = vec![
        TreeItem { path: Some("a.txt".to_string()), is_blob: true },
        TreeItem { path: Some("dir".to_string()), is_blob: false },
        TreeItem { path: None, is_blob: true },
        TreeItem { path: Some("dir/b.txt".to_string()), is_blob: true },
    ];
    assert_eq!(blob_paths(items), vec!["a.txt".to_string(), "dir/b.txt".to_string()]);
}

#[test]
fn tag_listing_keeps_resolved_tags_in_name_order() {
    let a = AnnotatedTag { target: "abc".to_string(), message: "msg".to_string(), tagger: None };
    let resolved = vec![
        ("v1".to_string(), Some(TagKind::Annotated(a))),
        ("tree-tag".to_string(), None),
        ("v2".to_string(), Some(TagKind::Lightweight(record("c1", &[])))),
    ];
    let v = tag_listing(resolved);
    let names: Vec<&str> = v.iter().map(|t| t.name.as_str()).collect();
    assert_eq!(names, vec!["v1", "v2"]);
    assert_eq!((v[0].message.as_str(), v[0].target_commit.as_str()), ("msg", "abc"));
    assert_eq!((v[1].message.as_str(), v[1].tagger_name.as_str(), v[1].tag_time), ("", "Bob", 41));
    assert!(tag_listing(Vec::new()).is_empty());
}

#[test]
fn upward_search_steps() {
    assert!(matches!(search_step(&"/a/b".to_string(), true, true), SearchStep::Open));
    assert!(matches!(search_step(&"/a/b".to_string(), false, true), SearchStep::Up));
    match search_step(&"/a/b".to_string(), false, false) {
        SearchStep::NotFound(e) => {
            assert_eq!(e.kind, ErrorKind::RepositoryNotFound);
            assert_eq!(e.target, "/a/b");
        },
        other => panic!("unexpected {:?}", other),
    }
}

#[test]
fn tag_plan_by_message() {
    assert!(matches!(tag_plan(None, Some("A".to_string()), None), TagPlan::Lightweight));
    match tag_plan(Some("m".to_string()), Some("A".to_string()), None) {
        TagPlan::Annotated { message, tagger_name, tagger_email } => {
            assert_eq!((message.as_str(), tagger_name.as_str(), tagger_email.as_str()), ("m", "A", "unknown@example.com"));
        },
        other => panic!("unexpected {:?}", other),
    }
    match tag_plan(Some("".to_string()), None, None) {
        TagPlan::Annotated { tagger_name, .. } => assert_eq!(tagger_name, "Unknown"),
        other => panic!("unexpected {:?}", other),
    }
}
