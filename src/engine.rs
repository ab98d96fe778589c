//! The object-store engine, reached through git2. Each wrapper makes one
//! engine operation and converts what it returns into plain values.
use vstd::prelude::*;
use crate::model::{CommitRecord, DiffLine};

verus! {

#[verifier::external_type_specification]
#[verifier::external_body]
pub struct ExRepository(git2::Repository);

#[verifier::external_type_specification]
#[verifier::external_body]
pub struct ExError(git2::Error);

#[verifier::external_type_specification]
#[verifier::external_body]
pub struct ExCommit<'a>(git2::Commit<'a>);

#[verifier::external_type_specification]
#[verifier::external_body]
pub struct ExTree<'a>(git2::Tree<'a>);

#[verifier::external_type_specification]
#[verifier::external_body]
pub struct ExObject<'a>(git2::Object<'a>);

#[verifier::external_type_specification]
#[verifier::external_body]
pub struct ExReference<'a>(git2::Reference<'a>);

#[verifier::external_type_specification]
#[verifier::external_body]
pub struct ExSignature<'a>(git2::Signature<'a>);

#[verifier::external_type_specification]
#[verifier::external_body]
pub struct ExIndex(git2::Index);

#[verifier::external_type_specification]
#[verifier::external_body]
pub struct ExRemote<'a>(git2::Remote<'a>);

/// One entry met by a walk of a tree: its path, when its name reads as
/// text, and whether it is a blob.
pub struct TreeItem {
    pub path: Option<String>,
    pub is_blob: bool,
}

/// An annotated tag object: its target, message and tagger, when it has one.
pub struct AnnotatedTag {
    pub target: String,
    pub message: String,
    pub tagger: Option<(String, String, i64)>,
}

/// Relies on git2::Repository::open: opens the repository at `path`.
#[verifier::external_body]
pub(crate) fn open_repo(path: &str) -> (r: Result<git2::Repository, git2::Error>) {
    git2::Repository::open(path)
}

/// Relies on git2::Repository::init: creates a repository at `path`.
#[verifier::external_body]
pub(crate) fn init_repo(path: &str) -> (r: Result<git2::Repository, git2::Error>) {
    git2::Repository::init(path)
}

/// Relies on git2::Repository::clone: clones `url` into `path`.
#[verifier::external_body]
pub(crate) fn clone_repo(url: &str, path: &str) -> (r: Result<git2::Repository, git2::Error>) {
    git2::Repository::clone(url, path)
}

/// Relies on git2::Error::message: the engine's text for a failure.
#[verifier::external_body]
pub(crate) fn error_text(e: &git2::Error) -> (r: String) {
    e.message().to_owned()
}

/// Relies on git2::Oid::from_str and Repository::find_commit: the commit
/// with the id written `id`.
#[verifier::external_body]
pub(crate) fn find_commit<'a>(repo: &'a git2::Repository, id: &str) -> (r: Result<git2::Commit<'a>, git2::Error>) {
    repo.find_commit(git2::Oid::from_str(id)?)
}

/// Relies on git2::Commit's accessors (id, message, author, time,
/// parent_ids) and Signature::when for the author's time: the commit as plain values, a missing text read as empty.
#[verifier::external_body]
pub(crate) fn record_of(c: &git2::Commit<'_>) -> (r: CommitRecord) {
    let author = c.author();
    CommitRecord {
        id: c.id().to_string(),
        message: c.message().unwrap_or("").to_owned(),
        author_name: author.name().unwrap_or("").to_owned(),
        author_email: author.email().unwrap_or("").to_owned(),
        time: c.time().seconds(),
        author_time: author.when().seconds(),
        parents: c.parent_ids().map(|p| p.to_string()).collect(),
    }
}

/// Relies on git2::Commit::tree: the tree of a commit.
#[verifier::external_body]
pub(crate) fn commit_tree<'a>(c: &git2::Commit<'a>) -> (r: Result<git2::Tree<'a>, git2::Error>) {
    c.tree()
}

/// Relies on git2::Repository::diff_tree_to_tree (`None` is the empty tree)
/// and Diff::foreach: every line of the diff, with its file change's paths.
#[verifier::external_body]
pub(crate) fn diff_lines(repo: &git2::Repository, old: Option<&git2::Tree<'_>>, new: &git2::Tree<'_>) -> (r: Result<Vec<DiffLine>, git2::Error>) {
    let diff = repo.diff_tree_to_tree(old, Some(new), None)?;
    let mut lines: Vec<DiffLine> = Vec::new();
    let text = |p: Option<&std::path::Path>| p.map(|p| p.to_string_lossy().into_owned()).unwrap_or_default();
    diff.foreach(&mut |_, _| true, None, None, Some(&mut |d, _, l| {
        lines.push(DiffLine { old_path: text(d.old_file().path()), new_path: text(d.new_file().path()), origin: l.origin() });
        true
    }))?;
    Ok(lines)
}

/// Relies on git2::Repository::revwalk, Revwalk::push_head and Revwalk's
/// iteration: the ids of the commits reachable from HEAD, in walk order.
#[verifier::external_body]
pub(crate) fn head_walk(repo: &git2::Repository) -> (r: Result<Vec<String>, git2::Error>) {
    let mut walk = repo.revwalk()?;
    walk.push_head()?;
    walk.map(|id| id.map(|id| id.to_string())).collect()
}

/// Relies on git2::Repository::statuses with untracked files included:
/// each entry's path and status bits.
#[verifier::external_body]
pub(crate) fn status_entries(repo: &git2::Repository, include_ignored: bool, recurse: bool) -> (r: Result<Vec<(String, u32)>, git2::Error>) {
    let mut opts = git2::StatusOptions::new();
    opts.include_untracked(true).recurse_untracked_dirs(recurse).include_ignored(include_ignored);
    let statuses = repo.statuses(Some(&mut opts))?;
    Ok(statuses.iter().map(|e| (e.path().unwrap_or("").to_owned(), e.status().bits())).collect())
}

/// Relies on git2::Repository::tag_names: the names of all tags.
#[verifier::external_body]
pub(crate) fn tag_names(repo: &git2::Repository) -> (r: Result<Vec<String>, git2::Error>) {
    let names = repo.tag_names(None)?;
    Ok(names.iter().flatten().flatten().map(|s| s.to_owned()).collect())
}

/// Relies on git2::Repository::revparse_single: the object that the tag
/// reference `refs/tags/<name>` names.
#[verifier::external_body]
pub(crate) fn tag_object<'a>(repo: &'a git2::Repository, name: &str) -> (r: Result<git2::Object<'a>, git2::Error>) {
    repo.revparse_single(&format!("refs/tags/{}", name))
}

/// Relies on git2::Object::into_tag and Tag's accessors: the object as an
/// annotated tag, or the object back when it is none.
#[verifier::external_body]
pub(crate) fn annotated_tag<'a>(obj: git2::Object<'a>) -> (r: Result<AnnotatedTag, git2::Object<'a>>) {
    let tag = obj.into_tag()?;
    let tagger = tag.tagger().map(|s| (s.name().unwrap_or("").to_owned(), s.email().unwrap_or("").to_owned(), s.when().seconds()));
    Ok(AnnotatedTag { target: tag.target_id().to_string(), message: tag.message().ok().flatten().unwrap_or("").to_owned(), tagger })
}

/// Relies on git2::Object::into_commit: the object as a commit, if it is one.
#[verifier::external_body]
pub(crate) fn object_commit<'a>(obj: git2::Object<'a>) -> (r: Option<git2::Commit<'a>>) {
    obj.into_commit().ok()
}

/// Relies on git2::Repository::find_branch: the reference of local branch `name`.
#[verifier::external_body]
pub(crate) fn local_branch<'a>(repo: &'a git2::Repository, name: &str) -> (r: Result<git2::Reference<'a>, git2::Error>) {
    repo.find_branch(name, git2::BranchType::Local).map(|b| b.into_reference())
}

/// Relies on git2::Repository::checkout_tree with default options, which
/// refuse to overwrite local changes: writes the commit's tree out.
#[verifier::external_body]
pub(crate) fn checkout_tree(repo: &git2::Repository, c: &git2::Commit<'_>) -> (r: Result<(), git2::Error>) {
    repo.checkout_tree(c.as_object(), None)
}

/// Relies on git2::Repository::set_head: attaches HEAD to `refs/heads/<branch>`.
#[verifier::external_body]
pub(crate) fn attach_head(repo: &git2::Repository, branch: &str) -> (r: Result<(), git2::Error>) {
    repo.set_head(&format!("refs/heads/{}", branch))
}

/// Relies on git2::Repository::set_head_detached: points HEAD at the commit.
#[verifier::external_body]
pub(crate) fn detach_head(repo: &git2::Repository, c: &git2::Commit<'_>) -> (r: Result<(), git2::Error>) {
    repo.set_head_detached(c.id())
}

/// Relies on git2::Repository::branch: creates branch `name` at the commit,
/// without replacing an existing one.
#[verifier::external_body]
pub(crate) fn new_branch(repo: &git2::Repository, name: &str, c: &git2::Commit<'_>) -> (r: Result<(), git2::Error>) {
    repo.branch(name, c, false).map(|_| ())
}

/// Relies on git2::Repository::config and Config::get_string: the value of
/// configuration key `key`, `None` when it is not set.
#[verifier::external_body]
pub(crate) fn config_string(repo: &git2::Repository, key: &str) -> (r: Result<Option<String>, git2::Error>) {
    Ok(repo.config()?.get_string(key).ok())
}

/// Relies on git2::Repository::reference: creates `refs/tags/<name>` at the
/// commit, without replacing an existing one.
#[verifier::external_body]
pub(crate) fn new_lightweight_tag(repo: &git2::Repository, name: &str, c: &git2::Commit<'_>) -> (r: Result<(), git2::Error>) {
    repo.reference(&format!("refs/tags/{}", name), c.id(), false, "").map(|_| ())
}

/// Relies on git2::Repository::tag_delete: removes tag `name`.
#[verifier::external_body]
pub(crate) fn remove_tag(repo: &git2::Repository, name: &str) -> (r: Result<(), git2::Error>) {
    repo.tag_delete(name)
}

/// Relies on git2::Object::peel_to_commit: the commit that a tag object
/// leads to.
#[verifier::external_body]
pub(crate) fn peel_commit<'a>(obj: &git2::Object<'a>) -> (r: Result<git2::Commit<'a>, git2::Error>) {
    obj.peel_to_commit()
}

/// Relies on git2::Repository::head: the reference that HEAD names.
#[verifier::external_body]
pub(crate) fn head_ref(repo: &git2::Repository) -> (r: Result<git2::Reference<'_>, git2::Error>) {
    repo.head()
}

/// Relies on git2::Reference::peel_to_commit: the commit a reference leads to.
#[verifier::external_body]
pub(crate) fn ref_commit<'a>(r: &git2::Reference<'a>) -> (c: Result<git2::Commit<'a>, git2::Error>) {
    r.peel_to_commit()
}

/// Relies on git2::Reference::is_branch: whether the reference is a local branch.
#[verifier::external_body]
pub(crate) fn ref_is_branch(r: &git2::Reference<'_>) -> (b: bool) {
    r.is_branch()
}

/// Relies on git2::Reference::shorthand: the reference's short name, when it
/// reads as text.
#[verifier::external_body]
pub(crate) fn ref_shorthand(r: &git2::Reference<'_>) -> (n: Option<String>) {
    r.shorthand().ok().map(|s| s.to_owned())
}

/// Relies on git2::Tree::walk in pre-order: every entry of the tree, with
/// its directory prefix joined to its name.
#[verifier::external_body]
pub(crate) fn tree_items(tree: &git2::Tree<'_>) -> (r: Result<Vec<TreeItem>, git2::Error>) {
    let mut items: Vec<TreeItem> = Vec::new();
    tree.walk(git2::TreeWalkMode::PreOrder, |dir, e| {
        let path = e.name().ok().map(|name| format!("{}{}", dir, name));
        items.push(TreeItem { path, is_blob: e.kind() == Some(git2::ObjectType::Blob) });
        git2::TreeWalkResult::Ok
    })?;
    Ok(items)
}

/// Relies on git2::Repository::find_remote: the remote named `name`.
#[verifier::external_body]
pub(crate) fn find_remote<'a>(repo: &'a git2::Repository, name: &str) -> (r: Result<git2::Remote<'a>, git2::Error>) {
    repo.find_remote(name)
}

/// Relies on git2::Remote::url: the remote's URL, when it reads as text.
#[verifier::external_body]
pub(crate) fn remote_url(remote: &git2::Remote<'_>) -> (u: Option<String>) {
    remote.url().ok().map(|u| u.to_owned())
}

/// Relies on git2::Remote::push: pushes `refs/heads/<branch>` to the same
/// name on the remote.
#[verifier::external_body]
pub(crate) fn push_branch(remote: &mut git2::Remote<'_>, branch: &str) -> (r: Result<(), git2::Error>) {
    remote.push(&[format!("refs/heads/{0}:refs/heads/{0}", branch)], None)
}

/// Relies on git2::Signature::now: an identity stamped with the current time.
#[verifier::external_body]
pub(crate) fn signature_now(name: &str, email: &str) -> (r: Result<git2::Signature<'static>, git2::Error>) {
    git2::Signature::now(name, email)
}

/// Relies on git2::Repository::index: the repository's index.
#[verifier::external_body]
pub(crate) fn repo_index(repo: &git2::Repository) -> (r: Result<git2::Index, git2::Error>) {
    repo.index()
}

/// Relies on git2::Index::add_all with the pattern `*`: stages every file
/// of the working tree in the in-memory index.
#[verifier::external_body]
pub(crate) fn index_add_all(index: &mut git2::Index) -> (r: Result<(), git2::Error>) {
    index.add_all(["*"].iter(), git2::IndexAddOption::DEFAULT, None)
}

/// Relies on git2::Index::write: saves the index to disk.
#[verifier::external_body]
pub(crate) fn index_write(index: &mut git2::Index) -> (r: Result<(), git2::Error>) {
    index.write()
}

/// Relies on git2::Index::write_tree and Repository::find_tree: the tree
/// that the index holds, written to the object store.
#[verifier::external_body]
pub(crate) fn index_tree<'a>(repo: &'a git2::Repository, index: &mut git2::Index) -> (r: Result<git2::Tree<'a>, git2::Error>) {
    repo.find_tree(index.write_tree()?)
}

/// Relies on git2::Repository::commit: commits `tree` on top of `parent`
/// with one identity as author and committer, moving HEAD; returns the new
/// commit's id.
#[verifier::external_body]
pub(crate) fn new_commit(repo: &git2::Repository, sig: &git2::Signature<'_>, message: &str, tree: &git2::Tree<'_>, parent: &git2::Commit<'_>) -> (r: Result<String, git2::Error>) {
    Ok(repo.commit(Some("HEAD"), sig, sig, message, tree, &[parent])?.to_string())
}

/// Relies on git2::Repository::tag: creates annotated tag `name` on the
/// commit, without replacing an existing one; returns the tag object's id.
#[verifier::external_body]
pub(crate) fn new_annotated_tag(repo: &git2::Repository, name: &str, c: &git2::Commit<'_>, tagger: &git2::Signature<'_>, message: &str) -> (r: Result<String, git2::Error>) {
    Ok(repo.tag(name, c.as_object(), tagger, message, false)?.to_string())
}

} // verus!
