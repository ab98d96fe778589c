use vstd::prelude::*;
use crate::checkout::{head_after, head_after_spec, target_label, CheckoutTarget, HeadState};
use crate::engine;
use crate::engine::TreeItem;
use crate::attribution::change_stat;
use crate::history::{commits_distinct, history_of, metadata_of, resolve_history, resolve_last};
use crate::model::{CommitChanges, CommitInfo, CommitRecord, ErrorKind, FileMetadata, FileStatus, GitError, TagInfo};
use crate::status::file_statuses;
use crate::tags::{is_tag_listing, tag_listing, TagKind};
use crate::universe::{is_listing, list_entries};
use crate::walk::{first_visits, views_distinct};

verus! {

/// An open repository session.
pub struct GitRepo {
    repo: git2::Repository,
}

/// Commits read one per walked id, the ids each once, are each once.
proof fn lemma_walked_commits_distinct(log: Seq<CommitChanges>, ids: Seq<String>)
    requires
        views_distinct(ids),
        log.len() <= ids.len(),
        forall|k: int| 0 <= k < log.len() ==> (#[trigger] log[k]).record.id == ids[k],
    ensures
        commits_distinct(log),
{
    assert forall|a: int, b: int| 0 <= a < b < log.len() implies (#[trigger] log[a]).record.id@
        != (#[trigger] log[b]).record.id@ by {
        assert(log[a].record.id == ids[a] && log[b].record.id == ids[b]);
    }
}

/// An engine failure as an error of `kind`, with its operation and target.
fn fail(kind: ErrorKind, operation: &str, target: &str, e: &git2::Error) -> (r: GitError)
    ensures
        r.kind == kind,
        r.operation@ == operation@,
        r.target@ == target@,
{
    GitError::new(kind, operation, target, engine::error_text(e))
}

/// The parent that a commit is diffed against: its first, if it has one.
pub fn first_parent(rec: &CommitRecord) -> (r: Option<&String>)
    ensures
        r == if rec.parents@.len() > 0 {
            Some(&rec.parents@[0])
        } else {
            None::<&String>
        },
{
    if rec.parents.len() > 0 {
        Some(&rec.parents[0])
    } else {
        None
    }
}

/// `r` is the listing of some walk without repeated commits, status scan
/// and tree of HEAD.
pub open spec fn lists_some_scan(base: Seq<char>, r: Seq<FileMetadata>) -> bool {
    exists|log: Seq<CommitChanges>, st: Seq<FileStatus>, tree: Seq<String>|
        commits_distinct(log) && #[trigger] is_listing(log, st, tree, base, r)
}

/// `r` is the catalog that `tag_listing` builds from some resolution of
/// the tag names.
pub open spec fn lists_some_tags(r: Seq<TagInfo>) -> bool {
    exists|res: Seq<(String, Option<TagKind>)>| #[trigger] is_tag_listing(res, r)
}

/// The directory that a listing covers: `.`, every path, by default.
pub open spec fn listing_base(d: Option<String>) -> Seq<char> {
    match d {
        Some(d) => d@,
        None => "."@,
    }
}

pub open spec fn is_walk_failure(k: ErrorKind) -> bool {
    k == ErrorKind::ReferenceResolutionFailure || k == ErrorKind::ObjectNotFound
        || k == ErrorKind::DiffComputationFailure
}

/// The branch that HEAD is on, from whether it is on one and its short name.
pub fn branch_of_head(is_branch: bool, short: Option<String>) -> (r: Result<String, GitError>)
    ensures
        r is Ok <==> is_branch && short is Some,
        r matches Ok(n) ==> short == Some(n),
        r matches Err(e) ==> e.kind == ErrorKind::ReferenceResolutionFailure,
{
    if !is_branch {
        return Err(GitError::new(ErrorKind::ReferenceResolutionFailure, "read branch", "HEAD", "HEAD is not a branch".to_owned()));
    }
    match short {
        Some(n) => Ok(n),
        None => Err(GitError::new(ErrorKind::ReferenceResolutionFailure, "read branch", "HEAD", "no branch name".to_owned())),
    }
}

/// The URL of remote `name`, failing when it has none.
pub fn remote_url_of(name: &String, url: Option<String>) -> (r: Result<String, GitError>)
    ensures
        r is Ok <==> url is Some,
        r matches Ok(u) ==> url == Some(u),
        r matches Err(e) ==> e.kind == ErrorKind::ReferenceResolutionFailure && e.target@ == name@,
{
    match url {
        Some(u) => Ok(u),
        None => Err(GitError::new(ErrorKind::ReferenceResolutionFailure, "read remote url", name.as_str(), "no URL".to_owned())),
    }
}

pub open spec fn default_tagger_name() -> Seq<char> {
    "Unknown"@
}

pub open spec fn default_tagger_email() -> Seq<char> {
    "unknown@example.com"@
}

/// The identity that new tags carry: the configured one, each part that is
/// not set replaced by a fixed default.
pub fn tagger_identity(name: Option<String>, email: Option<String>) -> (r: (String, String))
    ensures
        match name {
            Some(n) => r.0 == n,
            None => r.0@ == default_tagger_name(),
        },
        match email {
            Some(e) => r.1 == e,
            None => r.1@ == default_tagger_email(),
        },
{
    let n = match name {
        Some(n) => n,
        None => "Unknown".to_owned(),
    };
    let e = match email {
        Some(e) => e,
        None => "unknown@example.com".to_owned(),
    };
    (n, e)
}

pub open spec fn blob_paths_of(items: Seq<TreeItem>) -> Seq<String>
    decreases items.len(),
{
    if items.len() == 0 {
        Seq::empty()
    } else {
        let prev = blob_paths_of(items.drop_last());
        match items.last().path {
            Some(p) if items.last().is_blob => prev.push(p),
            _ => prev,
        }
    }
}

/// The paths of the blobs among the entries of a tree walk, in walk order.
pub fn blob_paths(items: Vec<TreeItem>) -> (r: Vec<String>)
    ensures
        r@ == blob_paths_of(items@),
{
    let ghost all = items@;
    let mut out: Vec<String> = Vec::new();
    let mut i: usize = 0;
    while i < items.len()
        invariant
            i <= items@.len(),
            all == items@,
            out@ == blob_paths_of(all.take(i as int)),
        decreases items.len() - i,
    {
        proof { assert(all.take(i + 1).drop_last() =~= all.take(i as int)); }
        if items[i].is_blob {
            match &items[i].path {
                Some(p) => out.push(p.clone()),
                None => {},
            }
        }
        i = i + 1;
    }
    proof { assert(all.take(all.len() as int) =~= all); }
    out
}

/// One step of the upward search for a repository.
#[derive(Debug)]
pub enum SearchStep {
    /// The directory holds the metadata directory: open it.
    Open,
    /// Try the parent directory.
    Up,
    /// No directory up to the root holds one.
    NotFound(GitError),
}

/// What the search from `start_path` does at a directory: open it when it
/// holds the metadata directory, else go up while there is a parent.
pub fn search_step(start_path: &String, has_metadata_dir: bool, has_parent: bool) -> (r: SearchStep)
    ensures
        has_metadata_dir ==> r is Open,
        !has_metadata_dir && has_parent ==> r is Up,
        !has_metadata_dir && !has_parent ==> (r matches SearchStep::NotFound(e) && e.kind
            == ErrorKind::RepositoryNotFound && e.target@ == start_path@),
{
    if has_metadata_dir {
        SearchStep::Open
    } else if has_parent {
        SearchStep::Up
    } else {
        SearchStep::NotFound(GitError::new(
            ErrorKind::RepositoryNotFound,
            "find repository",
            start_path.as_str(),
            "no repository here or in any parent directory".to_owned(),
        ))
    }
}

/// What `create_tag` asks the engine to make.
#[derive(Debug)]
pub enum TagPlan {
    /// A tag object with this message, signed by this identity.
    Annotated { message: String, tagger_name: String, tagger_email: String },
    /// A reference straight at the commit.
    Lightweight,
}

/// A message makes an annotated tag, signed with the configured identity
/// (see `tagger_identity`); no message makes a lightweight tag.
pub fn tag_plan(message: Option<String>, name: Option<String>, email: Option<String>) -> (r: TagPlan)
    ensures
        message is None <==> r is Lightweight,
        message matches Some(m) ==> (r matches TagPlan::Annotated { message: rm, tagger_name: n, tagger_email: e }
            && rm == m
            && match name {
                Some(v) => n == v,
                None => n@ == default_tagger_name(),
            }
            && match email {
                Some(v) => e == v,
                None => e@ == default_tagger_email(),
            }),
{
    match message {
        Some(m) => {
            let (n, e) = tagger_identity(name, email);
            TagPlan::Annotated { message: m, tagger_name: n, tagger_email: e }
        },
        None => TagPlan::Lightweight,
    }
}

fn open_as(repo: Result<git2::Repository, git2::Error>, operation: &str, path: &str) -> (r: Result<GitRepo, GitError>)
    ensures
        r matches Err(e) ==> e.kind == ErrorKind::RepositoryNotFound && e.target@ == path@,
{
    match repo {
        Ok(repo) => Ok(GitRepo { repo }),
        Err(e) => Err(fail(ErrorKind::RepositoryNotFound, operation, path, &e)),
    }
}

impl GitRepo {
    /// Opens the repository at `path`.
    pub fn new(path: String) -> (r: Result<GitRepo, GitError>)
        ensures
            r matches Err(e) ==> e.kind == ErrorKind::RepositoryNotFound && e.target@ == path@,
    {
        open_as(engine::open_repo(path.as_str()), "open repository", path.as_str())
    }

    /// The commit that HEAD names.
    fn head_commit(&self) -> (r: Result<git2::Commit<'_>, git2::Error>) {
        let head = engine::head_ref(&self.repo)?;
        engine::ref_commit(&head)
    }

    /// The ids of the commits reachable from HEAD, each once, in walk order.
    pub fn walk_ids(&self) -> (r: Result<Vec<String>, GitError>)
        ensures
            r matches Ok(ids) ==> views_distinct(ids@),
            r matches Err(e) ==> e.kind == ErrorKind::ReferenceResolutionFailure,
    {
        match engine::head_walk(&self.repo) {
            Ok(ids) => Ok(first_visits(&ids)),
            Err(e) => Err(fail(ErrorKind::ReferenceResolutionFailure, "walk commits", "HEAD", &e)),
        }
    }

    /// A commit and the lines of its diff against its first parent, or
    /// against the empty tree when it has none.
    pub fn commit_changes(&self, id: &String) -> (r: Result<CommitChanges, GitError>)
        ensures
            r matches Ok(c) ==> c.record.id == *id,
            r matches Err(e) ==> is_walk_failure(e.kind) && e.kind != ErrorKind::ReferenceResolutionFailure,
    {
        let commit = match engine::find_commit(&self.repo, id.as_str()) {
            Ok(c) => c,
            Err(e) => return Err(fail(ErrorKind::ObjectNotFound, "find commit", id.as_str(), &e)),
        };
        let mut record = engine::record_of(&commit);
        record.id = id.clone();
        let tree = match engine::commit_tree(&commit) {
            Ok(t) => t,
            Err(e) => return Err(fail(ErrorKind::ObjectNotFound, "read commit tree", id.as_str(), &e)),
        };
        let lines = match first_parent(&record) {
            Some(pid) => {
                let parent = match engine::find_commit(&self.repo, pid.as_str()) {
                    Ok(c) => c,
                    Err(e) => return Err(fail(ErrorKind::ObjectNotFound, "find parent", pid.as_str(), &e)),
                };
                let ptree = match engine::commit_tree(&parent) {
                    Ok(t) => t,
                    Err(e) => return Err(fail(ErrorKind::ObjectNotFound, "read parent tree", pid.as_str(), &e)),
                };
                engine::diff_lines(&self.repo, Some(&ptree), &tree)
            },
            None => engine::diff_lines(&self.repo, None, &tree),
        };
        match lines {
            Ok(lines) => Ok(CommitChanges { record, lines }),
            Err(e) => Err(fail(ErrorKind::DiffComputationFailure, "diff commit", id.as_str(), &e)),
        }
    }

    /// Every commit of the walk from HEAD with its changes.
    pub fn history_log(&self) -> (r: Result<Vec<CommitChanges>, GitError>)
        ensures
            r matches Ok(log) ==> commits_distinct(log@),
            r matches Err(e) ==> is_walk_failure(e.kind),
    {
        let ids = self.walk_ids()?;
        let mut log: Vec<CommitChanges> = Vec::new();
        let mut i: usize = 0;
        while i < ids.len()
            invariant
                i <= ids.len(),
                views_distinct(ids@),
                log@.len() == i,
                forall|k: int| 0 <= k < i ==> (#[trigger] log@[k]).record.id == ids@[k],
            decreases ids.len() - i,
        {
            let c = self.commit_changes(&ids[i])?;
            log.push(c);
            i = i + 1;
        }
        proof {
            lemma_walked_commits_distinct(log@, ids@);
        }
        Ok(log)
    }

    /// The most recent commit that touches `file_path`: the walk stops at
    /// the first commit whose diff touches it, and `resolve_last` answers
    /// over the commits read so far. Fails with `HistoryNotFound` when the
    /// whole walk has none.
    pub fn get_file_metadata(&self, file_path: String) -> (r: Result<FileMetadata, GitError>)
        ensures
            r matches Ok(m) ==> exists|log: Seq<CommitChanges>|
                commits_distinct(log) && history_of(log, file_path@).len() > 0 && m == metadata_of(
                    file_path,
                    #[trigger] history_of(log, file_path@)[0],
                ),
            r matches Err(e) ==> is_walk_failure(e.kind) || (e.kind == ErrorKind::HistoryNotFound
                && e.target@ == file_path@ && exists|log: Seq<CommitChanges>|
                commits_distinct(log) && #[trigger] history_of(log, file_path@).len() == 0),
    {
        let ids = self.walk_ids()?;
        let mut log: Vec<CommitChanges> = Vec::new();
        let mut found = false;
        let mut i: usize = 0;
        while i < ids.len() && !found
            invariant
                i <= ids.len(),
                views_distinct(ids@),
                log@.len() == i,
                forall|k: int| 0 <= k < i ==> (#[trigger] log@[k]).record.id == ids@[k],
            decreases ids.len() - i,
        {
            let c = self.commit_changes(&ids[i])?;
            found = change_stat(&c.lines, &file_path).is_some();
            log.push(c);
            i = i + 1;
        }
        proof { lemma_walked_commits_distinct(log@, ids@); }
        let r = resolve_last(&log, &file_path);
        proof {
            if r is Ok {
                assert(commits_distinct(log@) && r->Ok_0 == metadata_of(file_path, history_of(log@, file_path@)[0]));
            } else {
                assert(commits_distinct(log@) && history_of(log@, file_path@).len() == 0);
            }
        }
        r
    }

    /// Every commit of the walk that touches `file_path`, most recent first.
    pub fn get_file_history(&self, file_path: String) -> (r: Result<Vec<CommitInfo>, GitError>)
        ensures
            r matches Ok(v) ==> exists|log: Seq<CommitChanges>| commits_distinct(log) && v@ == #[trigger] history_of(log, file_path@),
            r matches Err(e) ==> is_walk_failure(e.kind),
    {
        let log = self.history_log()?;
        let v = resolve_history(&log, &file_path);
        proof { assert(v@ == history_of(log@, file_path@)); }
        Ok(v)
    }

    /// As `get_file_history`, checking `cancel` once per visited commit:
    /// `None` when it was set before the walk ended.
    pub fn get_file_history_cancellable(&self, file_path: String, cancel: &std::sync::atomic::AtomicBool) -> (r: Result<Option<Vec<CommitInfo>>, GitError>)
        ensures
            r matches Ok(Some(v)) ==> exists|log: Seq<CommitChanges>| commits_distinct(log) && v@ == #[trigger] history_of(log, file_path@),
            r matches Err(e) ==> is_walk_failure(e.kind),
    {
        let ids = self.walk_ids()?;
        let mut log: Vec<CommitChanges> = Vec::new();
        let mut i: usize = 0;
        while i < ids.len()
            invariant
                i <= ids.len(),
                views_distinct(ids@),
                log@.len() == i,
                forall|k: int| 0 <= k < i ==> (#[trigger] log@[k]).record.id == ids@[k],
            decreases ids.len() - i,
        {
            if cancel.load(std::sync::atomic::Ordering::Relaxed) {
                return Ok(None);
            }
            let c = self.commit_changes(&ids[i])?;
            log.push(c);
            i = i + 1;
        }
        proof {
            lemma_walked_commits_distinct(log@, ids@);
        }
        let v = resolve_history(&log, &file_path);
        proof { assert(commits_distinct(log@) && v@ == history_of(log@, file_path@)); }
        Ok(Some(v))
    }

    /// The status scan, untracked files included, ignored ones included only
    /// when asked for; an untracked directory is one entry unless
    /// `recurse_untracked` asks for its files.
    pub fn scan_status(&self, include_ignored: bool, recurse_untracked: bool) -> (r: Result<Vec<FileStatus>, GitError>)
        ensures
            r matches Err(e) ==> e.kind == ErrorKind::ObjectNotFound,
    {
        match engine::status_entries(&self.repo, include_ignored, recurse_untracked) {
            Ok(entries) => {
                let v = file_statuses(&entries);
                Ok(v)
            },
            Err(e) => Err(fail(ErrorKind::ObjectNotFound, "scan status", "working tree", &e)),
        }
    }

    /// The status scan, ignored files left out, an untracked directory as
    /// one entry.
    pub fn get_file_status(&self) -> (r: Result<Vec<FileStatus>, GitError>)
        ensures
            r matches Err(e) ==> e.kind == ErrorKind::ObjectNotFound,
    {
        self.scan_status(false, false)
    }

    /// The blob paths of the tree of HEAD; none when HEAD cannot be read.
    fn head_tree_paths(&self) -> (r: Vec<String>) {
        let commit = match self.head_commit() {
            Ok(c) => c,
            Err(_) => return Vec::new(),
        };
        let tree = match engine::commit_tree(&commit) {
            Ok(t) => t,
            Err(_) => return Vec::new(),
        };
        match engine::tree_items(&tree) {
            Ok(items) => blob_paths(items),
            Err(_) => Vec::new(),
        }
    }

    /// One entry per path of the status scan and of the tree of HEAD (in
    /// `directory_path`, all when it is `None`), minus ignored and
    /// metadata-directory paths: its last change, or the untracked entry of
    /// a path flagged new. A repository without commits has only the latter.
    pub fn list_files_with_metadata(&self, directory_path: Option<String>) -> (r: Result<Vec<FileMetadata>, GitError>)
        ensures
            r matches Ok(v) ==> lists_some_scan(listing_base(directory_path), v@),
            r matches Err(e) ==> e.kind == ErrorKind::ObjectNotFound || e.kind == ErrorKind::DiffComputationFailure,
    {
        let ghost dp = directory_path;
        let base = match directory_path {
            Some(d) => d,
            None => ".".to_owned(),
        };
        assert(base@ == listing_base(dp));
        let statuses = self.scan_status(false, true)?;
        let tree = self.head_tree_paths();
        let log = match self.history_log() {
            Ok(log) => log,
            Err(e) => {
                if e.kind == ErrorKind::ReferenceResolutionFailure {
                    Vec::new()
                } else {
                    return Err(e);
                }
            },
        };
        let v = list_entries(&log, &statuses, &tree, &base);
        proof {
            assert(is_listing(log@, statuses@, tree@, listing_base(dp), v@));
            assert(lists_some_scan(listing_base(dp), v@));
        }
        Ok(v)
    }

    /// The id of the commit that HEAD names.
    pub fn get_head_commit_hash(&self) -> (r: Result<String, GitError>)
        ensures
            r matches Err(e) ==> e.kind == ErrorKind::ReferenceResolutionFailure,
    {
        match self.head_commit() {
            Ok(c) => Ok(engine::record_of(&c).id),
            Err(e) => Err(fail(ErrorKind::ReferenceResolutionFailure, "read HEAD", "HEAD", &e)),
        }
    }

    /// The short name of the branch that HEAD is on; fails when it is detached.
    pub fn get_current_branch(&self) -> (r: Result<String, GitError>)
        ensures
            r matches Err(e) ==> e.kind == ErrorKind::ReferenceResolutionFailure,
    {
        match engine::head_ref(&self.repo) {
            Ok(head) => branch_of_head(engine::ref_is_branch(&head), engine::ref_shorthand(&head)),
            Err(e) => Err(fail(ErrorKind::ReferenceResolutionFailure, "read HEAD", "HEAD", &e)),
        }
    }

    pub fn get_remote_url(&self, name: String) -> (r: Result<String, GitError>)
        ensures
            r matches Err(e) ==> e.kind == ErrorKind::ReferenceResolutionFailure && e.target@ == name@,
    {
        match engine::find_remote(&self.repo, name.as_str()) {
            Ok(remote) => remote_url_of(&name, engine::remote_url(&remote)),
            Err(e) => Err(fail(ErrorKind::ReferenceResolutionFailure, "find remote", name.as_str(), &e)),
        }
    }

    /// The commit given by id, or the one HEAD names when none is given.
    fn target_commit(&self, target: &Option<String>) -> (r: Result<git2::Commit<'_>, GitError>)
        ensures
            r matches Err(e) ==> match target {
                Some(id) => e.kind == ErrorKind::ObjectNotFound && e.target@ == id@,
                None => e.kind == ErrorKind::ReferenceResolutionFailure,
            },
    {
        match target {
            Some(id) => match engine::find_commit(&self.repo, id.as_str()) {
                Ok(c) => Ok(c),
                Err(e) => Err(fail(ErrorKind::ObjectNotFound, "find commit", id.as_str(), &e)),
            },
            None => match self.head_commit() {
                Ok(c) => Ok(c),
                Err(e) => Err(fail(ErrorKind::ReferenceResolutionFailure, "read HEAD", "HEAD", &e)),
            },
        }
    }

    /// Creates branch `name` at the given commit, or at HEAD.
    pub fn create_branch(&self, name: String, target_commit: Option<String>) -> (r: Result<(), GitError>)
        ensures
            r matches Err(e) ==> e.kind == ErrorKind::ObjectNotFound
                || e.kind == ErrorKind::ReferenceResolutionFailure,
    {
        let c = self.target_commit(&target_commit)?;
        match engine::new_branch(&self.repo, name.as_str(), &c) {
            Ok(()) => Ok(()),
            Err(e) => Err(fail(ErrorKind::ReferenceResolutionFailure, "create branch", name.as_str(), &e)),
        }
    }

    /// Moves the working tree and HEAD to `target`; returns where HEAD then
    /// stands. A local change in the way fails the checkout, never merged.
    pub fn checkout(&self, target: &CheckoutTarget) -> (r: Result<HeadState, GitError>)
        ensures
            r matches Ok(h) ==> exists|id: String| h == #[trigger] head_after_spec(*target, id),
            r matches Ok(h) ==> (h is OnBranch <==> target is Branch),
            r matches Err(e) ==> e.target@ == target_label(*target)@ && (e.kind
                == ErrorKind::ReferenceResolutionFailure || e.kind == ErrorKind::ObjectNotFound
                || e.kind == ErrorKind::CheckoutConflict),
    {
        let label = target.label();
        let commit = match target {
            CheckoutTarget::Branch(n) => {
                let branch = match engine::local_branch(&self.repo, n.as_str()) {
                    Ok(b) => b,
                    Err(e) => return Err(fail(ErrorKind::ReferenceResolutionFailure, "find branch", n.as_str(), &e)),
                };
                match engine::ref_commit(&branch) {
                    Ok(c) => c,
                    Err(e) => return Err(fail(ErrorKind::ObjectNotFound, "peel branch", n.as_str(), &e)),
                }
            },
            CheckoutTarget::Commit(id) => match engine::find_commit(&self.repo, id.as_str()) {
                Ok(c) => c,
                Err(e) => return Err(fail(ErrorKind::ObjectNotFound, "find commit", id.as_str(), &e)),
            },
            CheckoutTarget::Tag(n) => {
                let obj = match engine::tag_object(&self.repo, n.as_str()) {
                    Ok(o) => o,
                    Err(e) => return Err(fail(ErrorKind::ReferenceResolutionFailure, "find tag", n.as_str(), &e)),
                };
                match engine::peel_commit(&obj) {
                    Ok(c) => c,
                    Err(e) => return Err(fail(ErrorKind::ObjectNotFound, "peel tag", n.as_str(), &e)),
                }
            },
        };
        if let Err(e) = engine::checkout_tree(&self.repo, &commit) {
            return Err(fail(ErrorKind::CheckoutConflict, "checkout tree", label.as_str(), &e));
        }
        let head = head_after(target, engine::record_of(&commit).id);
        let moved = match &head {
            HeadState::OnBranch(n) => engine::attach_head(&self.repo, n.as_str()),
            HeadState::Detached(_) => engine::detach_head(&self.repo, &commit),
        };
        match moved {
            Ok(()) => Ok(head),
            Err(e) => Err(fail(ErrorKind::ReferenceResolutionFailure, "set HEAD", label.as_str(), &e)),
        }
    }

    /// Checks out local branch `name` and attaches HEAD to it.
    pub fn checkout_branch(&self, name: String) -> (r: Result<(), GitError>)
        ensures
            r matches Err(e) ==> e.target@ == name@,
    {
        self.checkout(&CheckoutTarget::Branch(name)).map(|_h: HeadState| ())
    }

    /// Checks out the commit that tag `tag_name` leads to, detaching HEAD.
    pub fn checkout_tag(&self, tag_name: String) -> (r: Result<(), GitError>)
        ensures
            r matches Err(e) ==> e.target@ == tag_name@,
    {
        self.checkout(&CheckoutTarget::Tag(tag_name)).map(|_h: HeadState| ())
    }

    /// Checks out commit `commit_hash`, detaching HEAD.
    pub fn checkout_commit(&self, commit_hash: String) -> (r: Result<(), GitError>)
        ensures
            r matches Err(e) ==> e.target@ == commit_hash@,
    {
        self.checkout(&CheckoutTarget::Commit(commit_hash)).map(|_h: HeadState| ())
    }

    /// Commits the index on top of HEAD; returns the new commit's id.
    pub fn commit(&self, message: String, author_name: String, author_email: String) -> (r: Result<String, GitError>)
        ensures
            r matches Err(e) ==> e.kind == ErrorKind::ReferenceResolutionFailure
                || e.kind == ErrorKind::ObjectNotFound,
    {
        let parent = self.target_commit(&None)?;
        let sig = match engine::signature_now(author_name.as_str(), author_email.as_str()) {
            Ok(s) => s,
            Err(e) => return Err(fail(ErrorKind::ObjectNotFound, "make signature", author_name.as_str(), &e)),
        };
        let mut index = match engine::repo_index(&self.repo) {
            Ok(i) => i,
            Err(e) => return Err(fail(ErrorKind::ObjectNotFound, "read index", "index", &e)),
        };
        let tree = match engine::index_tree(&self.repo, &mut index) {
            Ok(t) => t,
            Err(e) => return Err(fail(ErrorKind::ObjectNotFound, "write tree", "index", &e)),
        };
        match engine::new_commit(&self.repo, &sig, message.as_str(), &tree, &parent) {
            Ok(id) => Ok(id),
            Err(e) => Err(fail(ErrorKind::ObjectNotFound, "commit", "HEAD", &e)),
        }
    }

    /// Stages every file of the working tree.
    pub fn add_all(&self) -> (r: Result<(), GitError>)
        ensures
            r matches Err(e) ==> e.kind == ErrorKind::ObjectNotFound,
    {
        let mut index = match engine::repo_index(&self.repo) {
            Ok(i) => i,
            Err(e) => return Err(fail(ErrorKind::ObjectNotFound, "read index", "index", &e)),
        };
        if let Err(e) = engine::index_add_all(&mut index) {
            return Err(fail(ErrorKind::ObjectNotFound, "stage files", "index", &e));
        }
        match engine::index_write(&mut index) {
            Ok(()) => Ok(()),
            Err(e) => Err(fail(ErrorKind::ObjectNotFound, "write index", "index", &e)),
        }
    }

    /// Pushes local branch `branch_name` to remote `remote_name`.
    pub fn push(&self, remote_name: String, branch_name: String) -> (r: Result<(), GitError>)
        ensures
            r matches Err(e) ==> e.kind == ErrorKind::ReferenceResolutionFailure && e.target@ == remote_name@,
    {
        let mut remote = match engine::find_remote(&self.repo, remote_name.as_str()) {
            Ok(r) => r,
            Err(e) => return Err(fail(ErrorKind::ReferenceResolutionFailure, "find remote", remote_name.as_str(), &e)),
        };
        match engine::push_branch(&mut remote, branch_name.as_str()) {
            Ok(()) => Ok(()),
            Err(e) => Err(fail(ErrorKind::ReferenceResolutionFailure, "push", remote_name.as_str(), &e)),
        }
    }

    /// Resolves tag `name`, deciding once whether it is annotated; `None`
    /// for a tag that leads to no commit.
    pub fn resolve_tag(&self, name: &String) -> (r: Result<Option<TagKind>, GitError>)
        ensures
            r matches Err(e) ==> e.kind == ErrorKind::ReferenceResolutionFailure && e.target@ == name@,
    {
        let obj = match engine::tag_object(&self.repo, name.as_str()) {
            Ok(o) => o,
            Err(e) => return Err(fail(ErrorKind::ReferenceResolutionFailure, "find tag", name.as_str(), &e)),
        };
        match engine::annotated_tag(obj) {
            Ok(a) => Ok(Some(TagKind::Annotated(a))),
            Err(obj) => match engine::object_commit(obj) {
                Some(c) => Ok(Some(TagKind::Lightweight(engine::record_of(&c)))),
                None => Ok(None),
            },
        }
    }

    /// Every tag that leads to a commit, in the order of the tag names:
    /// each name is resolved once, and the catalog is built from the
    /// resolutions by `tag_listing`.
    pub fn list_tags(&self) -> (r: Result<Vec<TagInfo>, GitError>)
        ensures
            r matches Ok(v) ==> lists_some_tags(v@),
            r matches Err(e) ==> e.kind == ErrorKind::ReferenceResolutionFailure,
    {
        let names = match engine::tag_names(&self.repo) {
            Ok(n) => n,
            Err(e) => return Err(fail(ErrorKind::ReferenceResolutionFailure, "list tags", "refs/tags", &e)),
        };
        let mut resolved: Vec<(String, Option<TagKind>)> = Vec::new();
        let mut i: usize = 0;
        while i < names.len()
            invariant
                i <= names.len(),
            decreases names.len() - i,
        {
            let kind = self.resolve_tag(&names[i])?;
            resolved.push((names[i].clone(), kind));
            i = i + 1;
        }
        let ghost res = resolved@;
        let v = tag_listing(resolved);
        assert(is_tag_listing(res, v@));
        Ok(v)
    }

    /// Creates tag `tag_name` at the given commit, or at HEAD: annotated,
    /// with the configured identity, when a message is given, else
    /// lightweight. Returns the tag object's id, or the commit's for a
    /// lightweight tag.
    pub fn create_tag(&self, tag_name: String, message: Option<String>, target_commit: Option<String>) -> (r: Result<String, GitError>)
        ensures
            r matches Err(e) ==> e.kind == ErrorKind::ObjectNotFound
                || e.kind == ErrorKind::ReferenceResolutionFailure,
    {
        let c = self.target_commit(&target_commit)?;
        let (name, email) = if message.is_some() {
            let name = match engine::config_string(&self.repo, "user.name") {
                Ok(v) => v,
                Err(e) => return Err(fail(ErrorKind::ObjectNotFound, "read config", "user.name", &e)),
            };
            let email = match engine::config_string(&self.repo, "user.email") {
                Ok(v) => v,
                Err(e) => return Err(fail(ErrorKind::ObjectNotFound, "read config", "user.email", &e)),
            };
            (name, email)
        } else {
            (None, None)
        };
        match tag_plan(message, name, email) {
            TagPlan::Annotated { message, tagger_name, tagger_email } => {
                let sig = match engine::signature_now(tagger_name.as_str(), tagger_email.as_str()) {
                    Ok(s) => s,
                    Err(e) => return Err(fail(ErrorKind::ObjectNotFound, "make signature", tagger_name.as_str(), &e)),
                };
                match engine::new_annotated_tag(&self.repo, tag_name.as_str(), &c, &sig, message.as_str()) {
                    Ok(id) => Ok(id),
                    Err(e) => Err(fail(ErrorKind::ReferenceResolutionFailure, "create tag", tag_name.as_str(), &e)),
                }
            },
            TagPlan::Lightweight => match engine::new_lightweight_tag(&self.repo, tag_name.as_str(), &c) {
                Ok(()) => Ok(engine::record_of(&c).id),
                Err(e) => Err(fail(ErrorKind::ReferenceResolutionFailure, "create tag", tag_name.as_str(), &e)),
            },
        }
    }

    pub fn delete_tag(&self, tag_name: String) -> (r: Result<(), GitError>)
        ensures
            r matches Err(e) ==> e.kind == ErrorKind::ReferenceResolutionFailure && e.target@ == tag_name@,
    {
        match engine::remove_tag(&self.repo, tag_name.as_str()) {
            Ok(()) => Ok(()),
            Err(e) => Err(fail(ErrorKind::ReferenceResolutionFailure, "delete tag", tag_name.as_str(), &e)),
        }
    }
}

} // verus!

verus! {

pub fn clone_repository(url: String, path: String) -> (r: Result<GitRepo, GitError>)
    ensures
        r matches Err(e) ==> e.kind == ErrorKind::RepositoryNotFound && e.target@ == path@,
{
    open_as(engine::clone_repo(url.as_str(), path.as_str()), "clone repository", path.as_str())
}

pub fn init_repository(path: String) -> (r: Result<GitRepo, GitError>)
    ensures
        r matches Err(e) ==> e.kind == ErrorKind::RepositoryNotFound && e.target@ == path@,
{
    open_as(engine::init_repo(path.as_str()), "initialize repository", path.as_str())
}

pub fn is_git_repository(path: String) -> (r: bool) {
    engine::open_repo(path.as_str()).is_ok()
}

/// The branch that HEAD is on in the repository at `path`.
pub fn get_branch_name(path: String) -> (r: Result<String, GitError>)
    ensures
        r matches Err(e) ==> e.kind == ErrorKind::RepositoryNotFound
            || e.kind == ErrorKind::ReferenceResolutionFailure,
{
    let repo = GitRepo::new(path)?;
    repo.get_current_branch()
}

} // verus!
