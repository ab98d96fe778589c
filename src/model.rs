use vstd::prelude::*;

verus! {

/// Status flags of one working-tree path; the flags are independent.
#[derive(Debug)]
pub struct FileStatus {
    pub path: String,
    pub is_new: bool,
    pub is_modified: bool,
    pub is_deleted: bool,
    pub is_renamed: bool,
    pub is_ignored: bool,
}

/// What is known of a path from its most recent modifying commit.
#[derive(Debug)]
pub struct FileMetadata {
    pub path: String,
    pub last_commit_hash: String,
    pub last_commit_message: String,
    pub last_author_name: String,
    pub last_author_email: String,
    pub last_commit_time: i64,
    pub added_lines: i32,
    pub deleted_lines: i32,
}

/// One entry of a path's history.
#[derive(Debug)]
pub struct CommitInfo {
    pub commit_hash: String,
    pub commit_message: String,
    pub author_name: String,
    pub author_email: String,
    pub commit_time: i64,
    pub added_lines: i32,
    pub deleted_lines: i32,
}

/// A tag as listed: the message is empty for a lightweight tag, whose
/// identity and time are those of the author of its commit.
#[derive(Debug)]
pub struct TagInfo {
    pub name: String,
    pub target_commit: String,
    pub message: String,
    pub tagger_name: String,
    pub tagger_email: String,
    pub tag_time: i64,
}

/// A commit as read from the object store: `time` is the commit time,
/// `author_time` the time the author wrote it.
#[derive(Debug)]
pub struct CommitRecord {
    pub id: String,
    pub message: String,
    pub author_name: String,
    pub author_email: String,
    pub time: i64,
    pub author_time: i64,
    pub parents: Vec<String>,
}

/// One line of a diff, with the two paths of the file change it belongs to
/// and its origin marker (`'+'` added, `'-'` deleted, others context).
#[derive(Debug)]
pub struct DiffLine {
    pub old_path: String,
    pub new_path: String,
    pub origin: char,
}

/// A commit together with the lines of its diff against its first parent.
#[derive(Debug)]
pub struct CommitChanges {
    pub record: CommitRecord,
    pub lines: Vec<DiffLine>,
}

#[derive(Clone, Copy, Debug, PartialEq, Eq, Structural)]
pub enum ErrorKind {
    RepositoryNotFound,
    ReferenceResolutionFailure,
    ObjectNotFound,
    DiffComputationFailure,
    CheckoutConflict,
    HistoryNotFound,
}

/// A failure, with the operation and the identifier it was applied to.
#[derive(Debug)]
pub struct GitError {
    pub kind: ErrorKind,
    pub operation: String,
    pub target: String,
    pub detail: String,
}

impl GitError {
    pub fn new(kind: ErrorKind, operation: &str, target: &str, detail: String) -> (r: GitError)
        ensures
            r.kind == kind,
            r.operation@ == operation@,
            r.target@ == target@,
            r.detail == detail,
    {
        GitError { kind, operation: operation.to_owned(), target: target.to_owned(), detail }
    }

}

} // verus!
