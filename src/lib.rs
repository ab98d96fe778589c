//! Version-control metadata for the files of a repository: which commit
//! last touched a path and how, each path's full history, a listing that
//! joins tracked and untracked files, tags of both kinds, and checkouts.
//! The object store, diffs and checkouts themselves come from git2.

pub mod attribution;
pub mod checkout;
pub mod engine;
pub mod events;
pub mod history;
pub mod listing;
pub mod model;
pub mod registry;
pub mod repo;
pub mod status;
pub mod tags;
pub mod text;
pub mod universe;
pub mod walk;

pub use model::{
    CommitChanges, CommitInfo, CommitRecord, DiffLine, ErrorKind, FileMetadata, FileStatus,
    GitError, TagInfo,
};
pub use repo::GitRepo;
