//! Moving a folder to another drive, and back.
//!
//! Each operation is a machine: its step names the one piece of work on the
//! disk that is due, and `next` takes what came of that work to the next step.

use vstd::prelude::*;

pub mod backups;
pub mod children;
pub mod chunks;
pub mod copy;
pub mod link;
pub mod linking;
pub mod migrate;
pub mod overlay;
pub mod pool;
pub mod restore;
pub mod tree;
pub mod walk;
pub mod worker;

verus! {

/// The operations on folders.
pub struct Mover;

/// What an operation on the disk failed for, as far as it changes what is done next.
#[derive(Clone, Copy, PartialEq, Eq, Structural, Debug)]
pub enum FailureKind {
    CrossesDevices,
    PermissionDenied,
    Other,
}

/// A failed operation on the disk.
#[derive(Debug)]
pub struct OsFailure {
    pub kind: FailureKind,
    /// The error number of the operating system, where it gave one.
    pub code: Option<i32>,
    pub text: String,
}

/// What a path leads to.
#[derive(Clone, Copy, PartialEq, Eq, Structural, Debug)]
pub enum PathKind {
    Missing,
    Directory,
    Other,
}

/// What stands at a place on the disk, seen from the folder that is being moved.
pub enum Slot {
    /// Nothing.
    Empty,
    /// A directory with all the files of the folder. The links in it do not count, nor do
    /// lock files that may be left out of a copy.
    Tree,
    /// A junction to the target.
    Link,
    /// Anything else: part of the folder, or something that was there before.
    Debris,
}

} // verus!
