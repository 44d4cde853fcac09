//! The lock that keeps two processes from using an index at once.

use vstd::prelude::*;

use crate::numbers;
use crate::paths;

verus! {

/// Why the index is not locked.
#[derive(Debug, Clone, PartialEq, Eq)]
pub enum IndexLockError {
    CreateDirectory { path: String, message: String },
    AlreadyLocked { path: String },
    CreateLock { path: String, message: String },
    WriteLock { path: String, message: String },
}

/// What came of an attempt to write the lock file.
#[derive(Debug, Clone, PartialEq, Eq)]
pub enum LockAttempt {
    DirectoryFailed { message: String },
    FileExists,
    FileFailed { message: String },
    WriteFailed { message: String },
    Written,
}

/// What [`IndexLockError`] stands for.
#[verifier::ext_equal]
pub enum IndexLockErrorView {
    CreateDirectory { path: Seq<char>, message: Seq<char> },
    AlreadyLocked { path: Seq<char> },
    CreateLock { path: Seq<char>, message: Seq<char> },
    WriteLock { path: Seq<char>, message: Seq<char> },
}

impl DeepView for IndexLockError {
    type V = IndexLockErrorView;

    open spec fn deep_view(&self) -> IndexLockErrorView {
        match self {
            IndexLockError::CreateDirectory { path, message } => IndexLockErrorView::CreateDirectory { path: path@, message: message@ },
            IndexLockError::AlreadyLocked { path } => IndexLockErrorView::AlreadyLocked { path: path@ },
            IndexLockError::CreateLock { path, message } => IndexLockErrorView::CreateLock { path: path@, message: message@ },
            IndexLockError::WriteLock { path, message } => IndexLockErrorView::WriteLock { path: path@, message: message@ },
        }
    }
}

/// What [`LockAttempt`] stands for.
#[verifier::ext_equal]
pub enum LockAttemptView {
    DirectoryFailed { message: Seq<char> },
    FileExists,
    FileFailed { message: Seq<char> },
    WriteFailed { message: Seq<char> },
    Written,
}

impl DeepView for LockAttempt {
    type V = LockAttemptView;

    open spec fn deep_view(&self) -> LockAttemptView {
        match self {
            LockAttempt::DirectoryFailed { message } => LockAttemptView::DirectoryFailed { message: message@ },
            LockAttempt::FileExists => LockAttemptView::FileExists,
            LockAttempt::FileFailed { message } => LockAttemptView::FileFailed { message: message@ },
            LockAttempt::WriteFailed { message } => LockAttemptView::WriteFailed { message: message@ },
            LockAttempt::Written => LockAttemptView::Written,
        }
    }
}

impl IndexLockErrorView {
    /// The error in words.
    pub open spec fn words(self) -> Seq<char> {
        match self {
            IndexLockErrorView::CreateDirectory { path, message } => "failed to create Hotpath index directory '"@ + path + "': "@ + message,
            IndexLockErrorView::AlreadyLocked { path } => "another Hotpath process is using the index lock '"@ + path + "'. Retry after it exits; remove .hotpath/index.lock only if no Hotpath process is running."@,
            IndexLockErrorView::CreateLock { path, message } => "failed to create Hotpath index lock '"@ + path + "': "@ + message,
            IndexLockErrorView::WriteLock { path, message } => "failed to write Hotpath index lock '"@ + path + "': "@ + message,
        }
    }
}

impl IndexLockError {
    /// The error in words.
    pub fn message(&self) -> (out: String)
        ensures
            out@ == self.deep_view().words(),
    {
        match self {
            IndexLockError::CreateDirectory { path, message } => {
                let mut out = "failed to create Hotpath index directory '".to_string();
                out.append(path.as_str());
                out.append("': ");
                out.append(message.as_str());
                out
            },
            IndexLockError::AlreadyLocked { path } => {
                let mut out = "another Hotpath process is using the index lock '".to_string();
                out.append(path.as_str());
                out.append("'. Retry after it exits; remove .hotpath/index.lock only if no Hotpath process is running.");
                out
            },
            IndexLockError::CreateLock { path, message } => {
                let mut out = "failed to create Hotpath index lock '".to_string();
                out.append(path.as_str());
                out.append("': ");
                out.append(message.as_str());
                out
            },
            IndexLockError::WriteLock { path, message } => {
                let mut out = "failed to write Hotpath index lock '".to_string();
                out.append(path.as_str());
                out.append("': ");
                out.append(message.as_str());
                out
            },
        }
    }
}

/// The directory of the index of a repository, where the platform writes `separator` between
/// names.
pub open spec fn index_directory(root: Seq<char>, separator: char) -> Seq<char> {
    paths::appended(root, ".hotpath"@, separator)
}

/// The lock file of a repository, where the platform writes `separator` between names.
pub open spec fn lock_path(root: Seq<char>, separator: char) -> Seq<char> {
    paths::appended(index_directory(root, separator), "index.lock"@, separator)
}

/// The directory of the index of a repository.
pub fn index_directory_of(root: &str, separator: char) -> (out: String)
    ensures
        out@ == index_directory(root@, separator),
{
    paths::join_path(root, ".hotpath", separator)
}

/// The lock file of a repository.
pub fn lock_path_of(root: &str, separator: char) -> (out: String)
    ensures
        out@ == lock_path(root@, separator),
{
    let directory = index_directory_of(root, separator);
    paths::join_path(directory.as_str(), "index.lock", separator)
}

/// What stands in the lock file.
pub open spec fn payload(pid: u32, command: Seq<char>) -> Seq<char> {
    "pid="@ + numbers::decimal(pid as nat) + "\ncommand="@ + command + "\n"@
}

/// What stands in the lock file of a process that runs a command.
pub fn lock_payload(pid: u32, command: &str) -> (output: String)
    ensures
        output@ == payload(pid, command@),
{
    let mut text = "pid=".to_string();
    let out = &mut text;
    numbers::push_decimal(out, pid as u64);
    out.append("\ncommand=");
    out.append(command);
    out.append("\n");
    text
}

/// The lock of an index, held until its file is removed.
#[derive(Debug)]
pub struct IndexLock {
    path: String,
}

impl View for IndexLock {
    type V = Seq<char>;

    /// The lock file.
    closed spec fn view(&self) -> Seq<char> {
        self.path@
    }
}

/// Why an attempt to lock the index of a repository failed, where it did.
pub open spec fn fault_of(
    root: Seq<char>,
    separator: char,
    attempt: LockAttemptView,
) -> Option<IndexLockErrorView> {
    match attempt {
        LockAttemptView::DirectoryFailed { message } => Some(
            IndexLockErrorView::CreateDirectory { path: index_directory(root, separator), message },
        ),
        LockAttemptView::FileExists => Some(
            IndexLockErrorView::AlreadyLocked { path: lock_path(root, separator) },
        ),
        LockAttemptView::FileFailed { message } => Some(
            IndexLockErrorView::CreateLock { path: lock_path(root, separator), message },
        ),
        LockAttemptView::WriteFailed { message } => Some(
            IndexLockErrorView::WriteLock { path: lock_path(root, separator), message },
        ),
        LockAttemptView::Written => None,
    }
}

/// What comes of an attempt where the directory and the file can be written: the file is made
/// unless it is among the files that are there.
pub open spec fn attempt_among(files: Set<Seq<char>>, root: Seq<char>, separator: char) -> LockAttemptView {
    if files.contains(lock_path(root, separator)) {
        LockAttemptView::FileExists
    } else {
        LockAttemptView::Written
    }
}

/// The files that are there after an attempt.
pub open spec fn files_after(files: Set<Seq<char>>, root: Seq<char>, separator: char) -> Set<Seq<char>> {
    files.insert(lock_path(root, separator))
}

/// A lock is given where its file is not there. As long as it is held, its file is there, and a
/// further attempt fails and names that file; once the file is removed, an attempt succeeds again.
pub proof fn a_held_lock_keeps_others_out(files: Set<Seq<char>>, root: Seq<char>, separator: char)
    requires
        !files.contains(lock_path(root, separator)),
    ensures
        fault_of(root, separator, attempt_among(files, root, separator)) is None,
        files_after(files, root, separator).contains(lock_path(root, separator)),
        fault_of(root, separator, attempt_among(files_after(files, root, separator), root, separator)) == Some(
            IndexLockErrorView::AlreadyLocked { path: lock_path(root, separator) },
        ),
        files_after(files_after(files, root, separator), root, separator) == files_after(files, root, separator),
        files_after(files, root, separator).remove(lock_path(root, separator)) == files,
{
    assert(files_after(files_after(files, root, separator), root, separator) =~= files_after(files, root, separator));
    assert(files_after(files, root, separator).remove(lock_path(root, separator)) =~= files);
}

impl IndexLock {
    /// The lock of a repository's index, after an attempt to write its file.
    pub fn acquire(root: &str, separator: char, attempt: LockAttempt) -> (r: Result<
        IndexLock,
        IndexLockError,
    >)
        ensures
            match r {
                Ok(lock) => fault_of(root@, separator, attempt.deep_view()) is None && lock@ == lock_path(
                    root@,
                    separator,
                ),
                Err(fault) => fault_of(root@, separator, attempt.deep_view()) == Some(fault.deep_view()),
            },
    {
        let path = lock_path_of(root, separator);
        match attempt {
            LockAttempt::DirectoryFailed { message } => Err(
                IndexLockError::CreateDirectory { path: index_directory_of(root, separator), message },
            ),
            LockAttempt::FileExists => Err(IndexLockError::AlreadyLocked { path }),
            LockAttempt::FileFailed { message } => Err(
                IndexLockError::CreateLock { path, message },
            ),
            LockAttempt::WriteFailed { message } => Err(
                IndexLockError::WriteLock { path, message },
            ),
            LockAttempt::Written => Ok(IndexLock { path }),
        }
    }

    /// The lock file.
    pub fn path(&self) -> (out: &str)
        ensures
            out@ == self@,
    {
        self.path.as_str()
    }
}

} // verus!
