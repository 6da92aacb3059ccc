//! File operations run in the background: their results, the operations
//! themselves, what a file's metadata says of it, how a list of operations
//! is put together, and how the results of a batch are combined.
use vstd::prelude::*;
use std::time::Duration;
use std::time::SystemTime;
use crate::file_entry::{EntryType, FileEntry};
use crate::paths::{extension_of, file_name_of, path_extension, path_file_name};

verus! {

/// A point in time, as `std::time::SystemTime` holds it; carried as it is.
#[verifier::external_type_specification]
#[verifier::external_body]
pub struct ExSystemTime(SystemTime);

/// The outcome of a background operation.
pub enum AsyncResult<T> {
    Success(T),
    Error(String),
    Timeout,
    Cancelled,
}

impl<T> AsyncResult<T> {
    /// Whether the operation succeeded.
    pub fn is_success(&self) -> (r: bool)
        ensures
            r == (*self is Success),
    {
        match self {
            AsyncResult::Success(_) => true,
            _ => false,
        }
    }

    /// Whether the operation failed with an error.
    pub fn is_error(&self) -> (r: bool)
        ensures
            r == (*self is Error),
    {
        match self {
            AsyncResult::Error(_) => true,
            _ => false,
        }
    }

    /// The value of a successful operation; only a success may be unwrapped.
    pub fn unwrap(self) -> (r: T)
        requires
            self is Success,
        ensures
            self == AsyncResult::Success(r),
    {
        match self {
            AsyncResult::Success(value) => value,
            _ => vstd::pervasive::unreached(),
        }
    }

    /// The value of a successful operation, or `default`.
    pub fn unwrap_or(self, default: T) -> (r: T)
        ensures
            match self {
                AsyncResult::Success(v) => r == v,
                _ => r == default,
            },
    {
        match self {
            AsyncResult::Success(value) => value,
            _ => default,
        }
    }
}

/// An operation on files, named by paths.
pub enum AsyncOperation {
    PathExists(String),
    GetFileInfo(String),
    ReadDirectory(String),
    CreateDirectory(String),
    Delete(String),
    Copy(String, String),
    Move(String, String),
    GetFileSize(String),
    GetModifiedTime(String),
    Batch(Vec<AsyncOperation>),
}

/// What the file system reports of a path.
pub struct FileMetadata {
    pub size: u64,
    pub is_directory: bool,
    pub is_file: bool,
    pub modified: Option<SystemTime>,
    pub created: Option<SystemTime>,
    pub readonly: bool,
}

/// What is known of a file: its path, name, size, kind, times, whether it
/// is read-only, and its extension.
pub struct FileInfo {
    pub path: String,
    pub name: String,
    pub size: u64,
    pub is_directory: bool,
    pub is_file: bool,
    pub modified: Option<SystemTime>,
    pub created: Option<SystemTime>,
    pub readonly: bool,
    pub extension: Option<String>,
}

impl FileInfo {
    /// What is known of the file at `path`, given what the file system
    /// reports of it: its name is the last component of the path (empty
    /// when there is none), its extension that of the path.
    pub fn from_metadata(path: String, meta: FileMetadata) -> (r: FileInfo)
        ensures
            r.path == path,
            r.name@ == match path_file_name(path@) {
                Some(n) => n,
                None => Seq::<char>::empty(),
            },
            r.size == meta.size,
            r.is_directory == meta.is_directory,
            r.is_file == meta.is_file,
            r.modified == meta.modified,
            r.created == meta.created,
            r.readonly == meta.readonly,
            match r.extension {
                Some(e) => path_extension(path@) == Some(e@),
                None => path_extension(path@) is None,
            },
    {
        let name = match file_name_of(path.as_str()) {
            Some(n) => n,
            None => String::new(),
        };
        let extension = extension_of(path.as_str());
        FileInfo {
            path,
            name,
            size: meta.size,
            is_directory: meta.is_directory,
            is_file: meta.is_file,
            modified: meta.modified,
            created: meta.created,
            readonly: meta.readonly,
            extension,
        }
    }

    /// An entry for the file: its path and name, no description, no tags,
    /// and a folder when the file is one.
    pub fn to_file_entry(&self) -> (e: FileEntry)
        ensures
            e.path == self.path,
            e.name == self.name,
            e.nickname is None,
            e.description is None,
            e.tags@.len() == 0,
            e.entry_type == (if self.is_directory {
                EntryType::Directory
            } else {
                EntryType::File
            }),
            e.is_directory == self.is_directory,
            e.url is None,
            e.id@.len() == 36,
    {
        FileEntry::new(self.path.clone(), self.name.clone(), None, Vec::new(), self.is_directory)
    }
}

/// Puts together a list of operations, with an optional time limit.
pub struct AsyncOperationBuilder {
    pub operations: Vec<AsyncOperation>,
    pub timeout: Option<Duration>,
}

impl AsyncOperationBuilder {
    /// An empty list, without a time limit.
    pub fn new() -> (b: Self)
        ensures
            b.operations@.len() == 0,
            b.timeout is None,
    {
        AsyncOperationBuilder { operations: Vec::new(), timeout: None }
    }

    /// Sets the time limit.
    pub fn with_timeout(self, timeout: Duration) -> (b: Self)
        ensures
            b.operations == self.operations,
            b.timeout == Some(timeout),
    {
        AsyncOperationBuilder { operations: self.operations, timeout: Some(timeout) }
    }

    /// Appends an operation.
    fn with_operation(self, op: AsyncOperation) -> (b: Self)
        ensures
            b.operations@ == self.operations@.push(op),
            b.timeout == self.timeout,
    {
        let mut operations = self.operations;
        operations.push(op);
        AsyncOperationBuilder { operations, timeout: self.timeout }
    }

    /// Appends a check that `path` exists.
    pub fn check_path_exists(self, path: &str) -> (b: Self)
        ensures
            b.operations@.drop_last() == self.operations@,
            b.operations@.len() == self.operations@.len() + 1,
            b.operations@.last() matches AsyncOperation::PathExists(p) && p@ == path@,
            b.timeout == self.timeout,
    {
        self.with_operation(AsyncOperation::PathExists(String::from_str(path)))
    }

    /// Appends reading what is known of `path`.
    pub fn get_file_info(self, path: &str) -> (b: Self)
        ensures
            b.operations@.drop_last() == self.operations@,
            b.operations@.len() == self.operations@.len() + 1,
            b.operations@.last() matches AsyncOperation::GetFileInfo(p) && p@ == path@,
            b.timeout == self.timeout,
    {
        self.with_operation(AsyncOperation::GetFileInfo(String::from_str(path)))
    }

    /// Appends reading the folder at `path`.
    pub fn read_directory(self, path: &str) -> (b: Self)
        ensures
            b.operations@.drop_last() == self.operations@,
            b.operations@.len() == self.operations@.len() + 1,
            b.operations@.last() matches AsyncOperation::ReadDirectory(p) && p@ == path@,
            b.timeout == self.timeout,
    {
        self.with_operation(AsyncOperation::ReadDirectory(String::from_str(path)))
    }

    /// Appends creating the folder at `path`.
    pub fn create_directory(self, path: &str) -> (b: Self)
        ensures
            b.operations@.drop_last() == self.operations@,
            b.operations@.len() == self.operations@.len() + 1,
            b.operations@.last() matches AsyncOperation::CreateDirectory(p) && p@ == path@,
            b.timeout == self.timeout,
    {
        self.with_operation(AsyncOperation::CreateDirectory(String::from_str(path)))
    }

    /// Appends deleting `path`.
    pub fn delete(self, path: &str) -> (b: Self)
        ensures
            b.operations@.drop_last() == self.operations@,
            b.operations@.len() == self.operations@.len() + 1,
            b.operations@.last() matches AsyncOperation::Delete(p) && p@ == path@,
            b.timeout == self.timeout,
    {
        self.with_operation(AsyncOperation::Delete(String::from_str(path)))
    }

    /// Appends copying `src` to `dst`.
    pub fn copy(self, src: &str, dst: &str) -> (b: Self)
        ensures
            b.operations@.drop_last() == self.operations@,
            b.operations@.len() == self.operations@.len() + 1,
            b.operations@.last() matches AsyncOperation::Copy(s, d) && s@ == src@ && d@ == dst@,
            b.timeout == self.timeout,
    {
        self.with_operation(AsyncOperation::Copy(String::from_str(src), String::from_str(dst)))
    }

    /// Appends moving `src` to `dst`.
    pub fn move_path(self, src: &str, dst: &str) -> (b: Self)
        ensures
            b.operations@.drop_last() == self.operations@,
            b.operations@.len() == self.operations@.len() + 1,
            b.operations@.last() matches AsyncOperation::Move(s, d) && s@ == src@ && d@ == dst@,
            b.timeout == self.timeout,
    {
        self.with_operation(AsyncOperation::Move(String::from_str(src), String::from_str(dst)))
    }

    /// The one operation to run on its own, with the time limit; an error
    /// unless the list holds exactly one.
    pub fn single_operation(self) -> (r: Result<(AsyncOperation, Option<Duration>), String>)
        ensures
            self.operations@.len() == 1 ==> r == Ok::<(AsyncOperation, Option<Duration>), String>(
                (self.operations@[0], self.timeout),
            ),
            self.operations@.len() != 1 ==> (r matches Err(e) && e@ == single_operation_error()),
    {
        if self.operations.len() != 1 {
            return Err(String::from_str("构建单个操作时必须只有一个操作"));
        }
        let mut operations = self.operations;
        let op = operations.remove(0);
        Ok((op, self.timeout))
    }

    /// The list run as one batch, with the time limit; an error when it is
    /// empty.
    pub fn batch_operation(self) -> (r: Result<(AsyncOperation, Option<Duration>), String>)
        ensures
            self.operations@.len() > 0 ==> (r matches Ok((AsyncOperation::Batch(ops), t)) && ops
                == self.operations && t == self.timeout),
            self.operations@.len() == 0 ==> (r matches Err(e) && e@ == empty_batch_error()),
    {
        if self.operations.len() == 0 {
            return Err(String::from_str("批量操作不能为空"));
        }
        Ok((AsyncOperation::Batch(self.operations), self.timeout))
    }
}

impl Default for AsyncOperationBuilder {
    fn default() -> (b: Self)
        ensures
            b.operations@.len() == 0,
            b.timeout is None,
    {
        AsyncOperationBuilder::new()
    }
}

/// The error for running a list on its own that does not hold exactly one
/// operation.
pub open spec fn single_operation_error() -> Seq<char> {
    "构建单个操作时必须只有一个操作"@
}

/// The error for running an empty batch.
pub open spec fn empty_batch_error() -> Seq<char> {
    "批量操作不能为空"@
}

/// The prefix of the error of a batch whose operation failed.
pub open spec fn batch_failure_prefix() -> Seq<char> {
    "批量操作失败: "@
}

/// The error of a batch whose operation ran out of time.
pub open spec fn batch_timeout_error() -> Seq<char> {
    "批量操作中的子操作超时"@
}

/// The error of a batch whose operation was cancelled.
pub open spec fn batch_cancelled_error() -> Seq<char> {
    "批量操作中的子操作被取消"@
}

/// What one more result of a batch makes of the values so far: a success
/// adds its value and the batch goes on (no message); anything else leaves
/// the values and ends the batch with its error message, the operation's own
/// message after a prefix.
pub open spec fn step_outcome<V>(values: Seq<V>, result: AsyncResult<V>) -> (Seq<V>, Option<Seq<char>>) {
    match result {
        AsyncResult::Success(v) => (values.push(v), None),
        AsyncResult::Error(msg) => (values, Some(batch_failure_prefix() + msg@)),
        AsyncResult::Timeout => (values, Some(batch_timeout_error())),
        AsyncResult::Cancelled => (values, Some(batch_cancelled_error())),
    }
}

/// One step of a batch (see `step_outcome`): `None` when it goes on, else
/// the error that ends it.
pub fn batch_step<V>(values: &mut Vec<V>, result: AsyncResult<V>) -> (r: Option<AsyncResult<Vec<V>>>)
    ensures
        final(values)@ == step_outcome(old(values)@, result).0,
        match step_outcome(old(values)@, result).1 {
            None => r is None,
            Some(m) => r matches Some(AsyncResult::Error(e)) && e@ == m,
        },
{
    match result {
        AsyncResult::Success(v) => {
            values.push(v);
            None
        },
        AsyncResult::Error(msg) => {
            let mut e = String::from_str("批量操作失败: ");
            e.append(msg.as_str());
            proof { reveal_strlit("批量操作失败: "); }
            Some(AsyncResult::Error(e))
        },
        AsyncResult::Timeout => Some(AsyncResult::Error(String::from_str("批量操作中的子操作超时"))),
        AsyncResult::Cancelled => Some(
            AsyncResult::Error(String::from_str("批量操作中的子操作被取消")),
        ),
    }
}

/// A batch run over the results of its operations, one step at a time from
/// `values`: the values at the end, the error that ended it if one did, and
/// how many results were taken.
pub open spec fn run_batch<V>(values: Seq<V>, results: Seq<AsyncResult<V>>) -> (Seq<V>, Option<Seq<char>>, nat)
    decreases results.len(),
{
    if results.len() == 0 {
        (values, None, 0)
    } else {
        let (next, stop) = step_outcome(values, results[0]);
        match stop {
            Some(m) => (next, Some(m), 1),
            None => {
                let (last, err, n) = run_batch(next, results.drop_first());
                (last, err, n + 1)
            },
        }
    }
}

/// The values of the first `n` results, all successes.
pub open spec fn success_values<V>(results: Seq<AsyncResult<V>>, n: int) -> Seq<V> {
    Seq::new(n as nat, |i: int| results[i]->Success_0)
}

/// A batch runs its operations in order and collects their values: when all
/// succeed it ends without error with every value in order; otherwise the
/// first that does not succeed ends it with that operation's error, and the
/// operations after it are not run.
pub proof fn law_batch_stops_at_first_failure<V>(results: Seq<AsyncResult<V>>)
    ensures
        (forall|i: int| 0 <= i < results.len() ==> #[trigger] results[i] is Success) ==> run_batch(
            Seq::<V>::empty(),
            results,
        ) == (success_values(results, results.len() as int), Option::<Seq<char>>::None, results.len()),
        forall|k: int|
            0 <= k < results.len() && !(#[trigger] results[k] is Success) && (forall|i: int|
                0 <= i < k ==> results[i] is Success) ==> run_batch(Seq::<V>::empty(), results) == (
            success_values(results, k),
            step_outcome(Seq::<V>::empty(), results[k]).1,
            (k + 1) as nat,
        ),
{
    if forall|i: int| 0 <= i < results.len() ==> #[trigger] results[i] is Success {
        lemma_batch_all_succeed(Seq::<V>::empty(), results);
        assert(Seq::<V>::empty() + success_values(results, results.len() as int) =~= success_values(
            results,
            results.len() as int,
        ));
    }
    assert forall|k: int|
        0 <= k < results.len() && !(#[trigger] results[k] is Success) && (forall|i: int|
            0 <= i < k ==> results[i] is Success) implies run_batch(Seq::<V>::empty(), results) == (
        success_values(results, k),
        step_outcome(Seq::<V>::empty(), results[k]).1,
        (k + 1) as nat,
    ) by {
        lemma_batch_first_failure(Seq::<V>::empty(), results, k);
        assert(Seq::<V>::empty() + success_values(results, k) =~= success_values(results, k));
    }
}

/// The values of a batch whose results are all successes.
proof fn lemma_batch_all_succeed<V>(values: Seq<V>, results: Seq<AsyncResult<V>>)
    requires
        forall|i: int| 0 <= i < results.len() ==> #[trigger] results[i] is Success,
    ensures
        run_batch(values, results) == (
            values + success_values(results, results.len() as int),
            Option::<Seq<char>>::None,
            results.len(),
        ),
    decreases results.len(),
{
    if results.len() > 0 {
        let rest = results.drop_first();
        assert(results[0] is Success);
        let v = results[0]->Success_0;
        assert forall|i: int| 0 <= i < rest.len() implies #[trigger] rest[i] is Success by {
            assert(rest[i] == results[i + 1]);
        }
        lemma_batch_all_succeed(values.push(v), rest);
        assert(values + success_values(results, results.len() as int) =~= values.push(v) + success_values(
            rest,
            rest.len() as int,
        ));
    } else {
        assert(values + success_values(results, 0) =~= values);
    }
}

/// The outcome of a batch whose result `k` is its first failure.
proof fn lemma_batch_first_failure<V>(values: Seq<V>, results: Seq<AsyncResult<V>>, k: int)
    requires
        0 <= k < results.len(),
        !(results[k] is Success),
        forall|i: int| 0 <= i < k ==> #[trigger] results[i] is Success,
    ensures
        run_batch(values, results) == (
            values + success_values(results, k),
            step_outcome(values, results[k]).1,
            (k + 1) as nat,
        ),
    decreases k,
{
    if k == 0 {
        assert(values + success_values(results, 0) =~= values);
    } else {
        let rest = results.drop_first();
        assert(results[0] is Success);
        let v = results[0]->Success_0;
        assert(rest[k - 1] == results[k]);
        assert forall|i: int| 0 <= i < k - 1 implies #[trigger] rest[i] is Success by {
            assert(rest[i] == results[i + 1]);
        }
        lemma_batch_first_failure(values.push(v), rest, k - 1);
        assert(values + success_values(results, k) =~= values.push(v) + success_values(rest, k - 1));
    }
}

} // verus!
