use vstd::prelude::*;
use vstd::string::*;
use crate::date::{is_valid_date_text, is_valid_due_date};
use crate::order::{is_ordered, lemma_ordered_unique, rank_class, sort_tasks};
use crate::task::{
    fits_draft, is_task_id, task_id_text, StoreOnDisk, Task, TaskDraft, TaskStore,
    EMPTY_ID, EMPTY_TITLE, INVALID_DUE_DATE, QUOTE, STORE_VERSION, TASK_ID_PREFIX,
};
use crate::clock::NANOS_PER_SECOND;
use crate::text::{
    blank, decimal_digits, is_blank, lemma_not_blank, lemma_trim_idempotent,
    push_decimal,
};

verus! {

broadcast use vstd::string::group_string_axioms;

/// The file name extension of a stored task list.
pub const JSON_EXTENSION: &'static str = ".json";

/// The marker in the name of a backed-up unreadable store.
pub const INVALID_MARKER: &'static str = ".invalid.";

/// The separator before the attempt number in a backup's name.
pub const ATTEMPT_SEPARATOR: &'static str = "-";

/// How many backup names are tried before giving up.
pub const BACKUP_ATTEMPTS: u32 = 100;

/// The refusal when every backup name is taken.
pub const NO_BACKUP_NAME: &'static str = "Failed to choose a backup path for corrupt task store";

// ---------------------------------------------------------------------------
// Checking tasks before they are saved
// ---------------------------------------------------------------------------

/// The refusal of a task whose due date is not a valid date.
pub open spec fn invalid_due_date_message(id: Seq<char>) -> Seq<char> {
    INVALID_DUE_DATE@ + id + QUOTE@
}

/// What keeps a task from being saved: a blank id, a blank title, or a due
/// date that is not a valid date; none when it can be saved.
pub open spec fn task_problem(t: Task) -> Option<Seq<char>> {
    if is_blank(t.id@) {
        Some(EMPTY_ID@)
    } else if is_blank(t.title@) {
        Some(EMPTY_TITLE@)
    } else if t.due_date is Some && !is_valid_date_text(t.due_date->0@) {
        Some(invalid_due_date_message(t.id@))
    } else {
        None
    }
}

/// The problem of the first task of `s` that has one.
pub open spec fn first_problem(s: Seq<Task>) -> Option<Seq<char>>
    decreases s.len(),
{
    if s.len() == 0 {
        None
    } else if task_problem(s[0]) is Some {
        task_problem(s[0])
    } else {
        first_problem(s.drop_first())
    }
}

/// A list has no first problem exactly when none of its tasks has one.
pub proof fn lemma_first_problem_none(s: Seq<Task>)
    ensures
        first_problem(s) is None <==> forall|i: int|
            0 <= i < s.len() ==> #[trigger] task_problem(s[i]) is None,
    decreases s.len(),
{
    if s.len() > 0 {
        lemma_first_problem_none(s.drop_first());
        if first_problem(s) is None {
            assert forall|i: int| 0 <= i < s.len() implies #[trigger] task_problem(s[i]) is None by {
                if i > 0 {
                    assert(s[i] == s.drop_first()[i - 1]);
                }
            }
        }
        if forall|i: int| 0 <= i < s.len() ==> #[trigger] task_problem(s[i]) is None {
            assert forall|i: int| 0 <= i < s.drop_first().len() implies #[trigger] task_problem(
                s.drop_first()[i],
            ) is None by {
                assert(s.drop_first()[i] == s[i + 1]);
            }
            assert(task_problem(s[0]) is None);
        }
    }
}

/// Checks every task; the message of the first one that cannot be saved.
pub fn validate_tasks(tasks: &[Task]) -> (r: Result<(), String>)
    ensures
        match r {
            Ok(_) => first_problem(tasks@) is None,
            Err(e) => first_problem(tasks@) == Some(e@),
        },
{
    let n = tasks.len();
    let mut i: usize = 0;
    assert(tasks@.skip(0) =~= tasks@);
    while i < n
        invariant
            n == tasks@.len(),
            i <= n,
            first_problem(tasks@) == first_problem(tasks@.skip(i as int)),
        decreases n - i,
    {
        let t = &tasks[i];
        assert(tasks@.skip(i as int)[0] == tasks@[i as int]);
        assert(tasks@.skip(i as int).drop_first() =~= tasks@.skip(i + 1));
        if blank(t.id.as_str()) {
            return Err(EMPTY_ID.to_owned());
        }
        if blank(t.title.as_str()) {
            return Err(EMPTY_TITLE.to_owned());
        }
        match &t.due_date {
            Some(d) => {
                if !is_valid_due_date(d.as_str()) {
                    let mut message = INVALID_DUE_DATE.to_owned();
                    message.append(t.id.as_str());
                    message.append(QUOTE);
                    return Err(message);
                }
            },
            None => {},
        }
        i += 1;
    }
    assert(tasks@.skip(n as int).len() == 0);
    Ok(())
}

// ---------------------------------------------------------------------------
// Normalizing, saving and loading
// ---------------------------------------------------------------------------

/// `r` is `s` in order: ordered, with the same tasks, and with every rank
/// class in the order it has in `s`.
pub open spec fn arranged(r: Seq<Task>, s: Seq<Task>) -> bool {
    &&& is_ordered(r)
    &&& r.to_multiset() == s.to_multiset()
    &&& forall|t: Task| #[trigger] rank_class(r, t) == rank_class(s, t)
}

/// The store at the current version with its tasks in order.
pub fn normalize_store(store: TaskStore) -> (r: TaskStore)
    ensures
        r.version == STORE_VERSION,
        arranged(r.tasks@, store.tasks@),
        is_ordered(store.tasks@) ==> r.tasks@ == store.tasks@,
{
    let mut store = store;
    store.version = STORE_VERSION;
    sort_tasks(&mut store.tasks);
    store
}

/// Checks the tasks that are to be saved at the store's path and gives the
/// store to write there: the current version with the tasks in order. The
/// refusal of the first task that cannot be saved, if any. Writing the store
/// is the caller's part.
pub fn save_tasks_at_path(tasks: Vec<Task>) -> (r: Result<TaskStore, String>)
    ensures
        match r {
            Ok(store) => {
                &&& first_problem(tasks@) is None
                &&& store.version == STORE_VERSION
                &&& arranged(store.tasks@, tasks@)
                &&& is_ordered(tasks@) ==> store.tasks@ == tasks@
            },
            Err(e) => first_problem(tasks@) == Some(e@),
        },
{
    match validate_tasks(tasks.as_slice()) {
        Err(e) => Err(e),
        Ok(()) => Ok(normalize_store(TaskStore { version: STORE_VERSION, tasks })),
    }
}

/// The tasks that a stored list holds in either shape.
pub open spec fn disk_tasks(d: StoreOnDisk) -> Seq<Task> {
    match d {
        StoreOnDisk::Store(s) => s.tasks@,
        StoreOnDisk::Tasks(t) => t@,
    }
}

/// The store that a stored list stands for: itself, or a bare array of tasks
/// taken as a store of the current version.
pub fn store_from_disk(on_disk: StoreOnDisk) -> (r: TaskStore)
    ensures
        r.tasks@ == disk_tasks(on_disk),
        match on_disk {
            StoreOnDisk::Store(s) => r == s,
            StoreOnDisk::Tasks(_) => r.version == STORE_VERSION,
        },
{
    match on_disk {
        StoreOnDisk::Store(store) => store,
        StoreOnDisk::Tasks(tasks) => TaskStore { version: STORE_VERSION, tasks },
    }
}

/// What reading the store's file gave.
pub enum StoreFile {
    /// There is no such file.
    Missing,
    /// The file holds no stored task list.
    Corrupt,
    /// The file holds a stored task list.
    Parsed(StoreOnDisk),
}

/// What must follow a load.
#[derive(Debug, Clone, Copy, PartialEq, Eq)]
pub enum LoadFollowUp {
    /// Nothing: the file was read.
    Nothing,
    /// Write the loaded store to the file.
    WriteStore,
    /// Move the unreadable file aside under a backup name, then write the
    /// loaded store to the file.
    BackUpAndWriteStore,
}

/// The store that loading gives, from what the store's file held, and what
/// must then be written: an empty store written out where there was no file,
/// an empty store written out after the unreadable file is backed up, and
/// otherwise the stored list at the current version with its tasks in order.
pub fn load_or_create_store(file: StoreFile) -> (r: (TaskStore, LoadFollowUp))
    ensures
        match file {
            StoreFile::Missing => {
                &&& r.0.version == STORE_VERSION
                &&& r.0.tasks@.len() == 0
                &&& r.1 == LoadFollowUp::WriteStore
            },
            StoreFile::Corrupt => {
                &&& r.0.version == STORE_VERSION
                &&& r.0.tasks@.len() == 0
                &&& r.1 == LoadFollowUp::BackUpAndWriteStore
            },
            StoreFile::Parsed(d) => {
                &&& r.0.version == STORE_VERSION
                &&& arranged(r.0.tasks@, disk_tasks(d))
                &&& is_ordered(disk_tasks(d)) ==> r.0.tasks@ == disk_tasks(d)
                &&& r.1 == LoadFollowUp::Nothing
            },
        },
{
    match file {
        StoreFile::Missing => (
            TaskStore { version: STORE_VERSION, tasks: Vec::new() },
            LoadFollowUp::WriteStore,
        ),
        StoreFile::Corrupt => (
            TaskStore { version: STORE_VERSION, tasks: Vec::new() },
            LoadFollowUp::BackUpAndWriteStore,
        ),
        StoreFile::Parsed(on_disk) => (
            normalize_store(store_from_disk(on_disk)),
            LoadFollowUp::Nothing,
        ),
    }
}

// ---------------------------------------------------------------------------
// Laws of saving and loading
// ---------------------------------------------------------------------------

/// There is only one way to put a list in order: two arrangements of the
/// same list are equal.
pub proof fn lemma_arrangement_unique(r1: Seq<Task>, r2: Seq<Task>, s: Seq<Task>)
    requires
        arranged(r1, s),
        arranged(r2, s),
    ensures
        r1 == r2,
{
    assert forall|t: Task| #[trigger] rank_class(r1, t) == rank_class(r2, t) by {
        assert(rank_class(r1, t) == rank_class(s, t));
        assert(rank_class(r2, t) == rank_class(s, t));
    }
    lemma_ordered_unique(r1, r2);
}

/// Loading the list that saving produced gives back that very list: the
/// saved tasks are in order already, and putting them in order again
/// changes nothing. The same holds of normalizing a store twice.
pub proof fn lemma_load_gives_back_saved(tasks: Seq<Task>, saved: Seq<Task>, loaded: Seq<Task>)
    requires
        arranged(saved, tasks),
        arranged(loaded, saved),
    ensures
        loaded == saved,
{
    lemma_ordered_unique(loaded, saved);
}

/// A task id starts with `task-`, so it is never blank.
pub proof fn lemma_task_id_not_blank(id: Seq<char>)
    requires
        is_task_id(id),
    ensures
        !is_blank(id),
{
    reveal_strlit("task-");
    let (secs, subsec) = choose|secs: u64, subsec: u32|
        subsec < NANOS_PER_SECOND && id == #[trigger] task_id_text(secs, subsec);
    assert(id[0] == TASK_ID_PREFIX@[0]);
    lemma_not_blank(id, 0);
}

/// A task that carries what a draft gives, under a non-blank id, passes the
/// check before saving: the editor never yields a task that saving refuses.
pub proof fn lemma_drafted_task_can_be_saved(t: Task, d: TaskDraft)
    requires
        fits_draft(t, d),
        !is_blank(t.id@),
    ensures
        task_problem(t) is None,
{
    lemma_trim_idempotent(d.title@);
    lemma_trim_idempotent(d.due_date@);
}

/// A task that `create_task` gives passes the check before saving.
pub proof fn lemma_created_task_can_be_saved(t: Task, d: TaskDraft)
    requires
        fits_draft(t, d),
        is_task_id(t.id@),
    ensures
        task_problem(t) is None,
{
    lemma_task_id_not_blank(t.id@);
    lemma_drafted_task_can_be_saved(t, d);
}

// ---------------------------------------------------------------------------
// Backup names
// ---------------------------------------------------------------------------

/// The name under which an unreadable store is kept:
/// `{stem}.invalid.{timestamp}.json` at the first attempt and
/// `{stem}.invalid.{timestamp}-{attempt}.json` after it.
pub open spec fn backup_name(stem: Seq<char>, timestamp: nat, attempt: nat) -> Seq<char> {
    stem + INVALID_MARKER@ + decimal_digits(timestamp) + (if attempt == 0 {
        Seq::empty()
    } else {
        ATTEMPT_SEPARATOR@ + decimal_digits(attempt)
    }) + JSON_EXTENSION@
}

/// The file name for the backup of an unreadable store whose file name stem
/// is `stem`, taken at `timestamp` (seconds since the Unix epoch), at the
/// given attempt.
pub fn backup_file_name(stem: &str, timestamp: u64, attempt: u32) -> (name: String)
    ensures
        name@ == backup_name(stem@, timestamp as nat, attempt as nat),
{
    let mut name = stem.to_owned();
    name.append(INVALID_MARKER);
    push_decimal(&mut name, timestamp);
    if attempt != 0 {
        name.append(ATTEMPT_SEPARATOR);
        push_decimal(&mut name, attempt as u64);
    }
    name.append(JSON_EXTENSION);
    assert(name@ =~= backup_name(stem@, timestamp as nat, attempt as nat));
    name
}

/// What moving the unreadable store to a backup name gave.
#[derive(Debug, Clone, Copy, PartialEq, Eq)]
pub enum RenameOutcome {
    /// The file now has the backup name.
    Moved,
    /// A file with that name exists already.
    NameTaken,
    /// Moving failed for another reason.
    Failed,
}

/// What follows one try at backing up.
#[derive(Debug, Clone, Copy, PartialEq, Eq)]
pub enum BackupStep {
    /// The backup is made.
    Done,
    /// Try the backup name of this attempt.
    Retry(u32),
    /// Give up with the error of the failed move.
    Abort,
    /// Give up: every backup name was taken.
    NoNameLeft,
}

/// What follows the try at backup name `attempt`: done once the file is
/// moved, stop on any failure but a taken name, and on a taken name try the
/// next attempt while fewer than `BACKUP_ATTEMPTS` names have been tried.
pub fn next_backup_step(attempt: u32, outcome: RenameOutcome) -> (step: BackupStep)
    ensures
        match outcome {
            RenameOutcome::Moved => step == BackupStep::Done,
            RenameOutcome::Failed => step == BackupStep::Abort,
            RenameOutcome::NameTaken => if attempt + 1 < BACKUP_ATTEMPTS {
                step == BackupStep::Retry((attempt + 1) as u32)
            } else {
                step == BackupStep::NoNameLeft
            },
        },
{
    match outcome {
        RenameOutcome::Moved => BackupStep::Done,
        RenameOutcome::Failed => BackupStep::Abort,
        RenameOutcome::NameTaken => if attempt < BACKUP_ATTEMPTS - 1 {
            BackupStep::Retry(attempt + 1)
        } else {
            BackupStep::NoNameLeft
        },
    }
}

} // verus!
