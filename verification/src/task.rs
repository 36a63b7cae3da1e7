use vstd::prelude::*;
use vstd::string::*;
use crate::clock::{is_clock_text, read_clock, timestamp_now, NANOS_PER_SECOND};
use crate::date::{is_valid_date_text, is_valid_due_date};
use crate::text::{hex_digits, lemma_hex_digits_injective, push_hex, trim_text, trimmed};

verus! {

broadcast use vstd::string::group_string_axioms;

/// The version of the stored task list that this library writes.
pub const STORE_VERSION: u32 = 1;

/// Refusal of a draft whose title is blank.
pub const TITLE_REQUIRED: &'static str = "请输入任务标题";

/// Refusal of a due date that is not `YYYY-MM-DD`.
pub const DATE_FORMAT_REQUIRED: &'static str = "日期格式必须是 YYYY-MM-DD";

/// Refusal of a stored task whose id is blank.
pub const EMPTY_ID: &'static str = "Task id cannot be empty";

/// Refusal of a stored task whose title is blank.
pub const EMPTY_TITLE: &'static str = "Task title cannot be empty";

/// Opening of the refusal of a stored task with a bad due date.
pub const INVALID_DUE_DATE: &'static str = "Invalid dueDate for task '";

/// Closing of the refusal of a stored task with a bad due date.
pub const QUOTE: &'static str = "'";

/// Prefix of every task id.
pub const TASK_ID_PREFIX: &'static str = "task-";

/// The due date that stands for "no due date" when tasks are ordered.
pub const NO_DUE_DATE_KEY: &'static str = "9999-12-31";

/// One task of the list.
#[derive(Debug, Clone, PartialEq, Eq)]
pub struct Task {
    pub id: String,
    pub title: String,
    pub note: String,
    pub due_date: Option<String>,
    pub done: bool,
    pub created_at: String,
    pub updated_at: String,
}

/// The stored task list with its format version.
#[derive(Debug, Clone, PartialEq, Eq)]
pub struct TaskStore {
    pub version: u32,
    pub tasks: Vec<Task>,
}

/// What the user typed into the task editor.
#[derive(Debug, Clone, PartialEq, Eq)]
pub struct TaskDraft {
    pub title: String,
    pub note: String,
    pub due_date: String,
}

/// The two shapes a stored task list may have on disk: the current one, and
/// a bare array of tasks from before the format had a version.
#[derive(Debug)]
pub enum StoreOnDisk {
    Store(TaskStore),
    Tasks(Vec<Task>),
}

/// The characters of an optional text.
pub open spec fn view_opt(o: Option<String>) -> Option<Seq<char>> {
    match o {
        Some(s) => Some(s@),
        None => None,
    }
}

/// The version that a stored list without one is given.
pub fn current_store_version() -> (v: u32)
    ensures
        v == STORE_VERSION,
{
    STORE_VERSION
}

/// A store of the current version with no tasks.
pub fn empty_store() -> (store: TaskStore)
    ensures
        store.version == STORE_VERSION,
        store.tasks@.len() == 0,
{
    TaskStore { version: STORE_VERSION, tasks: Vec::new() }
}

// ---------------------------------------------------------------------------
// Drafts
// ---------------------------------------------------------------------------

/// What an entered due date becomes: none when it is blank, the trimmed text
/// when that is a valid date, else the refusal.
pub open spec fn due_date_entry(input: Seq<char>) -> Result<Option<Seq<char>>, Seq<char>> {
    let t = trimmed(input);
    if t.len() == 0 {
        Ok(None)
    } else if is_valid_date_text(t) {
        Ok(Some(t))
    } else {
        Err(DATE_FORMAT_REQUIRED@)
    }
}

/// The title, note and due date that a draft gives a task, or the refusal.
pub open spec fn draft_fields(d: TaskDraft) -> Result<
    (Seq<char>, Seq<char>, Option<Seq<char>>),
    Seq<char>,
> {
    let title = trimmed(d.title@);
    if title.len() == 0 {
        Err(TITLE_REQUIRED@)
    } else {
        match due_date_entry(d.due_date@) {
            Err(e) => Err(e),
            Ok(due) => Ok((title, trimmed(d.note@), due)),
        }
    }
}

/// `t` carries the title, note and due date that draft `d` gives.
pub open spec fn fits_draft(t: Task, d: TaskDraft) -> bool {
    &&& draft_fields(d) is Ok
    &&& t.title@ == draft_fields(d)->Ok_0.0
    &&& t.note@ == draft_fields(d)->Ok_0.1
    &&& view_opt(t.due_date) == draft_fields(d)->Ok_0.2
}

/// A task id: `task-` and the nanoseconds of some clock reading in
/// lowercase hexadecimal.
pub open spec fn is_task_id(id: Seq<char>) -> bool {
    exists|secs: u64, subsec: u32|
        subsec < NANOS_PER_SECOND && id == #[trigger] task_id_text(secs, subsec)
}

/// The id of a task created at the clock reading of `secs` whole seconds
/// and `subsec` nanoseconds after the Unix epoch: `task-` and the reading's
/// total count of nanoseconds in lowercase hexadecimal.
pub open spec fn task_id_text(secs: u64, subsec: u32) -> Seq<char> {
    TASK_ID_PREFIX@ + hex_digits((secs * NANOS_PER_SECOND + subsec) as nat)
}

/// The due date of an entered text: none when it is blank, the trimmed text
/// when it is a valid date, an error otherwise.
pub fn normalize_due_date(value: &str) -> (r: Result<Option<String>, String>)
    ensures
        match r {
            Ok(o) => due_date_entry(value@) == Ok::<_, Seq<char>>(view_opt(o)),
            Err(e) => due_date_entry(value@) == Err::<Option<Seq<char>>, _>(e@),
        },
{
    let t = trim_text(value);
    if t.as_str().is_empty() {
        return Ok(None);
    }
    if is_valid_due_date(t.as_str()) {
        Ok(Some(t))
    } else {
        Err(DATE_FORMAT_REQUIRED.to_owned())
    }
}

/// The trimmed title, trimmed note and due date of a draft, or the refusal;
/// the title is checked before the due date.
fn draft_parts(draft: &TaskDraft) -> (r: Result<(String, String, Option<String>), String>)
    ensures
        match r {
            Ok((title, note, due)) => draft_fields(*draft) == Ok::<_, Seq<char>>(
                (title@, note@, view_opt(due)),
            ),
            Err(e) => draft_fields(*draft) == Err::<(Seq<char>, Seq<char>, Option<Seq<char>>), _>(
                e@,
            ),
        },
{
    let title = trim_text(draft.title.as_str());
    if title.as_str().is_empty() {
        return Err(TITLE_REQUIRED.to_owned());
    }
    let due_date = match normalize_due_date(draft.due_date.as_str()) {
        Ok(d) => d,
        Err(e) => {
            return Err(e);
        },
    };
    let note = trim_text(draft.note.as_str());
    Ok((title, note, due_date))
}

/// A new task from a draft, with the given id and creation time.
pub fn task_from_draft(draft: &TaskDraft, id: String, now: String) -> (r: Result<Task, String>)
    ensures
        r is Ok <==> draft_fields(*draft) is Ok,
        match r {
            Ok(t) => {
                &&& fits_draft(t, *draft)
                &&& !t.done
                &&& t.id == id
                &&& t.created_at == now
                &&& t.updated_at == now
            },
            Err(e) => draft_fields(*draft) == Err::<(Seq<char>, Seq<char>, Option<Seq<char>>), _>(
                e@,
            ),
        },
{
    let (title, note, due_date) = match draft_parts(draft) {
        Ok(parts) => parts,
        Err(e) => {
            return Err(e);
        },
    };
    let created_at = now.clone();
    Ok(Task { id, title, note, due_date, done: false, created_at, updated_at: now })
}

/// The task `task` with the title, note and due date of a draft, updated at
/// the given time; its id, completion and creation time stay.
pub fn revise_task(task: &Task, draft: &TaskDraft, now: String) -> (r: Result<Task, String>)
    ensures
        r is Ok <==> draft_fields(*draft) is Ok,
        match r {
            Ok(t) => {
                &&& fits_draft(t, *draft)
                &&& t.id == task.id
                &&& t.done == task.done
                &&& t.created_at == task.created_at
                &&& t.updated_at == now
            },
            Err(e) => draft_fields(*draft) == Err::<(Seq<char>, Seq<char>, Option<Seq<char>>), _>(
                e@,
            ),
        },
{
    let (title, note, due_date) = match draft_parts(draft) {
        Ok(parts) => parts,
        Err(e) => {
            return Err(e);
        },
    };
    Ok(
        Task {
            id: task.id.clone(),
            title,
            note,
            due_date,
            done: task.done,
            created_at: task.created_at.clone(),
            updated_at: now,
        },
    )
}

/// The id of a task created `nanos` nanoseconds after the Unix epoch.
pub fn task_id_from_nanos(nanos: u128) -> (id: String)
    ensures
        id@ == TASK_ID_PREFIX@ + hex_digits(nanos as nat),
{
    let mut id = TASK_ID_PREFIX.to_owned();
    push_hex(&mut id, nanos);
    id
}

/// The id of a task created at the clock reading of `secs` whole seconds
/// and `subsec` nanoseconds after the Unix epoch.
pub fn task_id_at(secs: u64, subsec: u32) -> (id: String)
    requires
        subsec < NANOS_PER_SECOND,
    ensures
        id@ == task_id_text(secs, subsec),
{
    assert(secs as u128 * 1_000_000_000 + subsec as u128 <= u128::MAX) by (nonlinear_arith)
        requires
            secs <= u64::MAX,
            subsec < 1_000_000_000u32,
    ;
    task_id_from_nanos(secs as u128 * 1_000_000_000 + subsec as u128)
}

/// The id of a task created at a clock reading; the id of the epoch itself
/// where there is no reading (the clock reads a time before the epoch).
pub fn task_id_for_reading(reading: Option<(u64, u32)>) -> (id: String)
    requires
        reading matches Some((_, subsec)) ==> subsec < NANOS_PER_SECOND,
    ensures
        id@ == match reading {
            Some((secs, subsec)) => task_id_text(secs, subsec),
            None => task_id_text(0, 0),
        },
{
    match reading {
        Some((secs, subsec)) => task_id_at(secs, subsec),
        None => task_id_at(0, 0),
    }
}

/// Task ids tell clock readings apart: two readings, each with less than a
/// second of nanoseconds, give the same id only when they are the same
/// reading; so tasks created at different readings get different ids.
pub proof fn lemma_task_id_tells_readings_apart(s1: u64, n1: u32, s2: u64, n2: u32)
    requires
        n1 < NANOS_PER_SECOND,
        n2 < NANOS_PER_SECOND,
        task_id_text(s1, n1) == task_id_text(s2, n2),
    ensures
        s1 == s2,
        n1 == n2,
{
    let p = TASK_ID_PREFIX@;
    let a = hex_digits((s1 * NANOS_PER_SECOND + n1) as nat);
    let b = hex_digits((s2 * NANOS_PER_SECOND + n2) as nat);
    assert((p + a).subrange(p.len() as int, (p + a).len() as int) =~= a);
    assert((p + b).subrange(p.len() as int, (p + b).len() as int) =~= b);
    lemma_hex_digits_injective((s1 * NANOS_PER_SECOND + n1) as nat, (s2 * NANOS_PER_SECOND + n2) as nat);
    let x1 = s1 as int;
    let x2 = s2 as int;
    let y1 = n1 as int;
    let y2 = n2 as int;
    assert(x1 * 1_000_000_000 + y1 == x2 * 1_000_000_000 + y2);
    assert(x1 == x2 && y1 == y2) by (nonlinear_arith)
        requires
            x1 * 1_000_000_000 + y1 == x2 * 1_000_000_000 + y2,
            0 <= y1 < 1_000_000_000,
            0 <= y2 < 1_000_000_000,
            x1 >= 0,
            x2 >= 0,
    ;
}

/// A fresh task id, taken from the clock; the id of the epoch itself when the
/// clock reads a time before it.
pub fn new_task_id() -> (id: String)
    ensures
        is_task_id(id@),
{
    task_id_for_reading(read_clock())
}

/// A new task from a draft, with a fresh id and the current time as its
/// creation and update time; the refusal when the title is blank or the due
/// date is not a valid date.
pub fn create_task(draft: &TaskDraft) -> (r: Result<Task, String>)
    ensures
        r is Ok <==> draft_fields(*draft) is Ok,
        match r {
            Ok(t) => {
                &&& fits_draft(t, *draft)
                &&& !t.done
                &&& is_task_id(t.id@)
                &&& t.created_at == t.updated_at
                &&& is_clock_text(t.created_at@)
            },
            Err(e) => draft_fields(*draft) == Err::<(Seq<char>, Seq<char>, Option<Seq<char>>), _>(
                e@,
            ),
        },
{
    match draft_parts(draft) {
        Ok(_) => {},
        Err(e) => {
            return Err(e);
        },
    }
    let now = timestamp_now();
    let id = new_task_id();
    task_from_draft(draft, id, now)
}

/// `task` edited by a draft and stamped with the current time; the refusal
/// when the title is blank or the due date is not a valid date.
pub fn update_task(task: &Task, draft: &TaskDraft) -> (r: Result<Task, String>)
    ensures
        r is Ok <==> draft_fields(*draft) is Ok,
        match r {
            Ok(t) => {
                &&& fits_draft(t, *draft)
                &&& t.id == task.id
                &&& t.done == task.done
                &&& t.created_at == task.created_at
                &&& is_clock_text(t.updated_at@)
            },
            Err(e) => draft_fields(*draft) == Err::<(Seq<char>, Seq<char>, Option<Seq<char>>), _>(
                e@,
            ),
        },
{
    match draft_parts(draft) {
        Ok(_) => {},
        Err(e) => {
            return Err(e);
        },
    }
    let now = timestamp_now();
    revise_task(task, draft, now)
}

} // verus!
