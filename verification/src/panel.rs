use vstd::prelude::*;
use vstd::seq_lib::*;
use vstd::string::*;
use crate::clock::{is_clock_text, timestamp_now};
use crate::task::{
    create_task, draft_fields, fits_draft, is_task_id, update_task, Task, TaskDraft, TaskStore,
};
use crate::text::{chars_of, push_char, same_text, trim_text, trimmed};

verus! {

broadcast use vstd::string::group_string_axioms;

/// How many characters of a note the task list shows.
pub const NOTE_SUMMARY_CHARS: usize = 36;

/// The mark that ends a shortened note.
pub const ELLIPSIS: char = '…';

/// What stands before a due date in the task list.
pub const DUE_PREFIX: &'static str = "截止 ";

/// What stands between the due date and the note in the task list.
pub const META_SEPARATOR: &'static str = " · ";

// ---------------------------------------------------------------------------
// What a row of the task list shows
// ---------------------------------------------------------------------------

/// The trimmed note, cut to its first 36 characters and an ellipsis when it
/// is longer.
pub open spec fn summary_of(note: Seq<char>) -> Seq<char> {
    let t = trimmed(note);
    if t.len() > NOTE_SUMMARY_CHARS {
        t.take(NOTE_SUMMARY_CHARS as int).push(ELLIPSIS)
    } else {
        t
    }
}

/// The note as the task list shows it.
pub fn note_summary(note: &str) -> (summary: String)
    ensures
        summary@ == summary_of(note@),
{
    let t = trim_text(note);
    let chars = chars_of(t.as_str());
    if chars.len() > NOTE_SUMMARY_CHARS {
        let mut summary = t.as_str().substring_char(0, NOTE_SUMMARY_CHARS).to_owned();
        push_char(&mut summary, ELLIPSIS);
        summary
    } else {
        t
    }
}

/// The line under a task's title: its due date and its note summary, as far
/// as it has them.
pub open spec fn meta_of(t: Task) -> Seq<char> {
    let note = summary_of(t.note@);
    match t.due_date {
        Some(d) => if note.len() > 0 {
            DUE_PREFIX@ + d@ + META_SEPARATOR@ + note
        } else {
            DUE_PREFIX@ + d@
        },
        None => note,
    }
}

/// The line under a task's title.
pub fn task_meta(task: &Task) -> (meta: String)
    ensures
        meta@ == meta_of(*task),
{
    let note = note_summary(task.note.as_str());
    match &task.due_date {
        Some(d) => {
            let mut meta = DUE_PREFIX.to_owned();
            meta.append(d.as_str());
            if !note.as_str().is_empty() {
                meta.append(META_SEPARATOR);
                meta.append(note.as_str());
            }
            meta
        },
        None => note,
    }
}

// ---------------------------------------------------------------------------
// The task panel
// ---------------------------------------------------------------------------

/// Which task the editor works on.
#[derive(Debug, Clone)]
pub enum EditorMode {
    Create,
    Edit(String),
}

/// The open editor: what it works on, the draft, and the refusal of the last
/// save, if any.
#[derive(Debug, Clone)]
pub struct EditorState {
    pub mode: EditorMode,
    pub draft: TaskDraft,
    pub error: Option<String>,
}

/// The state of the task panel, apart from where the store lives.
pub struct RecordState {
    pub tasks: Vec<Task>,
    pub error: Option<String>,
    pub editor: Option<EditorState>,
    pub delete_candidate: Option<String>,
    pub always_on_top: bool,
}

/// `k` is the first place in `s` of a task with id `id`.
pub open spec fn is_first_with_id(s: Seq<Task>, id: Seq<char>, k: int) -> bool {
    &&& 0 <= k < s.len()
    &&& s[k].id@ == id
    &&& forall|j: int| 0 <= j < k ==> (#[trigger] s[j]).id@ != id
}

/// Some task of `s` has id `id`.
pub open spec fn has_id(s: Seq<Task>, id: Seq<char>) -> bool {
    exists|k: int| 0 <= k < s.len() && (#[trigger] s[k]).id@ == id
}

/// The number of done tasks of `s`.
pub open spec fn count_done(s: Seq<Task>) -> nat
    decreases s.len(),
{
    if s.len() == 0 {
        0
    } else {
        count_done(s.drop_last()) + if s.last().done {
            1nat
        } else {
            0nat
        }
    }
}

/// The tasks of `s` whose id is not `id`.
pub open spec fn without_id(s: Seq<Task>, id: Seq<char>) -> Seq<Task> {
    s.filter(other_id(id))
}

/// Tasks whose id is not `id`.
pub open spec fn other_id(id: Seq<char>) -> spec_fn(Task) -> bool {
    |t: Task| t.id@ != id
}

/// A note summary shows the start of the trimmed note: its first 36
/// characters, or all of it when it is not longer, and after them `…`
/// exactly when the trimmed note is longer than 36 characters.
pub proof fn lemma_summary_is_start_of_note(note: Seq<char>)
    ensures
        ({
            let t = trimmed(note);
            let s = summary_of(note);
            let shown = if t.len() > 36 {
                36
            } else {
                t.len() as int
            };
            &&& s.len() == if t.len() > 36 {
                37
            } else {
                t.len() as int
            }
            &&& forall|i: int| 0 <= i < shown ==> #[trigger] s[i] == t[i]
            &&& t.len() > 36 ==> s[36] == '\u{2026}'
        }),
{
}

/// The done count counts the tasks whose done flag is set, whatever else
/// they hold: it is the length of the subsequence of done tasks, and adding
/// a task to the list adds one to it exactly when that task is done.
pub proof fn lemma_count_done(s: Seq<Task>, t: Task)
    ensures
        count_done(s) == s.filter(|x: Task| x.done).len(),
        count_done(s.push(t)) == count_done(s) + if t.done {
            1nat
        } else {
            0nat
        },
        count_done(s) <= s.len(),
    decreases s.len(),
{
    reveal(Seq::filter);
    assert(s.push(t).drop_last() =~= s);
    if s.len() > 0 {
        lemma_count_done(s.drop_last(), s.last());
    }
}

/// Deleting by id keeps exactly the tasks with another id: no task with the
/// id is left, every task with another id is kept, and no task appears that
/// was not there.
pub proof fn lemma_delete_by_id(s: Seq<Task>, id: Seq<char>)
    ensures
        forall|k: int|
            0 <= k < without_id(s, id).len() ==> (#[trigger] without_id(s, id)[k]).id@ != id,
        forall|k: int| 0 <= k < s.len() && (#[trigger] s[k]).id@ != id ==> without_id(s, id).contains(s[k]),
        forall|t: Task| #[trigger] without_id(s, id).contains(t) ==> s.contains(t),
        without_id(s, id).len() <= s.len(),
{
    let p = other_id(id);
    assert forall|k: int| 0 <= k < without_id(s, id).len() implies (#[trigger] without_id(
        s,
        id,
    )[k]).id@ != id by {
        s.lemma_filter_pred(p, k);
    }
    assert forall|k: int| 0 <= k < s.len() && (#[trigger] s[k]).id@ != id implies without_id(
        s,
        id,
    ).contains(s[k]) by {
        s.lemma_filter_contains(p, k);
    }
    assert forall|t: Task| #[trigger] without_id(s, id).contains(t) implies s.contains(t) by {
        s.lemma_filter_contains_rev(p, t);
    }
    s.lemma_filter_len(p);
}

/// The draft that editing `t` starts from: its title, note and due date.
pub open spec fn edits_task(e: EditorState, t: Task) -> bool {
    &&& e.mode == EditorMode::Edit(t.id)
    &&& e.draft.title == t.title
    &&& e.draft.note == t.note
    &&& e.draft.due_date@ == match t.due_date {
        Some(d) => d@,
        None => Seq::<char>::empty(),
    }
    &&& e.error is None
}

/// The editor after a refused save: as before, with the refusal.
pub open spec fn refused(before: EditorState, after: Option<EditorState>) -> bool {
    &&& after is Some
    &&& after->0.mode == before.mode
    &&& after->0.draft == before.draft
    &&& after->0.error is Some
    &&& draft_fields(before.draft) == Err::<(Seq<char>, Seq<char>, Option<Seq<char>>), _>(
        after->0.error->0@,
    )
}

/// What a click in a task row asks for.
#[derive(Debug)]
pub enum RowAction {
    /// Mark the task with this id done (`true`) or open.
    Toggle(String, bool),
    /// Open the editor on the task with this id.
    Edit(String),
    /// Ask to delete the task with this id.
    Delete(String),
}

/// The action of a task row from what was clicked in it: the edit button
/// wins over the delete button, and that over the checkbox, which asks for
/// the opposite of the task's completion.
pub fn row_action(task: &Task, check_clicked: bool, delete_clicked: bool, edit_clicked: bool) -> (r:
    Option<RowAction>)
    ensures
        edit_clicked ==> r == Some(RowAction::Edit(task.id)),
        !edit_clicked && delete_clicked ==> r == Some(RowAction::Delete(task.id)),
        !edit_clicked && !delete_clicked && check_clicked ==> r == Some(
            RowAction::Toggle(task.id, !task.done),
        ),
        !edit_clicked && !delete_clicked && !check_clicked ==> r is None,
{
    if edit_clicked {
        Some(RowAction::Edit(task.id.clone()))
    } else if delete_clicked {
        Some(RowAction::Delete(task.id.clone()))
    } else if check_clicked {
        Some(RowAction::Toggle(task.id.clone(), !task.done))
    } else {
        None
    }
}

/// What a dialog's buttons and its close box ask for.
#[derive(Debug, Clone, Copy, PartialEq, Eq)]
pub enum DialogChoice {
    /// Do what the dialog offers (save, delete).
    Confirm,
    /// Close the dialog without doing it.
    Dismiss,
    /// Leave the dialog open.
    Keep,
}

/// The choice of a dialog this frame: its confirming button wins; the cancel
/// button or a closed window dismisses it; otherwise it stays.
pub fn dialog_choice(confirm_clicked: bool, cancel_clicked: bool, still_open: bool) -> (choice:
    DialogChoice)
    ensures
        confirm_clicked ==> choice == DialogChoice::Confirm,
        !confirm_clicked && (cancel_clicked || !still_open) ==> choice == DialogChoice::Dismiss,
        !confirm_clicked && !cancel_clicked && still_open ==> choice == DialogChoice::Keep,
{
    if confirm_clicked {
        DialogChoice::Confirm
    } else if cancel_clicked || !still_open {
        DialogChoice::Dismiss
    } else {
        DialogChoice::Keep
    }
}

/// The place of the first task with the given id.
pub fn find_task(tasks: &Vec<Task>, id: &str) -> (r: Option<usize>)
    ensures
        match r {
            Some(k) => is_first_with_id(tasks@, id@, k as int),
            None => !has_id(tasks@, id@),
        },
{
    let n = tasks.len();
    let mut i: usize = 0;
    while i < n
        invariant
            n == tasks@.len(),
            i <= n,
            forall|j: int| 0 <= j < i ==> (#[trigger] tasks@[j]).id@ != id@,
        decreases n - i,
    {
        if same_text(tasks[i].id.as_str(), id) {
            return Some(i);
        }
        i += 1;
    }
    None
}

impl RecordState {
    /// The panel after loading the store: its tasks, or no tasks and the
    /// error.
    pub fn new(loaded: Result<TaskStore, String>) -> (state: Self)
        ensures
            state.editor is None,
            state.delete_candidate is None,
            !state.always_on_top,
            match loaded {
                Ok(store) => state.tasks == store.tasks && state.error is None,
                Err(e) => state.tasks@.len() == 0 && state.error == Some(e),
            },
    {
        let (tasks, error) = match loaded {
            Ok(store) => (store.tasks, None),
            Err(e) => (Vec::new(), Some(e)),
        };
        RecordState { tasks, error, editor: None, delete_candidate: None, always_on_top: false }
    }

    /// Opens the editor on an empty draft for a new task.
    pub fn open_create_editor(&mut self)
        ensures
            final(self).tasks == old(self).tasks,
            final(self).error == old(self).error,
            final(self).delete_candidate == old(self).delete_candidate,
            final(self).always_on_top == old(self).always_on_top,
            final(self).editor is Some,
            final(self).editor->0.mode == EditorMode::Create,
            final(self).editor->0.draft.title@.len() == 0,
            final(self).editor->0.draft.note@.len() == 0,
            final(self).editor->0.draft.due_date@.len() == 0,
            final(self).editor->0.error is None,
    {
        self.editor = Some(
            EditorState {
                mode: EditorMode::Create,
                draft: TaskDraft {
                    title: String::new(),
                    note: String::new(),
                    due_date: String::new(),
                },
                error: None,
            },
        );
    }

    /// Opens the editor on the first task with the given id; nothing happens
    /// when there is none.
    pub fn open_edit_editor(&mut self, task_id: &str)
        ensures
            final(self).tasks == old(self).tasks,
            final(self).error == old(self).error,
            final(self).delete_candidate == old(self).delete_candidate,
            final(self).always_on_top == old(self).always_on_top,
            !has_id(old(self).tasks@, task_id@) ==> final(self).editor == old(self).editor,
            has_id(old(self).tasks@, task_id@) ==> exists|k: int|
                is_first_with_id(old(self).tasks@, task_id@, k) && final(self).editor is Some
                    && edits_task(final(self).editor->0, #[trigger] old(self).tasks@[k]),
    {
        match find_task(&self.tasks, task_id) {
            None => {},
            Some(k) => {
                let task = &self.tasks[k];
                let due_date = match &task.due_date {
                    Some(d) => d.clone(),
                    None => String::new(),
                };
                self.editor = Some(
                    EditorState {
                        mode: EditorMode::Edit(task.id.clone()),
                        draft: TaskDraft {
                            title: task.title.clone(),
                            note: task.note.clone(),
                            due_date,
                        },
                        error: None,
                    },
                );
                assert(is_first_with_id(old(self).tasks@, task_id@, k as int));
            },
        }
    }

    /// Closes the editor without saving.
    pub fn close_editor(&mut self)
        ensures
            final(self).editor is None,
            final(self).tasks == old(self).tasks,
            final(self).error == old(self).error,
            final(self).delete_candidate == old(self).delete_candidate,
            final(self).always_on_top == old(self).always_on_top,
    {
        self.editor = None;
    }

    /// The numbers of open and of done tasks.
    pub fn task_counts(&self) -> (counts: (usize, usize))
        ensures
            counts.1 == count_done(self.tasks@),
            counts.1 == self.tasks@.filter(|x: Task| x.done).len(),
            counts.0 + counts.1 == self.tasks@.len(),
    {
        proof {
            lemma_count_done(self.tasks@, self.tasks@[0]);
        }
        let n = self.tasks.len();
        let mut completed: usize = 0;
        let mut i: usize = 0;
        while i < n
            invariant
                n == self.tasks@.len(),
                i <= n,
                completed == count_done(self.tasks@.take(i as int)),
                completed <= i,
            decreases n - i,
        {
            assert(self.tasks@.take(i + 1).drop_last() =~= self.tasks@.take(i as int));
            if self.tasks[i].done {
                completed += 1;
            }
            i += 1;
        }
        assert(self.tasks@.take(n as int) =~= self.tasks@);
        (n - completed, completed)
    }

    /// Saves the editor's draft: a new task is added, or the edited task is
    /// changed in place; the editor closes and the result is `true`, which
    /// asks for the list to be persisted. A refused draft keeps the editor
    /// open with the refusal. Without an editor, or when the edited task is
    /// gone, nothing changes.
    pub fn save_editor(&mut self) -> (persist: bool)
        ensures
            final(self).error == old(self).error,
            final(self).delete_candidate == old(self).delete_candidate,
            final(self).always_on_top == old(self).always_on_top,
            match old(self).editor {
                None => !persist && final(self).editor == old(self).editor && final(self).tasks
                    == old(self).tasks,
                Some(e) => match e.mode {
                    EditorMode::Create => if draft_fields(e.draft) is Ok {
                        &&& persist
                        &&& final(self).editor is None
                        &&& final(self).tasks@.len() == old(self).tasks@.len() + 1
                        &&& final(self).tasks@.drop_last() == old(self).tasks@
                        &&& fits_draft(final(self).tasks@.last(), e.draft)
                        &&& !final(self).tasks@.last().done
                        &&& is_task_id(final(self).tasks@.last().id@)
                        &&& final(self).tasks@.last().created_at
                            == final(self).tasks@.last().updated_at
                        &&& is_clock_text(final(self).tasks@.last().created_at@)
                    } else {
                        &&& !persist
                        &&& final(self).tasks == old(self).tasks
                        &&& refused(e, final(self).editor)
                    },
                    EditorMode::Edit(id) => if !has_id(old(self).tasks@, id@) {
                        &&& !persist
                        &&& final(self).tasks == old(self).tasks
                        &&& final(self).editor == old(self).editor
                    } else if draft_fields(e.draft) is Ok {
                        &&& persist
                        &&& final(self).editor is None
                        &&& exists|k: int|
                            #![trigger old(self).tasks@[k]]
                            is_first_with_id(old(self).tasks@, id@, k) && final(self).tasks@
                                == old(self).tasks@.update(k, final(self).tasks@[k])
                                && fits_draft(final(self).tasks@[k], e.draft)
                                && final(self).tasks@[k].id == old(self).tasks@[k].id
                                && final(self).tasks@[k].done == old(self).tasks@[k].done
                                && final(self).tasks@[k].created_at
                                == old(self).tasks@[k].created_at
                                && is_clock_text(final(self).tasks@[k].updated_at@)
                    } else {
                        &&& !persist
                        &&& final(self).tasks == old(self).tasks
                        &&& refused(e, final(self).editor)
                    },
                },
            },
    {
        let editor = match self.editor.take() {
            None => {
                return false;
            },
            Some(editor) => editor,
        };
        let result = match &editor.mode {
            EditorMode::Create => {
                match create_task(&editor.draft) {
                    Ok(task) => {
                        self.tasks.push(task);
                        Ok(())
                    },
                    Err(e) => Err(e),
                }
            },
            EditorMode::Edit(task_id) => {
                let index = match find_task(&self.tasks, task_id.as_str()) {
                    None => {
                        self.editor = Some(editor);
                        return false;
                    },
                    Some(index) => index,
                };
                match update_task(&self.tasks[index], &editor.draft) {
                    Ok(task) => {
                        self.tasks.set(index, task);
                        assert(is_first_with_id(old(self).tasks@, task_id@, index as int));
                        Ok(())
                    },
                    Err(e) => Err(e),
                }
            },
        };
        match result {
            Ok(()) => true,
            Err(e) => {
                self.editor = Some(EditorState { mode: editor.mode, draft: editor.draft, error: Some(e) });
                false
            },
        }
    }

    /// Takes in the outcome of persisting: the saved store's tasks and no
    /// error, or the error with the tasks as they were.
    pub fn finish_persist(&mut self, outcome: Result<TaskStore, String>)
        ensures
            final(self).editor == old(self).editor,
            final(self).delete_candidate == old(self).delete_candidate,
            final(self).always_on_top == old(self).always_on_top,
            match outcome {
                Ok(store) => final(self).tasks == store.tasks && final(self).error is None,
                Err(e) => final(self).tasks == old(self).tasks && final(self).error == Some(e),
            },
    {
        match outcome {
            Ok(store) => {
                self.tasks = store.tasks;
                self.error = None;
            },
            Err(e) => {
                self.error = Some(e);
            },
        }
    }

    /// Marks the task at `index` done or open, updated at `now`.
    pub fn set_done_at(&mut self, index: usize, done: bool, now: String)
        requires
            index < old(self).tasks@.len(),
        ensures
            final(self).editor == old(self).editor,
            final(self).error == old(self).error,
            final(self).delete_candidate == old(self).delete_candidate,
            final(self).always_on_top == old(self).always_on_top,
            final(self).tasks@ == old(self).tasks@.update(
                index as int,
                Task { done, updated_at: now, ..old(self).tasks@[index as int] },
            ),
    {
        let mut tasks = Vec::new();
        std::mem::swap(&mut tasks, &mut self.tasks);
        let mut task = tasks.remove(index);
        task.done = done;
        task.updated_at = now;
        tasks.insert(index, task);
        assert(tasks@ =~= old(self).tasks@.update(
            index as int,
            Task { done, updated_at: now, ..old(self).tasks@[index as int] },
        ));
        self.tasks = tasks;
    }

    /// Marks the first task with the given id done or open and stamps it with
    /// the current time; `true`, asking for the list to be persisted, when
    /// there is such a task.
    pub fn toggle_task(&mut self, task_id: &str, done: bool) -> (persist: bool)
        ensures
            final(self).editor == old(self).editor,
            final(self).error == old(self).error,
            final(self).delete_candidate == old(self).delete_candidate,
            final(self).always_on_top == old(self).always_on_top,
            persist == has_id(old(self).tasks@, task_id@),
            !persist ==> final(self).tasks == old(self).tasks,
            persist ==> exists|k: int|
                #![trigger old(self).tasks@[k]]
                is_first_with_id(old(self).tasks@, task_id@, k) && is_clock_text(
                    final(self).tasks@[k].updated_at@,
                ) && final(self).tasks@
                    == old(self).tasks@.update(
                    k,
                    Task {
                        done,
                        updated_at: final(self).tasks@[k].updated_at,
                        ..old(self).tasks@[k]
                    },
                ),
    {
        match find_task(&self.tasks, task_id) {
            None => false,
            Some(index) => {
                let now = timestamp_now();
                self.set_done_at(index, done, now);
                assert(is_first_with_id(old(self).tasks@, task_id@, index as int));
                assert(final(self).tasks@[index as int].updated_at == now);
                true
            },
        }
    }

    /// Asks to delete the task with the given id; the panel then asks to
    /// confirm.
    pub fn request_delete(&mut self, task_id: String)
        ensures
            final(self).delete_candidate == Some(task_id),
            final(self).tasks == old(self).tasks,
            final(self).editor == old(self).editor,
            final(self).error == old(self).error,
            final(self).always_on_top == old(self).always_on_top,
    {
        self.delete_candidate = Some(task_id);
    }

    /// Drops the request to delete.
    pub fn cancel_delete(&mut self)
        ensures
            final(self).delete_candidate is None,
            final(self).tasks == old(self).tasks,
            final(self).editor == old(self).editor,
            final(self).error == old(self).error,
            final(self).always_on_top == old(self).always_on_top,
    {
        self.delete_candidate = None;
    }

    /// Deletes every task with the id that was asked for, keeping the others
    /// in order; `true`, asking for the list to be persisted, when there was
    /// a request.
    pub fn confirm_delete(&mut self) -> (persist: bool)
        ensures
            final(self).editor == old(self).editor,
            final(self).error == old(self).error,
            final(self).always_on_top == old(self).always_on_top,
            final(self).delete_candidate is None,
            persist == old(self).delete_candidate is Some,
            match old(self).delete_candidate {
                Some(id) => {
                    &&& final(self).tasks@ == without_id(old(self).tasks@, id@)
                    &&& forall|k: int|
                        0 <= k < final(self).tasks@.len() ==> (#[trigger] final(self).tasks@[k]).id@
                            != id@
                    &&& forall|k: int|
                        0 <= k < old(self).tasks@.len() && (#[trigger] old(self).tasks@[k]).id@
                            != id@ ==> final(self).tasks@.contains(old(self).tasks@[k])
                },
                None => final(self).tasks == old(self).tasks,
            },
    {
        let id = match self.delete_candidate.take() {
            None => {
                return false;
            },
            Some(id) => id,
        };
        let ghost given = self.tasks@;
        let ghost keep = other_id(id@);
        let mut rest = Vec::new();
        std::mem::swap(&mut rest, &mut self.tasks);
        let mut kept: Vec<Task> = Vec::new();
        assert(given.take(0) =~= Seq::<Task>::empty());
        while rest.len() > 0
            invariant
                rest@.len() <= given.len(),
                rest@ == given.skip(given.len() - rest@.len()),
                kept@ == given.take(given.len() - rest@.len()).filter(keep),
                keep == other_id(id@),
            decreases rest@.len(),
        {
            let ghost i = given.len() - rest@.len();
            let task = rest.remove(0);
            proof {
                assert(given.take(i + 1) =~= given.take(i).push(task));
                given.take(i).lemma_filter_push(task, keep);
            }
            if !same_text(task.id.as_str(), id.as_str()) {
                kept.push(task);
            }
            assert(rest@ =~= given.skip(given.len() - rest@.len()));
        }
        assert(given.take(given.len() as int) =~= given);
        self.tasks = kept;
        proof {
            lemma_delete_by_id(given, id@);
        }
        true
    }

    /// Switches keeping the window on top; the new setting.
    pub fn toggle_always_on_top(&mut self) -> (on_top: bool)
        ensures
            on_top == !old(self).always_on_top,
            final(self).always_on_top == on_top,
            final(self).tasks == old(self).tasks,
            final(self).editor == old(self).editor,
            final(self).error == old(self).error,
            final(self).delete_candidate == old(self).delete_candidate,
    {
        self.always_on_top = !self.always_on_top;
        self.always_on_top
    }
}

} // verus!
