use record_native::panel::{
    dialog_choice, note_summary, row_action, task_meta, DialogChoice, EditorMode, RecordState,
    RowAction,
};
use record_native::task::{Task, TaskDraft, TaskStore};

fn sample_task(id: &str, done: bool, due_date: Option<&str>, note: &str) -> Task {
    Task {
        id: id.to_string(),
        title: format!("Task {id}"),
        note: note.to_string(),
        due_date: due_date.map(str::to_string),
        done,
        created_at: "2026-05-31T00:00:00.000Z".to_string(),
        updated_at: "2026-05-31T00:00:00.000Z".to_string(),
    }
}

fn state_with(tasks: Vec<Task>) -> RecordState {
    RecordState::new(Ok(TaskStore { version: 1, tasks }))
}

#[test]
fn note_summary_cuts_long_notes() {
    assert_eq!(note_summary("  short  "), "short");
    let long = "一".repeat(40);
    assert_eq!(note_summary(&long), format!("{}…", "一".repeat(36)));
    let exact = "x".repeat(36);
    assert_eq!(note_summary(&exact), exact);
    assert_eq!(note_summary("   "), "");
}

#[test]
fn task_meta_joins_date_and_note() {
    assert_eq!(task_meta(&sample_task("a", false, Some("2026-06-01"), " n ")), "截止 2026-06-01 · n");
    assert_eq!(task_meta(&sample_task("a", false, Some("2026-06-01"), "  ")), "截止 2026-06-01");
    assert_eq!(task_meta(&sample_task("a", false, None, "note")), "note");
    assert_eq!(task_meta(&sample_task("a", false, None, "")), "");
}

#[test]
fn panel_counts_tasks() {
    let state = state_with(vec![
        sample_task("a", true, None, ""),
        sample_task("b", false, None, ""),
        sample_task("c", true, None, ""),
    ]);
    assert_eq!(state.task_counts(), (1, 2));
    let failed = RecordState::new(Err("boom".to_string()));
    assert_eq!(failed.task_counts(), (0, 0));
    assert_eq!(failed.error.as_deref(), Some("boom"));
}

#[test]
fn panel_creates_and_edits_tasks() {
    let mut state = state_with(vec![sample_task("a", false, Some("2026-01-01"), "note")]);
    state.open_create_editor();
    assert!(!state.save_editor());
    assert!(state.editor.is_some());
    assert_eq!(state.editor.as_ref().unwrap().error.as_deref(), Some("请输入任务标题"));

    state.editor.as_mut().unwrap().draft.title = " new ".to_string();
    assert!(state.save_editor());
    assert!(state.editor.is_none());
    assert_eq!(state.tasks.len(), 2);
    assert_eq!(state.tasks[1].title, "new");

    state.open_edit_editor("a");
    let editor = state.editor.as_ref().unwrap();
    assert!(matches!(&editor.mode, EditorMode::Edit(id) if id == "a"));
    assert_eq!(editor.draft.due_date, "2026-01-01");
    state.editor.as_mut().unwrap().draft = TaskDraft {
        title: "renamed".to_string(),
        note: String::new(),
        due_date: "bad".to_string(),
    };
    assert!(!state.save_editor());
    assert_eq!(state.editor.as_ref().unwrap().error.as_deref(), Some("日期格式必须是 YYYY-MM-DD"));
    state.editor.as_mut().unwrap().draft.due_date = String::new();
    assert!(state.save_editor());
    assert_eq!(state.tasks[0].title, "renamed");
    assert_eq!(state.tasks[0].id, "a");

    state.open_edit_editor("missing");
    assert!(state.editor.is_none());
    state.close_editor();
    assert!(!state.save_editor());
}

#[test]
fn panel_toggles_and_deletes() {
    let mut state = state_with(vec![
        sample_task("a", false, None, ""),
        sample_task("b", false, None, ""),
        sample_task("a", true, None, ""),
    ]);
    assert!(state.toggle_task("b", true));
    assert!(state.tasks[1].done);
    assert_ne!(state.tasks[1].updated_at, "2026-05-31T00:00:00.000Z");
    assert!(!state.toggle_task("zzz", true));

    state.set_done_at(0, true, "then".to_string());
    assert!(state.tasks[0].done);
    assert_eq!(state.tasks[0].updated_at, "then");

    assert!(!state.confirm_delete());
    state.request_delete("a".to_string());
    state.cancel_delete();
    assert!(state.delete_candidate.is_none());
    state.request_delete("a".to_string());
    assert!(state.confirm_delete());
    assert_eq!(state.tasks.len(), 1);
    assert_eq!(state.tasks[0].id, "b");
    assert!(state.delete_candidate.is_none());

    assert!(state.toggle_always_on_top());
    assert!(!state.toggle_always_on_top());
}

#[test]
fn panel_takes_persist_outcome() {
    let mut state = state_with(vec![sample_task("a", false, None, "")]);
    state.finish_persist(Err("disk full".to_string()));
    assert_eq!(state.error.as_deref(), Some("disk full"));
    assert_eq!(state.tasks.len(), 1);
    state.finish_persist(Ok(TaskStore { version: 1, tasks: Vec::new() }));
    assert!(state.error.is_none());
    assert!(state.tasks.is_empty());
}

#[test]
fn row_clicks_pick_one_action() {
    let task = sample_task("r", false, None, "");
    assert!(row_action(&task, false, false, false).is_none());
    assert!(matches!(row_action(&task, true, false, false), Some(RowAction::Toggle(id, true)) if id == "r"));
    assert!(matches!(row_action(&task, true, true, false), Some(RowAction::Delete(id)) if id == "r"));
    assert!(matches!(row_action(&task, true, true, true), Some(RowAction::Edit(id)) if id == "r"));
}

#[test]
fn dialog_buttons_pick_one_choice() {
    assert_eq!(dialog_choice(true, true, false), DialogChoice::Confirm);
    assert_eq!(dialog_choice(false, true, true), DialogChoice::Dismiss);
    assert_eq!(dialog_choice(false, false, false), DialogChoice::Dismiss);
    assert_eq!(dialog_choice(false, false, true), DialogChoice::Keep);
}
