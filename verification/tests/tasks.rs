use record_native::date::{is_leap_year, is_valid_due_date, month_length};
use record_native::order::{comes_before, due_date_key, sort_tasks};
use record_native::task::{
    create_task, new_task_id, normalize_due_date, revise_task, task_from_draft, task_id_at,
    task_id_from_nanos,
    update_task, Task, TaskDraft,
};

fn sample_task(id: &str, done: bool, due_date: Option<&str>, created_at: &str) -> Task {
    Task {
        id: id.to_string(),
        title: format!("Task {id}"),
        note: "A small note".to_string(),
        due_date: due_date.map(str::to_string),
        done,
        created_at: created_at.to_string(),
        updated_at: created_at.to_string(),
    }
}

fn draft(title: &str, note: &str, due_date: &str) -> TaskDraft {
    TaskDraft { title: title.to_string(), note: note.to_string(), due_date: due_date.to_string() }
}

#[test]
fn validates_local_yyyy_mm_dd_dates() {
    assert!(is_valid_due_date("2026-05-31"));
    assert!(is_valid_due_date("2024-02-29"));
    assert!(!is_valid_due_date("2026-2-03"));
    assert!(!is_valid_due_date("2026-02-29"));
    assert!(!is_valid_due_date("2026-13-01"));
    assert!(!is_valid_due_date("0000-01-01"));
}

#[test]
fn due_date_edge_cases() {
    assert!(is_valid_due_date("2000-02-29"));
    assert!(!is_valid_due_date("1900-02-29"));
    assert!(is_valid_due_date("0001-01-01"));
    assert!(is_valid_due_date("9999-12-31"));
    assert!(!is_valid_due_date("2026-04-31"));
    assert!(is_valid_due_date("2026-04-30"));
    assert!(!is_valid_due_date("2026-00-10"));
    assert!(!is_valid_due_date("2026-01-00"));
    assert!(!is_valid_due_date("2026-01-32"));
    assert!(!is_valid_due_date("2026/01/01"));
    assert!(!is_valid_due_date("2026-01-01 "));
    assert!(!is_valid_due_date("２026-01-01"));
    assert!(!is_valid_due_date(""));
    assert!(!is_valid_due_date("+026-01-01"));
}

#[test]
fn calendar_rules() {
    assert!(is_leap_year(2024));
    assert!(is_leap_year(2000));
    assert!(!is_leap_year(1900));
    assert!(!is_leap_year(2026));
    assert_eq!(month_length(2024, 2), 29);
    assert_eq!(month_length(2023, 2), 28);
    assert_eq!(month_length(2023, 11), 30);
    assert_eq!(month_length(2023, 12), 31);
    assert_eq!(month_length(2023, 13), 0);
}

#[test]
fn sorts_open_tasks_first_then_due_date() {
    let mut tasks = vec![
        sample_task("done-a", true, None, "2026-05-31T00:00:03.000Z"),
        sample_task("open-no-date", false, None, "2026-05-31T00:00:01.000Z"),
        sample_task(
            "open-soon",
            false,
            Some("2026-06-01"),
            "2026-05-31T00:00:02.000Z",
        ),
        sample_task(
            "done-soon",
            true,
            Some("2026-06-01"),
            "2026-05-31T00:00:04.000Z",
        ),
    ];

    sort_tasks(&mut tasks);
    let ids = tasks
        .iter()
        .map(|task| task.id.as_str())
        .collect::<Vec<_>>();

    assert_eq!(
        ids,
        vec!["open-soon", "open-no-date", "done-soon", "done-a"]
    );
}

#[test]
fn sort_is_stable_and_matches_std() {
    let make = |i: usize| {
        let due = match i % 3 {
            0 => None,
            1 => Some("2026-01-02"),
            _ => Some("2026-01-01"),
        };
        sample_task(&format!("t{i}"), i % 2 == 0, due, if i % 4 < 2 { "a" } else { "b" })
    };
    let mut tasks: Vec<Task> = (0..40).map(make).collect();
    let mut expected = tasks.clone();
    expected.sort_by(|l, r| {
        l.done
            .cmp(&r.done)
            .then_with(|| due_date_key(l).cmp(due_date_key(r)))
            .then_with(|| l.created_at.cmp(&r.created_at))
    });
    sort_tasks(&mut tasks);
    assert_eq!(tasks, expected);
    let again = tasks.clone();
    sort_tasks(&mut tasks);
    assert_eq!(tasks, again);
}

#[test]
fn order_compares_text_like_std() {
    let a = sample_task("a", false, Some("2026-01-01"), "b");
    let b = sample_task("b", false, Some("2026-01-01"), "ab");
    assert!(comes_before(&b, &a));
    assert!(!comes_before(&a, &b));
    assert!(!comes_before(&a, &a));
    let c = sample_task("c", false, Some("é"), "z");
    let d = sample_task("d", false, Some("z"), "a");
    assert_eq!(comes_before(&d, &c), "z" < "é");
    let undated = sample_task("u", false, None, "0");
    let dated = sample_task("v", false, Some("9999-12-30"), "9");
    assert!(comes_before(&dated, &undated));
    assert_eq!(due_date_key(&undated), "9999-12-31");
}

#[test]
fn creates_task_from_trimmed_draft() {
    let task = create_task(&TaskDraft {
        title: "  写周报 ".to_string(),
        note: "  今天处理 ".to_string(),
        due_date: "2026-06-01".to_string(),
    })
    .unwrap();

    assert_eq!(task.title, "写周报");
    assert_eq!(task.note, "今天处理");
    assert_eq!(task.due_date.as_deref(), Some("2026-06-01"));
    assert!(!task.done);
}

#[test]
fn create_task_refusals_and_stamps() {
    assert_eq!(create_task(&draft("   ", "n", "")).unwrap_err(), "请输入任务标题");
    assert_eq!(create_task(&draft("t", "n", "2026-02-30")).unwrap_err(), "日期格式必须是 YYYY-MM-DD");
    let task = create_task(&draft("t", "", "  ")).unwrap();
    assert_eq!(task.due_date, None);
    assert_eq!(task.created_at, task.updated_at);
    assert!(task.id.starts_with("task-"));
    assert!(task.id["task-".len()..].chars().all(|c| c.is_ascii_hexdigit() && !c.is_ascii_uppercase()));
    assert!(!task.created_at.is_empty());
}

#[test]
fn task_from_draft_uses_given_id_and_time() {
    let task = task_from_draft(&draft(" a ", " b ", " 2026-06-01 "), "id-1".to_string(), "now".to_string())
        .unwrap();
    assert_eq!(task.id, "id-1");
    assert_eq!(task.title, "a");
    assert_eq!(task.note, "b");
    assert_eq!(task.due_date.as_deref(), Some("2026-06-01"));
    assert_eq!(task.created_at, "now");
    assert_eq!(task.updated_at, "now");
    assert!(!task.done);
}

#[test]
fn update_keeps_identity() {
    let before_edit = sample_task("keep", true, Some("2026-01-01"), "2026-05-31T00:00:00.000Z");
    let updated = update_task(&before_edit, &draft(" new ", "", "")).unwrap();
    assert_eq!(updated.id, "keep");
    assert!(updated.done);
    assert_eq!(updated.created_at, before_edit.created_at);
    assert_eq!(updated.title, "new");
    assert_eq!(updated.due_date, None);
    let revised = revise_task(&before_edit, &draft("x", "y", "2026-03-04"), "later".to_string()).unwrap();
    assert_eq!(revised.updated_at, "later");
    assert_eq!(revised.due_date.as_deref(), Some("2026-03-04"));
    assert_eq!(update_task(&before_edit, &draft("", "", "")).unwrap_err(), "请输入任务标题");
}

#[test]
fn normalize_due_date_cases() {
    assert_eq!(normalize_due_date("   "), Ok(None));
    assert_eq!(normalize_due_date(" 2026-06-01\n"), Ok(Some("2026-06-01".to_string())));
    assert_eq!(normalize_due_date("tomorrow"), Err("日期格式必须是 YYYY-MM-DD".to_string()));
}

#[test]
fn task_ids_are_lowercase_hex() {
    assert_eq!(task_id_from_nanos(0), "task-0");
    assert_eq!(task_id_from_nanos(255), "task-ff");
    assert_eq!(task_id_from_nanos(0x1a2b3c), "task-1a2b3c");
    assert_eq!(task_id_from_nanos(u128::MAX), format!("task-{:x}", u128::MAX));
    let id = new_task_id();
    assert!(id.starts_with("task-") && id.len() > 5);
}

#[test]
fn task_ids_count_nanoseconds_of_a_reading() {
    assert_eq!(task_id_at(0, 0), "task-0");
    assert_eq!(task_id_at(1, 0), format!("task-{:x}", 1_000_000_000u128));
    assert_eq!(task_id_at(2, 5), format!("task-{:x}", 2_000_000_005u128));
    let elapsed = std::time::Duration::new(1_780_000_000, 123_456_789);
    assert_eq!(
        task_id_at(elapsed.as_secs(), elapsed.subsec_nanos()),
        format!("task-{:x}", elapsed.as_nanos())
    );
    assert_eq!(
        task_id_at(u64::MAX, 999_999_999),
        format!("task-{:x}", u64::MAX as u128 * 1_000_000_000 + 999_999_999)
    );
}
