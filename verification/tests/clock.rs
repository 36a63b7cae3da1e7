use record_native::clock::{read_clock, timestamp_at, timestamp_now, LAST_SECOND_OF_9999};
use record_native::task::{create_task, update_task, TaskDraft};

fn has_shape(s: &str) -> bool {
    let b = s.as_bytes();
    b.len() == 24
        && b.iter().enumerate().all(|(i, c)| match i {
            4 | 7 => *c == b'-',
            10 => *c == b'T',
            13 | 16 => *c == b':',
            19 => *c == b'.',
            23 => *c == b'Z',
            _ => c.is_ascii_digit(),
        })
}

#[test]
fn timestamps_of_readings() {
    assert_eq!(timestamp_at(0, 0), "1970-01-01T00:00:00.000Z");
    assert_eq!(timestamp_at(1_516_991_409, 453_829_000), "2018-01-26T18:30:09.453Z");
    assert_eq!(timestamp_at(LAST_SECOND_OF_9999, 999_999_999), "9999-12-31T23:59:59.999Z");
    assert_eq!(timestamp_at(5, 1_000_000_000), "1970-01-01T00:00:00.000Z");
    assert_eq!(timestamp_at(u64::MAX, 0), "1970-01-01T00:00:00.000Z");
}

#[test]
fn clock_readings_are_stamped_in_form() {
    let reading = read_clock().unwrap();
    assert!(reading.1 < 1_000_000_000);
    assert!(has_shape(&timestamp_now()));
    let task = create_task(&TaskDraft {
        title: "t".to_string(),
        note: String::new(),
        due_date: String::new(),
    })
    .unwrap();
    assert!(has_shape(&task.created_at));
    let edited = update_task(&task, &TaskDraft {
        title: "u".to_string(),
        note: String::new(),
        due_date: String::new(),
    })
    .unwrap();
    assert!(has_shape(&edited.updated_at));
    assert_eq!(edited.created_at, task.created_at);
}
