# record_native

The rules of Record, a small local task panel, as a Verus library with its
desktop program around it.

- `src/text.rs`: characters of a text, white space and trimming, the order of
  texts, numbers written in decimal and hexadecimal.
- `src/date.rs`: the calendar and due dates written as `YYYY-MM-DD`.
- `src/task.rs`: tasks, drafts, the stored list's types, task ids, creating
  and updating tasks.
- `src/order.rs`: the order of tasks and the stable sort, with its laws.
- `src/store.rs`: the check before saving, normalizing, what loading decides,
  backup names, and the laws of saving and loading.
- `src/panel.rs`: the state of the task panel, what a task row shows, and
  the action a click in a row asks for, and what a dialog's buttons choose.
- `src/look.rs`: the panel's colours and the colour choices of buttons and
  checkboxes.
- `src/clock.rs`: reading the system clock and writing a reading as an
  RFC 3339 timestamp through chrono.
- `app/`: the egui window, the JSON form of the stored list, and the file work
  (reading, writing, the backup attempts) that the library's decisions call for.
