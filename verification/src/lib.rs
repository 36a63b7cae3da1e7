//! Local task records: the rules for tasks, due dates, ordering and the
//! stored task list, with the decisions of the task panel.

pub mod text;
pub mod date;
pub mod clock;
pub mod task;
pub mod order;
pub mod store;
pub mod panel;
pub mod look;
