//! An interactive task-list manager's core: tasks with one level of
//! subtasks, a modal input state machine, flat-cursor index mapping over
//! the expandable list, containment search, criterion sorts, a single-step
//! undo buffer, and a persisted text layout with a proven round trip.

pub mod codec;
pub mod input;
pub mod mapper;
pub mod search;
pub mod session;
pub mod sort;
pub mod store;
pub mod todo;
