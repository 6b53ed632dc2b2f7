//! Debouncing buffer: items submitted in a burst are held back and handed on
//! as one batch once no item has arrived for a cooldown period.

pub mod controller;
pub mod deadline;
pub mod debouncer;
pub mod engine;
pub mod laws;
pub mod timeline;
