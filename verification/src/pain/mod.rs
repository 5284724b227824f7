//! Computational pain: its sources, the reasoning patterns behind it, event
//! identifiers and suggested structural fixes.
pub mod event;
pub mod tracker;
