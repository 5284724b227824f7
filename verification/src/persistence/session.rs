//! A conversation session.
use vstd::prelude::*;

verus! {

/// A conversation session, before or after it is stored.
#[derive(Debug, Clone)]
pub struct Session {
    pub id: Option<i64>,
    pub started_at: i64,
    pub ended_at: Option<i64>,
    pub summary: Option<String>,
}

} // verus!
