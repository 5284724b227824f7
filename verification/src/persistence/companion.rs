//! The companion journal: its statistics, why a commit is refused, and the
//! optimistic version gate every commit passes before it is replayed.
use vstd::prelude::*;

verus! {

/// The reserved identity key under which the journal is stored.
pub const JOURNAL_KEY: &'static str = "__starfire_companion_journal_v1";

/// The journal format this code reads and writes.
pub const JOURNAL_FORMAT_VERSION: u32 = 1;

/// Versions and tail length of the companion journal.
#[derive(Debug, Clone, Copy, PartialEq, Eq)]
pub struct CompanionJournalStats {
    pub checkpoint_version: u64,
    pub current_version: u64,
    pub tail_events: usize,
    pub last_compacted_at_ms: Option<i64>,
}

/// Why a journal operation failed. Failures of the store, the serialiser and
/// the replay carry their messages.
#[derive(Debug, Clone, PartialEq, Eq)]
pub enum CompanionPersistenceError {
    Store(String),
    Serialization(String),
    Replay(String),
    LockPoisoned,
    VersionConflict { expected: u64, actual: u64 },
    TransitionVersionMismatch { expected: u64, transition: u64, state: u64 },
    StateMismatch,
    UnsupportedFormat(u32),
    VersionOverflow,
}

/// The version gate of a commit: the journal must be at the version the
/// caller expected, that version must have a successor, and both the
/// transition and the resulting state must carry the successor. On success,
/// the successor.
pub open spec fn version_gate_spec(
    current_version: u64,
    expected_version: u64,
    transition_version: u64,
    state_version: u64,
) -> Result<u64, CompanionPersistenceError> {
    if current_version != expected_version {
        Err(
            CompanionPersistenceError::VersionConflict {
                expected: expected_version,
                actual: current_version,
            },
        )
    } else if expected_version == u64::MAX {
        Err(CompanionPersistenceError::VersionOverflow)
    } else if transition_version != expected_version + 1 || state_version != expected_version + 1 {
        Err(
            CompanionPersistenceError::TransitionVersionMismatch {
                expected: (expected_version + 1) as u64,
                transition: transition_version,
                state: state_version,
            },
        )
    } else {
        Ok((expected_version + 1) as u64)
    }
}

/// The version gate of a commit against the journal's current version.
pub fn version_gate(
    current_version: u64,
    expected_version: u64,
    transition_version: u64,
    state_version: u64,
) -> (r: Result<u64, CompanionPersistenceError>)
    ensures
        r == version_gate_spec(current_version, expected_version, transition_version, state_version),
{
    if current_version != expected_version {
        return Err(
            CompanionPersistenceError::VersionConflict {
                expected: expected_version,
                actual: current_version,
            },
        );
    }
    let required = match expected_version.checked_add(1) {
        Some(v) => v,
        None => {
            return Err(CompanionPersistenceError::VersionOverflow);
        },
    };
    if transition_version != required || state_version != required {
        return Err(
            CompanionPersistenceError::TransitionVersionMismatch {
                expected: required,
                transition: transition_version,
                state: state_version,
            },
        );
    }
    Ok(required)
}

/// Whether a journal's format can be read.
pub fn format_supported(format_version: u32) -> (r: Result<(), CompanionPersistenceError>)
    ensures
        format_version == JOURNAL_FORMAT_VERSION ==> r is Ok,
        format_version != JOURNAL_FORMAT_VERSION ==> r == Err::<(), CompanionPersistenceError>(
            CompanionPersistenceError::UnsupportedFormat(format_version),
        ),
{
    if format_version != JOURNAL_FORMAT_VERSION {
        Err(CompanionPersistenceError::UnsupportedFormat(format_version))
    } else {
        Ok(())
    }
}

/// A stale commit is refused: once a commit at version `v` has passed the
/// gate, another commit that still expects `v` is a version conflict against
/// the successor, and nothing is replaced.
pub proof fn law_stale_commit_is_refused(v: u64, t: u64, s: u64, t2: u64, s2: u64)
    requires
        version_gate_spec(v, v, t, s) is Ok,
    ensures
        version_gate_spec(version_gate_spec(v, v, t, s)->Ok_0, v, t2, s2) == Err::<
            u64,
            CompanionPersistenceError,
        >(CompanionPersistenceError::VersionConflict { expected: v, actual: (v + 1) as u64 }),
{
}

} // verus!
