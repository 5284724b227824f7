//! Star: a reasoning system's verified core — logic, proof templates,
//! metacognitive intents, bounded abstraction search and shadow-only kernels.
use vstd::prelude::*;

pub mod text;
pub mod math;
pub mod digest;
pub mod json;
pub mod combinatorics;
pub mod atom;
pub mod multistep_abstraction_reuse;
pub mod omega_v1_live_bridge;
pub mod omega_v1_semantic_plan;
pub mod omega_v1_voice_baseline;
pub mod omega_g2_shadow;
pub mod omega_v1f2_shadow;
pub mod omega_v1f2_shadow_bridge;
pub mod persistence;
pub mod metacog;
pub mod multimodal;
pub mod llm;
pub mod neural;
pub mod pain;
pub mod learning;
pub mod omega_v1f1_projection_guard;

verus! {

/// The system clock's time type, carried through unread.
#[verifier::external_type_specification]
#[verifier::external_body]
pub struct ExSystemTime(std::time::SystemTime);

/// The error of a clock reading before the reference time, carried through
/// unread.
#[verifier::external_type_specification]
#[verifier::external_body]
pub struct ExSystemTimeError(std::time::SystemTimeError);

/// Calls `SystemTime::now`. Nothing is stated of the reading: it depends on
/// the machine's clock.
#[verifier::external_body]
fn system_now() -> std::time::SystemTime {
    std::time::SystemTime::now()
}

/// Calls `SystemTime::duration_since` with `UNIX_EPOCH`: the time elapsed
/// since the epoch, or an error for a reading before it. Nothing is stated
/// of which comes back: it depends on the reading.
#[verifier::external_body]
fn since_unix_epoch(t: &std::time::SystemTime) -> std::result::Result<
    std::time::Duration,
    std::time::SystemTimeError,
> {
    t.duration_since(std::time::UNIX_EPOCH)
}

/// Calls `Duration::as_secs`: the whole seconds of a duration. Nothing is
/// stated of it, as Verus sees nothing inside a `Duration`.
#[verifier::external_body]
fn whole_seconds(d: &std::time::Duration) -> u64 {
    d.as_secs()
}

/// Calls `Duration::as_nanos`: the whole nanoseconds of a duration. Nothing
/// is stated of it, as Verus sees nothing inside a `Duration`.
#[verifier::external_body]
pub(crate) fn whole_nanos(d: &std::time::Duration) -> u128 {
    d.as_nanos()
}

/// The time elapsed since the Unix epoch by the system clock, or `None` for
/// a clock set before the epoch.
pub(crate) fn time_since_epoch() -> (r: Option<std::time::Duration>) {
    match since_unix_epoch(&system_now()) {
        Ok(d) => Some(d),
        Err(_) => None,
    }
}

/// The current time in whole seconds since the Unix epoch, as a signed
/// count (a count beyond `i64::MAX` wraps, as a cast does). A clock set
/// before the epoch reads as 0.
pub fn now_timestamp() -> i64 {
    match time_since_epoch() {
        Some(d) => whole_seconds(&d) as i64,
        None => 0,
    }
}

} // verus!
