//! The public facade of the shadow observer: the same typed events, response
//! fingerprints and closed authority as the observer itself, and the switch
//! that turns the shadow path on. Neither the observer nor the facade sees
//! response text or gains authority over the finalised response.
use vstd::prelude::*;
pub use crate::omega_v1f2_shadow::{
    authority_boundary, event_from_intent, PendingShadowEvent, ResponseFingerprint,
    ShadowAuthorityBoundary, ShadowError, ShadowIneligibility, ShadowInputBundle, ShadowIntent,
    ShadowLedgerRecord, ShadowProbeReport, F2_AUTHORITY_MATRIX_VERSION, F2_IMPLEMENTATION_VERSION,
    SHADOW_P95_TARGET_MS, SHADOW_TIMEOUT_MS,
};
use crate::omega_v1f2_shadow::{shadow_flag_enabled, shadow_flag_on};

verus! {

/// Whether the shadow path is on, given the value of its switch (unset:
/// `None`). Only the observer's own switch exists here, so the facade is on
/// exactly when the observer is.
pub fn shadow_enabled(switch_value: Option<&str>) -> (b: bool)
    ensures
        b == shadow_flag_on(match switch_value {
            Some(v) => Some(v@),
            None => None,
        }),
{
    shadow_flag_enabled(switch_value)
}

} // verus!
