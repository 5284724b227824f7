//! Persistence-layer data: memory domains and belief states, memory tiers,
//! sessions, snapshot counters, the self-model's plain records and the guard
//! over core identity claims.
pub mod companion;
pub mod identity;
pub mod identity_guard;
pub mod memory;
pub mod session;
pub mod store;
pub mod tiers;
