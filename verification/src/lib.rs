//! Watches a game-client chat log for "who is online" announcements,
//! resolves the announced player names to stable identifiers, and enriches
//! each identifier with gameplay statistics, producing per-player reports.
//!
//! The crate holds the verified core: the experience-to-level formula, the
//! log-tail event detector with duplicate suppression, the batched/fallback
//! identity-resolution protocol, the statistics-response mapping, and the
//! enrichment orchestration. Network and file-system plumbing live outside
//! the library and drive these components with plain values.

pub mod detector;
pub mod hypixel;
pub mod level;
pub mod orchestrator;
pub mod resolver;
pub mod text;
