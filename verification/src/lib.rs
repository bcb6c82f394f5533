//! Locates a time-sensitive authorization URL inside a game client's log
//! files.  The library holds the verified core of that search: the log-line
//! grammar, the timestamp model, last-match-wins extraction, candidate-root
//! discovery rules, path deduplication, and the ranking / expiry decision.
//! The surrounding application performs the registry, filesystem and
//! clipboard work and feeds the results through these functions.
pub mod clock;
pub mod discover;
pub mod extract;
pub mod pipeline;
pub mod rank;
pub mod text;
pub mod timestamp;
