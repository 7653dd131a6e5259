//! A small registry of user-submitted records ("memes") with per-identity
//! up-votes.
//!
//! Identified callers submit records (a title of at most 100 characters and a
//! non-empty url), cast at most one up-vote per record each, and query the
//! records by insertion order or by popularity rank. The registry itself is
//! the whole library: its state transitions and queries are specified and
//! verified here. Caller identity is supplied per call, and the notification
//! values that a host may forward to observers are plain data types; wiring
//! them to an actual event channel is the host's business.

pub mod laws;
pub mod registry;
pub mod types;

pub use registry::MemeVote;
pub use types::AccountId;
pub use types::Error;
pub use types::Meme;
pub use types::MemeAdded;
pub use types::MemeModel;
pub use types::Voted;
