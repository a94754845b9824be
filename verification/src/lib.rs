//! Verified core of a livestream-chat scraping session.
//!
//! The crate holds the session engine: parsing of inbound chat and donation
//! payloads, the bounded in-memory aggregates (per-user message counts, a
//! fixed-capacity window of recent donations, the pending message batch),
//! the top-K chatter ranking, the per-cycle dispatch decisions, the liveness
//! detection rules, and the retry policy around metrics delivery.
//!
//! Everything that touches the outside world -- driving the browser, HTTP
//! calls, signals -- lives in the surrounding application, which feeds this
//! engine plain values and acts on the decisions it returns.

pub mod breaker;
pub mod dispatcher;
pub mod events;
pub mod liveness;
pub mod metrics;
pub mod order;
pub mod ranker;
pub mod retry;
pub mod session;
pub mod status;
pub mod store;

pub use events::ChatMessage;
pub use events::RecentDonator;
pub use status::ScraperStatus;
