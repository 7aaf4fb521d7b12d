//! A reply bot core: it parses a tiny "from -> to" remodel command out of a
//! mention, deterministically simulates the timed remodel, and schedules the
//! outgoing replies through a rate-limited dispatcher.

pub mod dispatcher;
pub mod driver;
pub mod filter;
pub mod kaizo;

pub use dispatcher::TweetSpec;
pub use kaizo::Kaizo;
