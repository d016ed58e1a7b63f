//! Snowflake-style unique id generation.
//!
//! A 63-bit id packs a millisecond timestamp, a node identifier and a
//! per-millisecond sequence counter into one unsigned word (the top bit of the
//! 64-bit word is left unused for sign safety):
//!
//! ```text
//! +--------------------------------------------------------------------------+
//! | 1 Bit Unused | 42 Bit Timestamp |  11 Bit NodeID  |   10 Bit Sequence ID |
//! +--------------------------------------------------------------------------+
//! ```
//!
//! [`Config`] fixes the widths of the fields and [`Generator`] issues the ids.
//! A `Generator` is a single-owner state machine: it is not safe for
//! concurrent calls without external mutual exclusion.

mod config;
mod generator;

pub use config::Config;
pub use config::ConfigError;
pub use config::Summary;
pub use config::MILLISECONDS_IN_YEAR;
pub use config::MIN_SEQUENCE_ID_BIT_COUNT;
pub use config::UID_BIT_COUNT;
pub use generator::Generator;
