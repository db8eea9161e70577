//! Property-based testing engine with a verified core.
//!
//! A user predicate draws named values from a context; the driver runs it
//! many times with pseudo-random inputs, and when a counterexample appears
//! it re-runs the predicate to record the drawn values and then shrinks
//! them to a minimal failing case before reporting.
//!
//! The engine has three phases. In the testing phase values come straight
//! from the random number generator. After a failure the same random stream
//! is replayed in the recording phase, which logs every drawn value together
//! with its reducer. The shrinking phase then replays the log, substituting
//! candidate reductions one entry at a time and keeping every candidate for
//! which the predicate still fails.

pub mod context;
pub mod driver;
pub mod generators;
pub mod laws;
pub mod record;
pub mod rng;
pub mod shrink;
pub mod text;
pub mod value;

pub use context::Maat;
pub use context::MaatV;
pub use context::Phase;
pub use context::UsageError;
pub use context::UsageErrorV;
pub use driver::property;
pub use driver::property_cfg;
pub use driver::Config;
pub use driver::Report;
pub use generators::alphanumeric;
pub use generators::placeholder;
pub use generators::string;
pub use generators::string_alphanumeric;
pub use generators::uniform_i64;
pub use generators::uniform_usize;
pub use generators::vec_of;
pub use generators::Generator;
pub use generators::Plan;
pub use record::Entry;
pub use record::LogEntry;
pub use record::Shrinkable;
pub use value::Kind;
pub use value::Value;
pub use value::ValueV;
