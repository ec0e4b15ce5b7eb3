//! Scope timing: per-label invocation counts and elapsed-time totals.
//!
//! A [`TimeIt`] marks the start of a measured region; recording it into a
//! [`TimeDB`] registry adds one invocation and the elapsed nanoseconds to the
//! label's [`InvocationTracking`]. A [`TimeFileSave`] names the file that a
//! snapshot of the registry is written to, one line per label.
pub mod registry;
pub mod save;
pub mod text;
pub mod timer;
pub mod tracking;

pub use registry::TimeDB;
pub use save::TimeFileSave;
pub use timer::TimeIt;
pub use tracking::InvocationTracking;
