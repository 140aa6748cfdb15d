//! Verified core of a video-compression engine.
//!
//! The library translates user-facing compression options into an ordered
//! list of encoder command-line arguments and a filter-graph string, parses
//! the encoder's diagnostic and progress streams, computes preview seek
//! points, and models the lifecycle of a spawned encoder process as a state
//! machine with cancellation. All process spawning, stream I/O and event
//! plumbing live outside the library; callers feed plain values in and act
//! on the plans and decisions the library returns.

pub mod builder;
pub mod filters;
pub mod jobs;
pub mod options;
pub mod paths;
pub mod preview;
pub mod probe;
pub mod progress;
pub mod scan;
pub mod supervisor;
pub mod text;
pub mod timecode;
