//! Update orchestration for a picture-of-the-day wallpaper agent.
//!
//! The library owns the logic that decides when and how the desktop
//! wallpaper is refreshed from a remote feed: parsing the feed's metadata
//! document, deduplicating identifiers so an unchanged picture is never
//! downloaded twice, sequencing one fetch -> dedup -> download -> apply
//! attempt, and driving attempts on a fixed interval with skip-on-miss
//! semantics. All network, file and OS work is performed by the caller,
//! which feeds each step's result back into these state machines.

pub mod coordinator;
pub mod dedup;
pub mod feed;
pub mod schedule;
