//! A futures-aware read-write lock layer that stamps a fresh version tag on
//! every exclusive release, and initializes an absent value exactly once.

pub mod contention;
pub mod init;
pub mod set_tag;
pub mod tag;
pub mod tagged;
pub mod untagged;

pub use crate::init::{InitAction, InitEvent, InitPhase, ReadOrInit, WriteOrInit};
pub use crate::set_tag::SetTag;
pub use crate::tag::{TagCounter, VersionTag};
pub use crate::tagged::Tagged;
pub use crate::untagged::Untagged;
