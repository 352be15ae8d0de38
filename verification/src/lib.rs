//! Byte-oriented platform strings for targets without an operating-system
//! string runtime: an owned, growable byte string and its borrowed view,
//! lossy UTF-8 decoding, and an escaped rendering for diagnostics.
mod alloc_calls;
pub mod encoding;
pub mod inner;
pub mod lossy;
pub mod os_str;
pub mod sys_common;
mod text;

pub use os_str::{ArcOsStr, AsOsStr, BoxedOsStr, CowOsStr, OsStr, OsString, RcOsStr};
