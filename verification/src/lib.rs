//! Inotify event-mask decoding and the Focusrite Control device-profile model.
//!
//! - [`events`]: the kinds of inotify events named by an event mask.
//! - [`compat`]: the Unix-timestamp encoding used by device profiles.
//! - [`focusrite`]: the device-profile data model.

pub mod compat;
pub mod events;
pub mod focusrite;
pub mod numerals;
