//! Global key capture for push-to-talk.
//!
//! The app detects no hotkeys of its own: it is fed a stream of `KeypressEvent` frames and matches
//! them against the shortcuts in its settings. This library decides everything about that stream:
//! which backend captures keys in a session ([`session`]), which chord the settings bind to
//! push-to-talk ([`config`]), how the chord is bound with the GlobalShortcuts portal ([`portal`], [`portal_bind`],
//! [`portal_call`]),
//! and which frames the portal's signals turn into ([`portal_loop`], [`keypress`]). It does no
//! input or output: it is told what happened and says what to do.

pub mod config;
pub mod held;
pub mod json;
pub mod keypress;
pub mod number;
pub mod portal;
pub mod portal_bind;
pub mod portal_call;
pub mod portal_loop;
pub mod session;
pub mod text;
