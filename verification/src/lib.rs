//! Debounced clipboard-to-paste injection.
//!
//! On a trigger, a desktop program puts a text on the system clipboard and
//! then forces a paste into whatever window has the focus, by sending that
//! window the keys of Control+V. This crate holds the decisions of that
//! operation, and proves what it states of them:
//!
//! - [`gate`] drops every invocation that comes less than half a second
//!   after the last accepted one;
//! - [`request`] lays down, for an accepted invocation, which clipboard, delay
//!   and key actions are due and in which order, whatever fails on the way;
//! - [`paste`] is the entry operation that joins the two;
//! - [`modifiers`] states what the key actions achieve, whichever modifier
//!   keys were held down before;
//! - [`tray`] decides what a click on the tray icon or its menu asks for.
//!
//! The crate touches neither the clipboard nor the keyboard, and it never
//! sleeps. A driver outside it takes one [`action::Action`] at a time from a
//! [`request::PasteRequest`], performs it, and reports the
//! [`action::Outcome`]:
//!
//! ```text
//! while let Some(action) = request.pending() {
//!     let outcome = perform(action);
//!     request.record(outcome);
//! }
//! ```

pub mod action;
pub mod clock;
pub mod gate;
pub mod modifiers;
pub mod paste;
pub mod request;
pub mod tray;
