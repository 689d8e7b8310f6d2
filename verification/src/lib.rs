//! Verified core logic of the Vex browser shell.
use vstd::prelude::*;

pub mod abort_controller;
pub mod assoc;
pub mod bookmarks;
pub mod broadcast;
pub mod clipboard;
pub mod devtools;
pub mod downloads;
pub mod drag_drop;
pub mod embedder;
pub mod text;
pub mod units;
pub mod extensions;
pub mod history;
pub mod node;
pub mod shell;
pub mod order;
pub mod encoding;
pub mod error_pages;
pub mod event_handler;
pub mod event_source;
pub mod fetch_api;
pub mod find;
pub mod forms;
pub mod fullscreen;
pub mod gamepad;
pub mod geolocation;

verus! {
} // verus!
