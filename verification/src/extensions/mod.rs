//! Extension platform: manifests, content scripts, browser actions,
//! permissions and runtime messaging.
pub mod permissions;
pub mod action;
pub mod content;
pub mod messaging;
pub mod manifest;
pub mod loader;
