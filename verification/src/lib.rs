//! Run a shell command, capture its output, and notify a webhook.
//!
//! The library holds the verified logic of the tool: joining command tokens,
//! accumulating captured output lines, selecting and filling message
//! templates, deciding the webhook payload shape, and building the JSON body.
//! The surrounding process work (reading the config file, spawning the child
//! process, draining its pipes, sending the HTTP request) lives outside.

pub mod command;
pub mod config;
pub mod errors;
pub mod notify;
pub mod template;
pub mod text;
