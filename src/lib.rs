//! Calendar-to-prompt library: credential lifecycle decisions, the day-bucketing
//! engine for calendar events, and the request state machine of the stdio
//! protocol server.

pub mod date;
pub mod model;
pub mod timeline;
pub mod aggregate;
pub mod auth;
pub mod mcp;
pub mod cli;
pub mod paths;
pub mod template;
pub mod config;
pub mod redirect;
