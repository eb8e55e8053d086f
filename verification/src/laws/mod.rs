//! What the client promises its user, stated over what goes in and what comes out.

pub mod listing;
pub mod resolving;
pub mod history;
pub mod timeline;
pub mod sending;
pub mod accounts;
pub mod verifying;
pub mod reading;
pub mod reacting;
pub mod drafting;
pub mod connection;
pub mod paging;
pub mod switching;
pub mod content;
pub mod texts;
pub mod choosing;
pub mod completing;
pub mod commanding;
pub mod refreshing;
pub mod keeping;
pub mod clocks;
pub mod client;
pub mod settling;
pub mod telling;
pub mod wire;
pub mod deciding;
pub mod handling;
pub mod submitting;
