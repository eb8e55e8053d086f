//! The wire side of the client: values, requests and live frames.

pub mod client;
pub mod dto;
pub mod event;
pub mod field;
pub mod live;
