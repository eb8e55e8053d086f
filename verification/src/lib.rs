//! The logic of a terminal client for Matrix rooms served by Axon.

pub mod api;
pub mod app;
pub mod ids;
pub mod json;
pub mod keyed;
pub mod laws;
pub mod order;
pub mod text;
