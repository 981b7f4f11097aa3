//! Endpoint policy agent core: violation detection, frame encoding and the
//! live streaming session, with machine-checked contracts.

pub mod capture;
pub mod clock;
pub mod codec;
pub mod config;
pub mod control;
pub mod json;
pub mod models;
pub mod monitor;
pub mod scan_laws;
pub mod store;
pub mod stream;
pub mod stream_laws;
pub mod text;
