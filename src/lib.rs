//! Classification and routing of sensor telemetry messages.
pub mod json;
pub mod number;
pub mod fields;
pub mod sensors;
pub mod connection;
pub mod store;
pub mod laws;
