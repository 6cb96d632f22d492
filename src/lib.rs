//! Control-plane bridge between an HTTP front end and a native workload
//! runtime: descriptor marshalling, the registry of loaded workloads, the
//! decisions taken on native return codes, and the service handle lifecycle.
pub mod text;
pub mod request;
pub mod error;
pub mod registry;
pub mod handlers;
pub mod lifecycle;
