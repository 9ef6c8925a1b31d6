//! Interface-name pinning, queued-configuration scheduling and route-merge
//! logic of a declarative network-configuration service.
//!
//! Everything here works on plain values: the live network state, the
//! contents of the link folder and the outcome of each apply attempt are
//! handed in by the caller, and every change to be made on disk is handed
//! back as data.
mod text;

pub mod model;
pub mod link;
pub mod identity;
pub mod persist;
pub mod route;
pub mod service;
