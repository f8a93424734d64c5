//! The core of a package registry server.
//!
//! [`core_service`] keeps the packages and answers requests, and [`package_info`]
//! decides what becomes of the records submitted to one package. [`proof_data`]
//! keeps the transparency log over all packages and hands out proofs about it.
//! They are state machines without I/O: the program around them owns the channels
//! and the locks. What callers get is stated in [`request_laws`], [`package_laws`],
//! [`proof_request_laws`] and [`record_laws`], and what holds in the long run in
//! [`service_laws`] and [`proof_laws`].
pub mod core_service;
pub mod hash;
pub mod package_info;
pub mod package_laws;
pub mod proof_data;
pub mod proof_index;
pub mod proof_laws;
pub mod proof_log;
pub mod proof_request_laws;
pub mod protocol;
pub mod record;
pub mod record_laws;
pub mod request_laws;
pub mod service_laws;
