//! Verified core of a rollup node: the state tree as the node uses it, the metrics of its JSON-RPC
//! server, and the status rules of its second-factor proof jobs.

#![allow(unused_imports)]

pub mod api;
pub mod decimal;
pub mod sgx_job_laws;
pub mod sgx_jobs;
pub mod tree;
pub mod types;
