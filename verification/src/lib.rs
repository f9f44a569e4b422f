//! Panoptes: file integrity monitoring and access auditing building blocks.
//!
//! The crate holds the decision logic of the monitoring daemons: container
//! runtime resolution, `/proc` record parsing, environment and capability
//! checks, stream filtering, metrics and session bookkeeping, inotify event
//! correlation, and the pure computations of the kernel-side event probes.
pub mod assoc;
pub mod stream_filter;
pub mod ebpf;
pub mod ebpf_types;
pub mod environment;
pub mod glog;
pub mod capabilities;
pub mod errors;
pub mod kernel;
pub mod limits;
pub mod metrics;
pub mod notify;
pub mod pathname;
pub mod paths;
pub mod procfs;
pub mod runtime;
pub mod service;
pub mod service_v1;
pub mod session;
pub mod startup;
pub mod text;
pub mod timing;

use vstd::prelude::*;

verus! {

} // verus!
