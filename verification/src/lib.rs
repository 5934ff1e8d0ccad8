//! Orchestration core for a framework-benchmarking toolset.
//!
//! The library drives, for each framework under test, a Docker choreography
//! across up to three Engine endpoints: build and start an application
//! container, optionally start a backing database container, probe until the
//! application responds, run a verifier container against the configured
//! endpoints and, when benchmarking, run a load generator whose textual
//! report is parsed into structured metrics.
//!
//! Everything that decides or computes lives here, verified: the lifecycle
//! tracker state machine, the readiness probe, port resolution, the streamed
//! listeners and the load-generator report parser. The surrounding process
//! (argument handling, HTTP transport, the file system) drives these
//! functions from outside.

pub mod benchmarker;
pub mod config;
pub mod docker;
pub mod error;
pub mod io;
pub mod results;
pub mod text;
