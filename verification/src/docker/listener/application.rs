//! Listener for the application container's stdout/stderr: everything is
//! log output, streamed into the per-test log.

use vstd::prelude::*;

use crate::docker::listener::{chunk_log_lines, chunk_log_of};

verus! {

#[derive(Clone, Debug)]
pub struct Application {
    pub error_message: Option<String>,
}

impl Application {
    pub fn new() -> (r: Self)
        ensures
            r.error_message is None,
    {
        Application { error_message: None }
    }

    /// One chunk of the application's output: its printable lines, for the
    /// rolling log file.
    pub fn write(&mut self, data: &[u8]) -> (r: Vec<String>)
        ensures
            *final(self) == *old(self),
            r.deep_view() == chunk_log_lines(data@),
    {
        chunk_log_of(data)
    }
}

} // verus!
