//! The names of the orchestrator's execution modes, as the command line
//! spells them.

use vstd::prelude::*;

verus! {

pub const BENCHMARK: &'static str = "benchmark";

pub const VERIFY: &'static str = "verify";

pub const CICD: &'static str = "cicd";

pub const DEBUG: &'static str = "debug";

} // verus!
