//! The readiness probe: bounded-sleep polling of the app container, with a
//! ceiling of sixty seconds of sleeping before failure is declared. A
//! crashed container is told apart from a slow one, and any HTTP status
//! code above zero counts as responsive — correctness is the verifier's
//! job, not the probe's.

use vstd::prelude::*;

use crate::error::{ToolsetError, ToolsetResult};

verus! {

/// What one probe tick saw: the inspected `running` flag, and the HTTP
/// status of the one-second attempt (`None` when nothing answered).
#[derive(Clone, Copy, Debug, PartialEq, Eq, Structural)]
pub struct ProbeObservation {
    pub running: bool,
    pub response_code: Option<u32>,
}

/// The decision a single tick reaches.
#[derive(Clone, Copy, Debug, PartialEq, Eq, Structural)]
pub enum ProbeTick {
    Crashed,
    TimedOut,
    Accepted,
    SleepRetry,
}

/// The decision of tick number `slept_for` on observation `o`: a container
/// no longer running has crashed, whatever the clock says; past sixty
/// sleeps the probe gives up; any status code above zero is acceptance;
/// otherwise sleep and retry.
pub open spec fn spec_tick(slept_for: u32, o: ProbeObservation) -> ProbeTick {
    if !o.running {
        ProbeTick::Crashed
    } else if slept_for > 60 {
        ProbeTick::TimedOut
    } else if o.response_code matches Some(c) && c > 0 {
        ProbeTick::Accepted
    } else {
        ProbeTick::SleepRetry
    }
}

pub fn probe_tick(slept_for: u32, running: bool, response_code: Option<u32>) -> (r: ProbeTick)
    ensures
        r == spec_tick(slept_for, ProbeObservation { running, response_code }),
{
    if !running {
        ProbeTick::Crashed
    } else if slept_for > 60 {
        ProbeTick::TimedOut
    } else {
        match response_code {
            Some(c) => if c > 0 {
                ProbeTick::Accepted
            } else {
                ProbeTick::SleepRetry
            },
            None => ProbeTick::SleepRetry,
        }
    }
}

/// Runs the probe over the ticks' observations, in order, and returns the
/// outcome together with the number of the deciding tick. The probe never
/// sleeps beyond sixty seconds plus one tick: the deciding tick is at most
/// sixty-one, however many observations follow.
pub fn run_probe(observations: &Vec<ProbeObservation>) -> (r: (ToolsetResult<()>, usize))
    requires
        observations@.len() >= 62,
    ensures
        r.1 <= 61,
        r.1 < observations@.len(),
        forall|j: int|
            0 <= j < r.1 ==> spec_tick(j as u32, observations@[j]) == ProbeTick::SleepRetry,
        match r.0 {
            Ok(u) => spec_tick(r.1 as u32, observations@[r.1 as int]) == ProbeTick::Accepted,
            Err(e) => {
                let t = spec_tick(r.1 as u32, observations@[r.1 as int]);
                (t == ProbeTick::Crashed && (e
                    matches ToolsetError::AppServerContainerShutDownError)) || (t
                    == ProbeTick::TimedOut && (e
                    matches ToolsetError::NoResponseFromDockerContainerError))
            },
        },
{
    let mut slept_for: usize = 0;
    loop
        invariant
            observations@.len() >= 62,
            0 <= slept_for <= 61,
            forall|j: int|
                0 <= j < slept_for ==> spec_tick(j as u32, observations@[j])
                    == ProbeTick::SleepRetry,
        decreases 62 - slept_for,
    {
        let o = observations[slept_for];
        let t = probe_tick(slept_for as u32, o.running, o.response_code);
        match t {
            ProbeTick::Crashed => {
                return (Err(ToolsetError::AppServerContainerShutDownError), slept_for);
            },
            ProbeTick::TimedOut => {
                return (Err(ToolsetError::NoResponseFromDockerContainerError), slept_for);
            },
            ProbeTick::Accepted => {
                return (Ok(()), slept_for);
            },
            ProbeTick::SleepRetry => {
                slept_for = slept_for + 1;
            },
        }
    }
}

/// The URL the probe hits: the first endpoint of the test, on `localhost`
/// when the server host is the in-network alias `tfb-server` (single-machine
/// operation), on the configured server host otherwise.
pub fn probe_url(server_host: &str, host_port: &str, endpoint: &str) -> (r: String)
    ensures
        server_host@ == "tfb-server"@ ==> r@ == "http://localhost:"@ + host_port@ + endpoint@,
        server_host@ != "tfb-server"@ ==> r@ == "http://"@ + server_host@ + ":"@ + host_port@
            + endpoint@,
{
    if crate::text::str_eq(server_host, "tfb-server") {
        let mut s = String::from_str("http://localhost:");
        s.append(host_port);
        s.append(endpoint);
        proof {
            assert(s@ =~= "http://localhost:"@ + host_port@ + endpoint@);
        }
        s
    } else {
        let mut s = String::from_str("http://");
        s.append(server_host);
        s.append(":");
        s.append(host_port);
        s.append(endpoint);
        proof {
            assert(s@ =~= "http://"@ + server_host@ + ":"@ + host_port@ + endpoint@);
        }
        s
    }
}

} // verus!
