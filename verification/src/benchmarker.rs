//! The orchestration engine: per-test sequencing, the shared lifecycle
//! trackers, and the shutdown path that guarantees no stray containers.

pub mod modes;

use vstd::prelude::*;

use crate::config::{Project, Test};
use crate::docker::container::stop_docker_container_future;
use crate::docker::docker_config::DockerConfig;
use crate::docker::{spec_drain, BenchmarkCommands, DockerContainerIdFuture, TrackerView};
use crate::text::lower_of;

verus! {

/// What the verifier container is asked to do.
#[derive(Clone, Copy, Debug, PartialEq, Eq, Structural)]
pub enum Mode {
    Verify,
    Benchmark,
}

/// Drives the Docker orchestration of one run: builds and starts each
/// test's containers, keeps the four per-role lifecycle trackers that the
/// shutdown path drains, and sequences verification and benchmarking.
#[derive(Clone, Debug)]
pub struct Benchmarker {
    pub docker_config: DockerConfig,
    pub projects: Vec<Project>,
    pub application_container_id: DockerContainerIdFuture,
    pub database_container_id: DockerContainerIdFuture,
    pub verifier_container_id: DockerContainerIdFuture,
    pub benchmarker_container_id: DockerContainerIdFuture,
}

/// What draining a tracker kills: the registered container, on the
/// tracker's own Docker host.
pub open spec fn kill_of(t: TrackerView) -> Option<(Seq<char>, Seq<char>)> {
    match spec_drain(t).1 {
        Some(id) => Some((t.docker_host, id)),
        None => None,
    }
}

impl Benchmarker {
    pub fn new(docker_config: DockerConfig, projects: Vec<Project>) -> (r: Self)
        ensures
            r.application_container_id@.is_idle(),
            r.application_container_id@.docker_host == docker_config.server_docker_host@,
            r.database_container_id@.is_idle(),
            r.database_container_id@.docker_host == docker_config.database_docker_host@,
            r.verifier_container_id@.is_idle(),
            r.verifier_container_id@.docker_host == docker_config.client_docker_host@,
            r.benchmarker_container_id@.is_idle(),
            r.benchmarker_container_id@.docker_host == docker_config.client_docker_host@,
            r.docker_config == docker_config,
            r.projects == projects,
    {
        let application_container_id = DockerContainerIdFuture::new(
            docker_config.server_docker_host.as_str(),
        );
        let database_container_id = DockerContainerIdFuture::new(
            docker_config.database_docker_host.as_str(),
        );
        let verifier_container_id = DockerContainerIdFuture::new(
            docker_config.client_docker_host.as_str(),
        );
        let benchmarker_container_id = DockerContainerIdFuture::new(
            docker_config.client_docker_host.as_str(),
        );
        Benchmarker {
            docker_config,
            projects,
            application_container_id,
            database_container_id,
            verifier_container_id,
            benchmarker_container_id,
        }
    }

    /// Teardown, in reverse dependency order: load generator first, then
    /// verifier, then application, then database. Each tracker is drained —
    /// its registered container, if any, handed back to be killed on that
    /// tracker's host, exactly once — and left idle. Teardown runs
    /// unconditionally, on success, failure and interrupt alike.
    pub fn stop_containers(&mut self) -> (kills: Vec<Option<(String, String)>>)
        requires
            old(self).benchmarker_container_id.spec_ready(),
            old(self).verifier_container_id.spec_ready(),
            old(self).application_container_id.spec_ready(),
            old(self).database_container_id.spec_ready(),
        ensures
            kills.deep_view() =~= seq![
                kill_of(old(self).benchmarker_container_id@),
                kill_of(old(self).verifier_container_id@),
                kill_of(old(self).application_container_id@),
                kill_of(old(self).database_container_id@),
            ],
            final(self).benchmarker_container_id@ == spec_drain(
                old(self).benchmarker_container_id@,
            ).0,
            final(self).verifier_container_id@ == spec_drain(
                old(self).verifier_container_id@,
            ).0,
            final(self).application_container_id@ == spec_drain(
                old(self).application_container_id@,
            ).0,
            final(self).database_container_id@ == spec_drain(
                old(self).database_container_id@,
            ).0,
            final(self).docker_config == old(self).docker_config,
            final(self).projects == old(self).projects,
    {
        let mut kills: Vec<Option<(String, String)>> = Vec::new();
        let host = self.benchmarker_container_id.docker_host.clone();
        let k = stop_docker_container_future(&mut self.benchmarker_container_id);
        kills.push(
            match k {
                Some(id) => Some((host, id)),
                None => None,
            },
        );
        let host = self.verifier_container_id.docker_host.clone();
        let k = stop_docker_container_future(&mut self.verifier_container_id);
        kills.push(
            match k {
                Some(id) => Some((host, id)),
                None => None,
            },
        );
        let host = self.application_container_id.docker_host.clone();
        let k = stop_docker_container_future(&mut self.application_container_id);
        kills.push(
            match k {
                Some(id) => Some((host, id)),
                None => None,
            },
        );
        let host = self.database_container_id.docker_host.clone();
        let k = stop_docker_container_future(&mut self.database_container_id);
        kills.push(
            match k {
                Some(id) => Some((host, id)),
                None => None,
            },
        );
        kills
    }
}

/// The image that backs a database kind: the published database image under
/// the kind's lowercased name.
pub fn database_image_name(database: &str) -> (r: String)
    ensures
        r@ == "techempower/tfb.database."@ + lower_of(database@),
{
    let mut s = String::from_str("techempower/tfb.database.");
    let lower = crate::text::lowercase(database);
    s.append(lower.as_str());
    s
}

/// The Dockerfile a test builds from: its configured one, or its name with
/// the `.dockerfile` suffix.
pub fn dockerfile_name(test: &Test) -> (r: String)
    ensures
        match test.dockerfile {
            Some(d) => r@ == d@,
            None => match test.name {
                Some(n) => r@ == n@ + ".dockerfile"@,
                None => r@ == ".dockerfile"@,
            },
        },
{
    match &test.dockerfile {
        Some(d) => d.clone(),
        None => {
            let mut s = match &test.name {
                Some(n) => n.clone(),
                None => String::new(),
            };
            s.append(".dockerfile");
            proof {
                if test.name is Some {
                    assert(s@ =~= test.name->Some_0@ + ".dockerfile"@);
                } else {
                    assert(s@ =~= ".dockerfile"@);
                }
            }
            s
        },
    }
}

/// The load-generator run plan for one test type: first the primer and the
/// warmup, whose results are discarded, then the measured benchmark
/// commands, in order — only their results are retained.
pub fn benchmark_run_plan(commands: &BenchmarkCommands) -> (r: (
    Vec<Vec<String>>,
    Vec<Vec<String>>,
))
    ensures
        r.0.deep_view() =~= seq![
            commands.primer_command.deep_view(),
            commands.warmup_command.deep_view(),
        ],
        r.1.deep_view() == commands.benchmark_commands.deep_view(),
{
    let mut warmups: Vec<Vec<String>> = Vec::new();
    warmups.push(commands.primer_command.clone());
    warmups.push(commands.warmup_command.clone());
    (warmups, commands.benchmark_commands.clone())
}

} // verus!
