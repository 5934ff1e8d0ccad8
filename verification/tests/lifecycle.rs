//! The lifecycle trackers, the shutdown path and the readiness probe.

use tfb_toolset::benchmarker::Benchmarker;
use tfb_toolset::docker::container::stop_docker_container_future;
use tfb_toolset::docker::docker_config::DockerConfig;
use tfb_toolset::docker::network::NetworkMode;
use tfb_toolset::docker::probe::{probe_tick, probe_url, run_probe, ProbeObservation, ProbeTick};
use tfb_toolset::docker::{DockerContainerIdFuture, PollStatus};
use tfb_toolset::error::ToolsetError;
use tfb_toolset::docker::container::application_container_spec;
use tfb_toolset::docker::listener::verifier_listener::Verifier;
use tfb_toolset::io::{verification_status, verify_succeeded, Logger, VerificationStatus};

fn test_config() -> DockerConfig {
    DockerConfig::new(
        "localhost",
        "localhost",
        "localhost",
        "tfb-server",
        "tfb-database",
        "tfb-client",
        NetworkMode::Bridge,
        "net-server",
        "net-database",
        "net-client",
        "16,32",
        "256,1024",
        "1,5",
        "1,10",
        15,
        "results",
        "test rig",
        None,
        Logger::default(),
        false,
        false,
    )
}

#[test]
fn registration_and_polling_follow_the_two_field_invariant() {
    let mut tracker = DockerContainerIdFuture::new("localhost:2375");
    assert_eq!(tracker.poll(), PollStatus::Ready);
    tracker.requires_wait_to_stop = true;
    assert_eq!(tracker.poll(), PollStatus::Pending);
    tracker.register("abc123");
    assert_eq!(tracker.poll(), PollStatus::Ready);
    tracker.unregister();
    assert_eq!(tracker.poll(), PollStatus::Ready);
    assert!(tracker.container_id.is_none());
}

#[test]
fn teardown_kills_a_registered_container_exactly_once() {
    let mut tracker = DockerContainerIdFuture::new("localhost:2375");
    tracker.register("abc123def456");
    let first = stop_docker_container_future(&mut tracker);
    assert_eq!(first.as_deref(), Some("abc123def456"));
    let second = stop_docker_container_future(&mut tracker);
    assert!(second.is_none());
}

#[test]
fn unregister_makes_teardown_a_no_op() {
    let mut tracker = DockerContainerIdFuture::new("localhost:2375");
    tracker.register("abc123def456");
    tracker.unregister();
    assert!(stop_docker_container_future(&mut tracker).is_none());
}

#[test]
fn teardown_drains_in_reverse_dependency_order() {
    let mut engine = Benchmarker::new(test_config(), Vec::new());
    engine.application_container_id.register("app-container");
    engine.database_container_id.register("db-container");
    engine.benchmarker_container_id.register("loadgen-container");
    // the verifier exited naturally: registered, then unregistered
    engine.verifier_container_id.register("verifier-container");
    engine.verifier_container_id.unregister();
    let kills = engine.stop_containers();
    assert_eq!(kills.len(), 4);
    // load generator first, then verifier, application, database
    assert_eq!(kills[0].as_ref().map(|k| k.1.as_str()), Some("loadgen-container"));
    assert!(kills[1].is_none());
    assert_eq!(kills[2].as_ref().map(|k| k.1.as_str()), Some("app-container"));
    assert_eq!(kills[3].as_ref().map(|k| k.1.as_str()), Some("db-container"));
    // nothing is left behind
    assert!(engine.application_container_id.container_id.is_none());
    assert!(engine.database_container_id.container_id.is_none());
    assert!(engine.verifier_container_id.container_id.is_none());
    assert!(engine.benchmarker_container_id.container_id.is_none());
    // a second teardown has nothing to do
    let again = engine.stop_containers();
    assert!(again.iter().all(|k| k.is_none()));
}

#[test]
fn kills_carry_the_trackers_docker_host() {
    let mut engine = Benchmarker::new(test_config(), Vec::new());
    engine.application_container_id.register("app");
    let kills = engine.stop_containers();
    assert_eq!(kills[2].as_ref().map(|k| k.0.as_str()), Some("localhost:2375"));
}

#[test]
fn the_probe_accepts_any_status_code_above_zero() {
    assert_eq!(probe_tick(0, true, Some(200)), ProbeTick::Accepted);
    assert_eq!(probe_tick(0, true, Some(500)), ProbeTick::Accepted);
    assert_eq!(probe_tick(0, true, Some(0)), ProbeTick::SleepRetry);
    assert_eq!(probe_tick(0, true, None), ProbeTick::SleepRetry);
}

#[test]
fn a_stopped_container_is_a_crash_not_a_timeout() {
    assert_eq!(probe_tick(0, false, None), ProbeTick::Crashed);
    assert_eq!(probe_tick(61, false, Some(200)), ProbeTick::Crashed);
}

#[test]
fn the_probe_gives_up_after_sixty_sleeps() {
    assert_eq!(probe_tick(60, true, None), ProbeTick::SleepRetry);
    assert_eq!(probe_tick(61, true, None), ProbeTick::TimedOut);
    let never: Vec<ProbeObservation> = (0..100)
        .map(|_| ProbeObservation { running: true, response_code: None })
        .collect();
    let (outcome, ticks) = run_probe(&never);
    assert!(matches!(outcome, Err(ToolsetError::NoResponseFromDockerContainerError)));
    assert_eq!(ticks, 61);
}

#[test]
fn an_app_crash_during_readiness_fails_fast() {
    let mut obs: Vec<ProbeObservation> = (0..62)
        .map(|_| ProbeObservation { running: true, response_code: None })
        .collect();
    obs[3] = ProbeObservation { running: false, response_code: None };
    let (outcome, ticks) = run_probe(&obs);
    assert!(matches!(outcome, Err(ToolsetError::AppServerContainerShutDownError)));
    assert_eq!(ticks, 3);
}

#[test]
fn a_responsive_app_is_accepted_at_once() {
    let mut obs: Vec<ProbeObservation> = (0..62)
        .map(|_| ProbeObservation { running: true, response_code: None })
        .collect();
    obs[2] = ProbeObservation { running: true, response_code: Some(500) };
    let (outcome, ticks) = run_probe(&obs);
    assert!(outcome.is_ok());
    assert_eq!(ticks, 2);
}

#[test]
fn the_probe_url_uses_localhost_for_single_machine_runs() {
    assert_eq!(probe_url("tfb-server", "8080", "/plaintext"), "http://localhost:8080/plaintext");
    assert_eq!(probe_url("10.0.0.2", "8080", "/json"), "http://10.0.0.2:8080/json");
}

#[test]
fn the_docker_config_decides_transport_and_endpoints() {
    let config = test_config();
    assert!(config.use_unix_socket);
    assert_eq!(config.server_docker_host, "localhost:2375");
    let remote = DockerConfig::new(
        "10.0.0.1",
        "10.0.0.2",
        "10.0.0.3",
        "10.0.0.1",
        "10.0.0.2",
        "10.0.0.3",
        NetworkMode::Bridge,
        "n1",
        "n2",
        "n3",
        "16",
        "256",
        "1",
        "1",
        15,
        "r",
        "e",
        None,
        Logger::default(),
        false,
        false,
    );
    assert!(!remote.use_unix_socket);
    assert_eq!(remote.client_docker_host, "10.0.0.3:2375");
}

#[test]
fn a_happy_verify_of_one_test_without_a_database() {
    let config = test_config();
    let mut engine = Benchmarker::new(config, Vec::new());
    // the app container is created from its spec and registered
    let spec = application_container_spec(
        "sha-app-image",
        "net-server",
        "tfb-server",
        "tfb-database",
        NetworkMode::Bridge,
    );
    assert_eq!(spec.image, "sha-app-image");
    assert_eq!(spec.alias.as_deref(), Some("tfb-server"));
    engine.application_container_id.register("app-container");
    // the readiness probe accepts the first response
    assert_eq!(probe_tick(0, true, Some(200)), ProbeTick::Accepted);
    // the verifier runs, exits naturally with no findings, and unregisters
    engine.verifier_container_id.register("verifier-container");
    let mut listener = Verifier::new("gemini", "plaintext", "plaintext");
    listener.write(b"All checks passed\n");
    engine.verifier_container_id.unregister();
    assert!(listener.verification.errors.is_empty());
    assert_eq!(verification_status(&listener.verification), VerificationStatus::Pass);
    // exit code zero: nothing failed
    assert!(verify_succeeded(&vec![listener.verification]));
    // teardown stops exactly the app container and leaves nothing behind
    let kills = engine.stop_containers();
    let stopped: Vec<String> = kills.into_iter().flatten().map(|k| k.1).collect();
    assert_eq!(stopped, vec!["app-container".to_string()]);
    assert!(engine.application_container_id.container_id.is_none());
}
