//! Network idempotence, port resolution, container specs, endpoint order,
//! verification outcomes and results bookkeeping.

use tfb_toolset::benchmarker::{
    benchmark_run_plan, database_image_name, dockerfile_name, modes, Mode,
};
use tfb_toolset::config::{Framework, Named, Project, Test};
use tfb_toolset::docker::container::create_options::bridge;
use tfb_toolset::docker::container::create_options::host;
use tfb_toolset::docker::container::{
    get_port_bindings_for_container, verifier_container_spec,
};
use tfb_toolset::docker::listener::inspect_container::InspectContainer;
use tfb_toolset::docker::network::{NetworkMode, NetworkTable};
use tfb_toolset::docker::{BenchmarkCommands, DockerOrchestration, Verification};
use tfb_toolset::error::ToolsetError;
use tfb_toolset::io::{verification_status, verify_succeeded, Logger, VerificationStatus};
use tfb_toolset::results::parse_levels;

fn plaintext_test() -> Test {
    Test {
        name: Some("plaintext".to_string()),
        urls: vec![("plaintext".to_string(), "/plaintext".to_string())],
        approach: "Realistic".to_string(),
        classification: "Micro".to_string(),
        orm: None,
        platform: "None".to_string(),
        webserver: "None".to_string(),
        os: "Linux".to_string(),
        database_os: None,
        database: None,
        versus: "".to_string(),
        tags: None,
        dockerfile: None,
    }
}

#[test]
fn creating_the_network_twice_yields_the_same_id() {
    let mut table = NetworkTable::new();
    let first = table.create_network("TFBNetwork", "id-first");
    let second = table.create_network("TFBNetwork", "id-other");
    assert_eq!(first, "id-first");
    assert_eq!(second, "id-first");
}

#[test]
fn bridge_mode_reads_the_published_binding() {
    let keys = vec!["8080/tcp".to_string()];
    let bindings = vec![("8080/tcp".to_string(), vec!["32768".to_string()])];
    let pair = get_port_bindings_for_container(NetworkMode::Bridge, &keys, &bindings).unwrap();
    assert_eq!(pair, ("32768".to_string(), "8080".to_string()));
}

#[test]
fn host_mode_reports_an_identical_pair() {
    let keys = vec!["8080/tcp".to_string()];
    let bindings: Vec<(String, Vec<String>)> = Vec::new();
    let pair = get_port_bindings_for_container(NetworkMode::Host, &keys, &bindings).unwrap();
    assert_eq!(pair, ("8080".to_string(), "8080".to_string()));
}

#[test]
fn an_unresolvable_mapping_is_a_hard_error() {
    let keys = vec!["8080/tcp".to_string()];
    let bindings: Vec<(String, Vec<String>)> = Vec::new();
    assert!(matches!(
        get_port_bindings_for_container(NetworkMode::Bridge, &keys, &bindings),
        Err(ToolsetError::ContainerPortMappingInspectionError)
    ));
}

#[test]
fn the_inspect_listener_resolves_ports_from_the_body() {
    let body = "{\"Config\":{\"ExposedPorts\":{\"8080/tcp\":{}}},\
\"NetworkSettings\":{\"Ports\":{\"8080/tcp\":[{\"HostIp\":\"0.0.0.0\",\"HostPort\":\"32768\"}]}}}";
    let mut inspect = InspectContainer::new(NetworkMode::Bridge);
    inspect.write(body.as_bytes());
    let pair = inspect.get_host_ports().unwrap();
    assert_eq!(pair, ("32768".to_string(), "8080".to_string()));
}

#[test]
fn the_inspect_listener_ignores_bindings_in_host_mode() {
    // even with a published binding present, host mode reports (N, N)
    let body = "{\"Config\":{\"ExposedPorts\":{\"8080/tcp\":{}}},\
\"NetworkSettings\":{\"Ports\":{\"8080/tcp\":[{\"HostIp\":\"0.0.0.0\",\"HostPort\":\"32768\"}]}}}";
    let mut inspect = InspectContainer::new(NetworkMode::Host);
    inspect.write(body.as_bytes());
    let pair = inspect.get_host_ports().unwrap();
    assert_eq!(pair, ("8080".to_string(), "8080".to_string()));
}

#[test]
fn the_inspect_listener_handles_host_mode_without_bindings() {
    let body = "{\"Config\":{\"ExposedPorts\":{\"8080/tcp\":{}}},\
\"NetworkSettings\":{\"Ports\":{}}}";
    let mut inspect = InspectContainer::new(NetworkMode::Host);
    inspect.write(body.as_bytes());
    let pair = inspect.get_host_ports().unwrap();
    assert_eq!(pair, ("8080".to_string(), "8080".to_string()));
}

#[test]
fn endpoint_iteration_order_is_insertion_order() {
    let mut test = plaintext_test();
    test.urls = vec![
        ("json".to_string(), "/json".to_string()),
        ("plaintext".to_string(), "/plaintext".to_string()),
        ("db".to_string(), "/db".to_string()),
    ];
    let plan = test.test_type_plan();
    let names: Vec<&str> = plan.iter().map(|p| p.0.as_str()).collect();
    assert_eq!(names, vec!["json", "plaintext", "db"]);
    test.specify_test_type(Some("plaintext"));
    let names: Vec<&str> = test.urls.iter().map(|p| p.0.as_str()).collect();
    assert_eq!(names, vec!["plaintext"]);
}

#[test]
fn the_first_endpoint_feeds_the_probe() {
    let test = plaintext_test();
    assert_eq!(test.first_endpoint().as_deref(), Some("/plaintext"));
    assert_eq!(test.get_tag(), "tfb.test.plaintext");
    assert_eq!(test.get_name(), "plaintext");
}

#[test]
fn the_verifier_environment_is_assembled_in_order() {
    let orchestration = DockerOrchestration {
        host_container_id: "abc".to_string(),
        host_port: "32768".to_string(),
        host_internal_port: "8080".to_string(),
        database_name: Some("Postgres".to_string()),
        db_container_id: None,
        db_host_port: None,
        db_internal_port: None,
    };
    let spec = verifier_container_spec(
        &orchestration,
        Mode::Verify,
        "plaintext",
        "/plaintext",
        "16,32",
        "256,1024",
        "client-net",
        "tfb-server",
        "tfb-database",
        NetworkMode::Bridge,
    );
    assert_eq!(spec.image, "techempower/tfb.verifier");
    assert_eq!(
        spec.env,
        vec![
            "MODE=verify".to_string(),
            "PORT=8080".to_string(),
            "ENDPOINT=/plaintext".to_string(),
            "TEST_TYPE=plaintext".to_string(),
            "CONCURRENCY_LEVELS=16,32".to_string(),
            "PIPELINE_CONCURRENCY_LEVELS=256,1024".to_string(),
            "DATABASE=Postgres".to_string(),
        ]
    );
    assert_eq!(spec.network_id, "client-net");
    assert!(spec.extra_hosts.is_empty());
}

#[test]
fn database_images_follow_the_lowercased_convention() {
    assert_eq!(database_image_name("Postgres"), "techempower/tfb.database.postgres");
    assert_eq!(database_image_name("MySQL"), "techempower/tfb.database.mysql");
}

#[test]
fn the_dockerfile_defaults_to_the_test_name() {
    let mut test = plaintext_test();
    assert_eq!(dockerfile_name(&test), "plaintext.dockerfile");
    test.dockerfile = Some("custom.dockerfile".to_string());
    assert_eq!(dockerfile_name(&test), "custom.dockerfile");
}

#[test]
fn primer_and_warmup_run_before_the_measured_commands() {
    let commands = BenchmarkCommands {
        primer_command: vec!["wrk".to_string(), "-d".to_string(), "5".to_string()],
        warmup_command: vec!["wrk".to_string(), "-d".to_string(), "15".to_string()],
        benchmark_commands: vec![
            vec!["wrk".to_string(), "-c".to_string(), "16".to_string()],
            vec!["wrk".to_string(), "-c".to_string(), "32".to_string()],
        ],
    };
    let (warmups, measured) = benchmark_run_plan(&commands);
    assert_eq!(warmups.len(), 2);
    assert_eq!(warmups[0], commands.primer_command);
    assert_eq!(warmups[1], commands.warmup_command);
    assert_eq!(measured, commands.benchmark_commands);
}

#[test]
fn verification_outcomes_rank_errors_over_warnings() {
    let clean = Verification {
        framework_name: "gemini".to_string(),
        test_name: "gemini".to_string(),
        test_type_name: "plaintext".to_string(),
        warnings: Vec::new(),
        errors: Vec::new(),
    };
    assert_eq!(verification_status(&clean), VerificationStatus::Pass);
    assert!(verify_succeeded(&vec![clean.clone()]));
    let mut warned = clean.clone();
    warned.warnings.push(tfb_toolset::docker::listener::verifier_listener::Warning {
        message: "slow".to_string(),
        short_message: "SLOW".to_string(),
    });
    assert_eq!(verification_status(&warned), VerificationStatus::Warn);
    assert!(verify_succeeded(&vec![clean.clone(), warned.clone()]));
    let mut failed = clean.clone();
    failed.errors.push(tfb_toolset::docker::listener::verifier_listener::Error {
        message: "bad".to_string(),
        short_message: "BAD".to_string(),
    });
    assert_eq!(verification_status(&failed), VerificationStatus::Error);
    assert!(!verify_succeeded(&vec![clean, warned, failed]));
}

#[test]
fn benchmark_parameter_lists_parse_or_reject_whole() {
    assert_eq!(parse_levels("16,32,64"), Some(vec![16, 32, 64]));
    assert_eq!(parse_levels("15"), Some(vec![15]));
    assert_eq!(parse_levels("16,,32"), None);
    assert_eq!(parse_levels("16,abc"), None);
}

#[test]
fn loggers_scope_to_tests_and_files() {
    let mut logger = Logger::in_dir("results/20200619191252");
    logger.set_test(&plaintext_test());
    assert_eq!(logger.prefix.as_deref(), Some("plaintext"));
    assert_eq!(logger.log_dir.as_deref(), Some("results/20200619191252/plaintext"));
    logger.set_log_file("log.txt");
    assert_eq!(
        logger.log_file.as_deref(),
        Some("results/20200619191252/plaintext/log.txt")
    );
    let plain = Logger::with_prefix("postgres");
    assert_eq!(plain.prefix.as_deref(), Some("postgres"));
    assert!(Logger::default().log_dir.is_none());
}

#[test]
fn it_can_build_a_create_options() {
    let create_options = bridge::Builder::new("tfb.test.gemini")
        .hostname("tfb-server")
        .domainname("tfb-server")
        .alias("tfb-server")
        .network_id("net-1")
        .env("DEBUG=1")
        .publish_all_ports(true)
        .build();
    assert_eq!(create_options.image, "tfb.test.gemini");
    assert_eq!(create_options.hostname, "tfb-server");
    assert_eq!(create_options.aliases, vec!["tfb-server".to_string()]);
    assert_eq!(create_options.network_id, "net-1");
    assert_eq!(create_options.env, vec!["DEBUG=1".to_string()]);
    assert!(create_options.publish_all_ports);

    let host_options = host::Builder::new("tfb.test.gemini")
        .hostname("tfb-server")
        .with_extra_host("tfb-database:10.0.0.2")
        .build();
    assert_eq!(host_options.extra_hosts, vec!["tfb-database:10.0.0.2".to_string()]);
}

#[test]
fn mode_names_match_the_command_line() {
    assert_eq!(modes::BENCHMARK, "benchmark");
    assert_eq!(modes::VERIFY, "verify");
    assert_eq!(modes::CICD, "cicd");
    assert_eq!(modes::DEBUG, "debug");
}

#[test]
fn named_things_report_their_names() {
    let framework = Framework { name: "Gemini".to_string(), authors: None, github: None };
    assert_eq!(framework.get_name(), "Gemini");
    let project = Project {
        name: "gemini".to_string(),
        language: "Java".to_string(),
        framework,
        tests: vec![plaintext_test()],
    };
    assert_eq!(project.tests[0].get_name(), "plaintext");
}
