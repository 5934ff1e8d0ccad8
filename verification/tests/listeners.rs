//! The streamed listeners, fed the JSON lines the Engine actually sends,
//! in chunks that cross line boundaries.

use tfb_toolset::docker::listener::accumulate;
use tfb_toolset::docker::listener::benchmark_command_listener::BenchmarkCommandListener;
use tfb_toolset::docker::listener::build_container::BuildContainer;
use tfb_toolset::docker::listener::build_image::BuildImage;
use tfb_toolset::docker::listener::build_network::BuildNetwork;
use tfb_toolset::docker::listener::simple::Simple;
use tfb_toolset::docker::listener::verifier_listener::Verifier;
use tfb_toolset::docker::listener::{strip_sha256_prefix, truncate_id};

#[test]
fn accumulate_appends_decoded_chunks() {
    let mut buffer = String::from("abc");
    let n = accumulate(&mut buffer, b"def");
    assert_eq!(n, 3);
    assert_eq!(buffer, "abcdef");
}

#[test]
fn container_ids_are_truncated_to_twelve_characters() {
    let mut listener = BuildContainer::new();
    listener.write(
        b"{\"Id\":\"4a1b2c3d4e5f60718293a4b5c6d7e8f90123456789abcdef0123456789abcd\"}\n",
    );
    let id = listener.container_id.expect("id recorded");
    assert_eq!(id.len(), 12);
    assert_eq!(id, "4a1b2c3d4e5f");
    assert!(listener.error_message.is_none());
}

#[test]
fn an_unterminated_create_response_is_read_at_finish() {
    // Docker's create response is a plain JSON body with no trailing newline
    let mut listener = BuildContainer::new();
    listener.write(b"{\"Id\":\"0123456789abcdef0123\"}");
    assert!(listener.container_id.is_none());
    listener.finish();
    assert_eq!(listener.container_id.as_deref(), Some("0123456789ab"));
    assert!(listener.error_message.is_none());
    // after the flush a second finish has nothing left to read
    listener.finish();
    assert_eq!(listener.container_id.as_deref(), Some("0123456789ab"));
}

#[test]
fn an_unterminated_network_response_is_read_at_finish() {
    let mut listener = BuildNetwork::new();
    listener.write(
        b"{\"Id\":\"f2de39df4171b0dc801e8002d1d999b77256983dfc63041c0f34030f18e10636\"}",
    );
    assert!(listener.network_id.is_none());
    listener.finish();
    assert_eq!(listener.network_id.as_deref(), Some("f2de39df4171"));
    assert!(listener.error_message.is_none());
}

#[test]
fn an_unterminated_digest_line_is_read_at_finish() {
    let mut listener = BuildImage::new();
    let logs = listener.write(b"{\"aux\":{\"ID\":\"sha256:e821df6f41ad\"}}");
    assert!(logs.is_empty());
    assert!(listener.image_id.is_none());
    let logs = listener.finish();
    assert!(logs.is_empty());
    assert_eq!(listener.image_id.as_deref(), Some("e821df6f41ad"));
    assert!(listener.error_message.is_none());
}

#[test]
fn an_unterminated_error_message_is_read_at_finish() {
    let mut listener = Simple::new();
    listener.write(b"{\"message\":\"no such container\"}");
    assert!(listener.error_message.is_none());
    listener.finish();
    assert_eq!(listener.error_message.as_deref(), Some("no such container"));
}

#[test]
fn an_unterminated_finding_is_read_at_finish() {
    let mut v = Verifier::new("gemini", "gemini", "plaintext");
    v.write(b"{\"warning\":{\"message\":\"slow\",\"short_message\":\"SLOW\"}}");
    assert!(v.verification.warnings.is_empty());
    let logs = v.finish();
    assert!(logs.is_empty());
    assert_eq!(v.verification.warnings.len(), 1);
    assert_eq!(v.verification.warnings[0].short_message, "SLOW");
}

#[test]
fn an_unterminated_command_object_is_read_at_finish() {
    let mut listener = BenchmarkCommandListener::new();
    listener.write(
        b"{\"primer_command\":[\"wrk\"],\"warmup_command\":[\"wrk\"],\"benchmark_commands\":[[\"wrk\"]]}",
    );
    assert!(listener.benchmark_commands.is_none());
    let logs = listener.finish();
    assert!(logs.is_empty());
    let commands = listener.benchmark_commands.expect("commands read at end of stream");
    assert_eq!(commands.primer_command, vec!["wrk"]);
}

#[test]
fn a_create_error_message_is_recorded() {
    let mut listener = BuildContainer::new();
    listener.write(b"{\"message\":\"no such image\"}\n");
    assert!(listener.container_id.is_none());
    assert_eq!(listener.error_message.as_deref(), Some("no such image"));
}

#[test]
fn chunks_crossing_line_boundaries_are_reassembled() {
    let mut listener = BuildContainer::new();
    listener.write(b"{\"Id\":\"aaaabbbbcccc");
    assert!(listener.container_id.is_none());
    listener.write(b"dddd\"}\nrest");
    assert_eq!(listener.container_id.as_deref(), Some("aaaabbbbcccc"));
}

#[test]
fn network_ids_are_truncated_like_container_ids() {
    let mut listener = BuildNetwork::new();
    listener.write(b"{\"Id\":\"0123456789abcdef0123456789abcdef\"}\n");
    assert_eq!(listener.network_id.as_deref(), Some("0123456789ab"));
}

#[test]
fn the_image_build_stream_is_logged_and_the_digest_stripped() {
    let mut listener = BuildImage::new();
    let logs = listener.write(
        b"{\"stream\":\"Step 1/9 : FROM ubuntu\\n\"}\n{\"aux\":{\"ID\":\"sha256:e821df6f41ad\"}}\n",
    );
    assert_eq!(logs, vec!["Step 1/9 : FROM ubuntu".to_string()]);
    assert_eq!(listener.image_id.as_deref(), Some("e821df6f41ad"));
    assert!(listener.error_message.is_none());
}

#[test]
fn an_unprefixed_digest_is_kept_whole() {
    assert_eq!(strip_sha256_prefix("sha256:abcd"), "abcd");
    assert_eq!(strip_sha256_prefix("md5:abcd"), "md5:abcd");
    assert_eq!(truncate_id("short"), "short");
}

#[test]
fn the_simple_listener_keeps_the_last_error_message() {
    let mut listener = Simple::new();
    listener.write(b"{\"message\":\"first\"}\n{\"message\":\"second\"}\n");
    assert_eq!(listener.error_message.as_deref(), Some("second"));
    listener.write(b"plain text line\n");
    assert_eq!(listener.error_message.as_deref(), Some("second"));
}

#[test]
fn verifier_findings_are_collected_with_their_fields() {
    let mut v = Verifier::new("gemini", "gemini", "plaintext");
    let logs = v.write(
        b"{\"warning\":{\"message\":\"slow\",\"short_message\":\"SLOW\"}}\n\
{\"error\":{\"message\":\"bad json\",\"short_message\":\"JSON\"}}\n\
just logging\n",
    );
    assert_eq!(v.verification.warnings.len(), 1);
    assert_eq!(v.verification.errors.len(), 1);
    assert_eq!(v.verification.warnings[0].message, "slow");
    assert_eq!(v.verification.warnings[0].short_message, "SLOW");
    assert_eq!(v.verification.errors[0].message, "bad json");
    assert_eq!(v.verification.errors[0].short_message, "JSON");
    assert_eq!(logs, vec!["just logging".to_string()]);
    assert_eq!(v.verification.framework_name, "gemini");
    assert_eq!(v.verification.test_type_name, "plaintext");
}

#[test]
fn benchmark_commands_are_retrieved_from_one_json_line() {
    let mut listener = BenchmarkCommandListener::new();
    let logs = listener.write(
        b"warming up\n{\"primer_command\":[\"wrk\",\"-d\",\"5\"],\
\"warmup_command\":[\"wrk\",\"-d\",\"15\"],\
\"benchmark_commands\":[[\"wrk\",\"-c\",\"16\"],[\"wrk\",\"-c\",\"32\"]]}\n",
    );
    assert_eq!(logs, vec!["warming up".to_string()]);
    let commands = listener.benchmark_commands.expect("commands parsed");
    assert_eq!(commands.primer_command, vec!["wrk", "-d", "5"]);
    assert_eq!(commands.warmup_command, vec!["wrk", "-d", "15"]);
    assert_eq!(commands.benchmark_commands.len(), 2);
    assert_eq!(commands.benchmark_commands[1], vec!["wrk", "-c", "32"]);
}

#[test]
fn an_incomplete_command_object_is_logged_not_stored() {
    let mut listener = BenchmarkCommandListener::new();
    let logs = listener.write(b"{\"primer_command\":[\"wrk\"]}\n");
    assert!(listener.benchmark_commands.is_none());
    assert_eq!(logs.len(), 1);
}
