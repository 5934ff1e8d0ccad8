//! The per-run Docker configuration: three Engine endpoints, three
//! in-network hostnames, the transport choice, the network mode with one
//! resolved network id per host, and the benchmark parameter lists.

use vstd::prelude::*;

use crate::docker::network::NetworkMode;
use crate::io::Logger;

verus! {

#[derive(Clone, Debug)]
pub struct DockerConfig {
    pub use_unix_socket: bool,
    pub server_docker_host: String,
    pub server_host: String,
    pub server_network_id: String,
    pub database_docker_host: String,
    pub database_host: String,
    pub database_network_id: String,
    pub client_docker_host: String,
    pub client_host: String,
    pub client_network_id: String,
    pub network_mode: NetworkMode,
    pub concurrency_levels: String,
    pub pipeline_concurrency_levels: String,
    pub query_levels: String,
    pub cached_query_levels: String,
    pub duration: u32,
    pub results_name: String,
    pub results_environment: String,
    pub results_upload_uri: Option<String>,
    pub logger: Logger,
    pub clean_up: bool,
}

/// A Docker Engine TCP endpoint: the daemon's address on its fixed port.
pub fn docker_endpoint(host: &str) -> (r: String)
    ensures
        r@ == host@ + ":2375"@,
{
    let mut s = String::from_str(host);
    s.append(":2375");
    s
}

impl DockerConfig {
    /// Assembles a run's configuration from already-gathered values: the
    /// three daemon addresses get their TCP port; the Unix socket is used
    /// only off Windows and only for single-machine runs, recognized by the
    /// server host still being the in-network alias `tfb-server`; the three
    /// network ids come resolved by the caller at startup.
    pub fn new(
        server_docker_ip: &str,
        database_docker_ip: &str,
        client_docker_ip: &str,
        server_host: &str,
        database_host: &str,
        client_host: &str,
        network_mode: NetworkMode,
        server_network_id: &str,
        database_network_id: &str,
        client_network_id: &str,
        concurrency_levels: &str,
        pipeline_concurrency_levels: &str,
        query_levels: &str,
        cached_query_levels: &str,
        duration: u32,
        results_name: &str,
        results_environment: &str,
        results_upload_uri: Option<String>,
        logger: Logger,
        clean_up: bool,
        windows: bool,
    ) -> (r: DockerConfig)
        ensures
            r.use_unix_socket == (!windows && server_host@ == "tfb-server"@),
            r.server_docker_host@ == server_docker_ip@ + ":2375"@,
            r.database_docker_host@ == database_docker_ip@ + ":2375"@,
            r.client_docker_host@ == client_docker_ip@ + ":2375"@,
            r.server_host@ == server_host@,
            r.database_host@ == database_host@,
            r.client_host@ == client_host@,
            r.network_mode == network_mode,
            r.server_network_id@ == server_network_id@,
            r.database_network_id@ == database_network_id@,
            r.client_network_id@ == client_network_id@,
            r.concurrency_levels@ == concurrency_levels@,
            r.pipeline_concurrency_levels@ == pipeline_concurrency_levels@,
            r.query_levels@ == query_levels@,
            r.cached_query_levels@ == cached_query_levels@,
            r.duration == duration,
            r.results_name@ == results_name@,
            r.results_environment@ == results_environment@,
            r.results_upload_uri == results_upload_uri,
            r.logger == logger,
            r.clean_up == clean_up,
    {
        let use_unix_socket = if windows {
            false
        } else {
            crate::text::str_eq(server_host, "tfb-server")
        };
        DockerConfig {
            use_unix_socket,
            server_docker_host: docker_endpoint(server_docker_ip),
            server_host: String::from_str(server_host),
            server_network_id: String::from_str(server_network_id),
            database_docker_host: docker_endpoint(database_docker_ip),
            database_host: String::from_str(database_host),
            database_network_id: String::from_str(database_network_id),
            client_docker_host: docker_endpoint(client_docker_ip),
            client_host: String::from_str(client_host),
            client_network_id: String::from_str(client_network_id),
            network_mode,
            concurrency_levels: String::from_str(concurrency_levels),
            pipeline_concurrency_levels: String::from_str(pipeline_concurrency_levels),
            query_levels: String::from_str(query_levels),
            cached_query_levels: String::from_str(cached_query_levels),
            duration,
            results_name: String::from_str(results_name),
            results_environment: String::from_str(results_environment),
            results_upload_uri,
            logger,
            clean_up,
        }
    }
}

} // verus!
