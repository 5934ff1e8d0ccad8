//! Container-side decisions: what each container is created with, how the
//! port pair of a started container is resolved, and the drain step of the
//! shutdown path.

pub mod create_options;

use vstd::prelude::*;

use crate::benchmarker::Mode;
use crate::docker::network::NetworkMode;
use crate::docker::{DockerContainerIdFuture, DockerOrchestration};
use crate::error::{ToolsetError, ToolsetResult};
use crate::text::until_char;

verus! {

/// Everything a container is created with; the transport turns this into
/// the Engine's create body.
#[derive(Clone, Debug)]
pub struct ContainerSpec {
    pub image: String,
    pub hostname: Option<String>,
    pub domainname: Option<String>,
    pub env: Vec<String>,
    pub network_mode: NetworkMode,
    pub extra_hosts: Vec<String>,
    pub alias: Option<String>,
    pub network_id: String,
    pub publish_all_ports: bool,
    pub tty: bool,
    pub attach_stderr: bool,
    pub cmd: Option<Vec<String>>,
    pub ulimit_nofile: Option<u32>,
    pub sysctl_somaxconn: Option<u32>,
}

/// An environment entry `KEY=value`.
pub open spec fn env_pair(k: Seq<char>, v: Seq<char>) -> Seq<char> {
    k + "="@ + v
}

pub fn env_entry(k: &str, v: &str) -> (r: String)
    ensures
        r@ == env_pair(k@, v@),
{
    let mut s = String::from_str(k);
    s.append("=");
    s.append(v);
    s
}

/// An extra-host entry `alias:address`.
pub open spec fn host_pair(alias: Seq<char>, addr: Seq<char>) -> Seq<char> {
    alias + ":"@ + addr
}

pub fn host_entry(alias: &str, addr: &str) -> (r: String)
    ensures
        r@ == host_pair(alias@, addr@),
{
    let mut s = String::from_str(alias);
    s.append(":");
    s.append(addr);
    s
}

/// What the application (or database) container is created with: hostname
/// and domain name are the role's alias; on a bridge network the alias is
/// registered on the endpoint, in host mode the database alias is pinned to
/// the configured database address instead.
pub fn application_container_spec(
    image_id: &str,
    network_id: &str,
    host_name: &str,
    database_host: &str,
    network_mode: NetworkMode,
) -> (r: ContainerSpec)
    ensures
        r.image@ == image_id@,
        r.hostname.deep_view() == Some(host_name@),
        r.domainname.deep_view() == Some(host_name@),
        r.env@.len() == 0,
        r.network_mode == network_mode,
        network_mode == NetworkMode::Bridge ==> r.alias.deep_view() == Some(host_name@)
            && r.extra_hosts@.len() == 0,
        network_mode == NetworkMode::Host ==> r.alias is None
            && r.extra_hosts.deep_view() =~= seq![
            host_pair("tfb-database"@, database_host@),
        ],
        r.network_id@ == network_id@,
        r.publish_all_ports,
        r.tty,
        !r.attach_stderr,
        r.cmd is None,
        r.ulimit_nofile is None,
        r.sysctl_somaxconn is None,
{
    let mut extra_hosts: Vec<String> = Vec::new();
    let mut alias: Option<String> = None;
    match network_mode {
        NetworkMode::Bridge => {
            alias = Some(String::from_str(host_name));
        },
        NetworkMode::Host => {
            extra_hosts.push(host_entry("tfb-database", database_host));
            proof {
                assert(extra_hosts.deep_view() =~= seq![
                    host_pair("tfb-database"@, database_host@),
                ]);
            }
        },
    }
    ContainerSpec {
        image: String::from_str(image_id),
        hostname: Some(String::from_str(host_name)),
        domainname: Some(String::from_str(host_name)),
        env: Vec::new(),
        network_mode,
        extra_hosts,
        alias,
        network_id: String::from_str(network_id),
        publish_all_ports: true,
        tty: true,
        attach_stderr: false,
        cmd: None,
        ulimit_nofile: None,
        sysctl_somaxconn: None,
    }
}

/// The verifier's environment: mode, port, endpoint, test type, the two
/// concurrency lists, and the database kind when there is one.
pub open spec fn verifier_env(
    mode_name: Seq<char>,
    port: Seq<char>,
    endpoint: Seq<char>,
    test_type: Seq<char>,
    concurrency_levels: Seq<char>,
    pipeline_concurrency_levels: Seq<char>,
    database: Option<Seq<char>>,
) -> Seq<Seq<char>> {
    let base = seq![
        env_pair("MODE"@, mode_name),
        env_pair("PORT"@, port),
        env_pair("ENDPOINT"@, endpoint),
        env_pair("TEST_TYPE"@, test_type),
        env_pair("CONCURRENCY_LEVELS"@, concurrency_levels),
        env_pair("PIPELINE_CONCURRENCY_LEVELS"@, pipeline_concurrency_levels),
    ];
    match database {
        Some(db) => base.push(env_pair("DATABASE"@, db)),
        None => base,
    }
}

/// The name the verifier knows each mode by.
pub fn mode_name(mode: Mode) -> (r: &'static str)
    ensures
        mode == Mode::Verify ==> r@ == "verify"@,
        mode == Mode::Benchmark ==> r@ == "benchmark"@,
{
    match mode {
        Mode::Verify => "verify",
        Mode::Benchmark => "benchmark",
    }
}

/// What the verifier container is created with, for one test type
/// (`name, endpoint`) of a running orchestration. In host mode the server
/// and database aliases are pinned to the configured addresses.
pub fn verifier_container_spec(
    orchestration: &DockerOrchestration,
    mode: Mode,
    test_type_name: &str,
    endpoint: &str,
    concurrency_levels: &str,
    pipeline_concurrency_levels: &str,
    client_network_id: &str,
    server_host: &str,
    database_host: &str,
    network_mode: NetworkMode,
) -> (r: ContainerSpec)
    ensures
        r.image@ == "techempower/tfb.verifier"@,
        r.hostname is None,
        r.domainname is None,
        r.env.deep_view() == verifier_env(
            if mode == Mode::Verify {
                "verify"@
            } else {
                "benchmark"@
            },
            orchestration.host_internal_port@,
            endpoint@,
            test_type_name@,
            concurrency_levels@,
            pipeline_concurrency_levels@,
            orchestration.database_name.deep_view(),
        ),
        r.network_mode == network_mode,
        network_mode == NetworkMode::Bridge ==> r.extra_hosts@.len() == 0,
        network_mode == NetworkMode::Host ==> r.extra_hosts.deep_view() =~= seq![
            host_pair("tfb-server"@, server_host@),
            host_pair("tfb-database"@, database_host@),
        ],
        r.alias is None,
        r.network_id@ == client_network_id@,
        r.publish_all_ports,
        r.tty,
        !r.attach_stderr,
        r.cmd is None,
        r.ulimit_nofile is None,
        r.sysctl_somaxconn is None,
{
    let mut env: Vec<String> = Vec::new();
    env.push(env_entry("MODE", mode_name(mode)));
    env.push(env_entry("PORT", orchestration.host_internal_port.as_str()));
    env.push(env_entry("ENDPOINT", endpoint));
    env.push(env_entry("TEST_TYPE", test_type_name));
    env.push(env_entry("CONCURRENCY_LEVELS", concurrency_levels));
    env.push(env_entry("PIPELINE_CONCURRENCY_LEVELS", pipeline_concurrency_levels));
    match &orchestration.database_name {
        Some(db) => {
            env.push(env_entry("DATABASE", db.as_str()));
        },
        None => {
        },
    }
    proof {
        assert(env.deep_view() =~= verifier_env(
            if mode == Mode::Verify {
                "verify"@
            } else {
                "benchmark"@
            },
            orchestration.host_internal_port@,
            endpoint@,
            test_type_name@,
            concurrency_levels@,
            pipeline_concurrency_levels@,
            orchestration.database_name.deep_view(),
        ));
    }
    let mut extra_hosts: Vec<String> = Vec::new();
    match network_mode {
        NetworkMode::Bridge => {
        },
        NetworkMode::Host => {
            extra_hosts.push(host_entry("tfb-server", server_host));
            extra_hosts.push(host_entry("tfb-database", database_host));
            proof {
                assert(extra_hosts.deep_view() =~= seq![
                    host_pair("tfb-server"@, server_host@),
                    host_pair("tfb-database"@, database_host@),
                ]);
            }
        },
    }
    ContainerSpec {
        image: String::from_str("techempower/tfb.verifier"),
        hostname: None,
        domainname: None,
        env,
        network_mode,
        extra_hosts,
        alias: None,
        network_id: String::from_str(client_network_id),
        publish_all_ports: true,
        tty: true,
        attach_stderr: false,
        cmd: None,
        ulimit_nofile: None,
        sysctl_somaxconn: None,
    }
}

/// What a load-generator container is created with: the retrieved command
/// vector, raised file-descriptor limit and connection backlog, and in host
/// mode the server alias pinned to the configured address.
pub fn benchmarker_container_spec(
    command: &Vec<String>,
    client_network_id: &str,
    server_host: &str,
    network_mode: NetworkMode,
) -> (r: ContainerSpec)
    ensures
        r.image@ == "techempower/tfb.verifier"@,
        r.hostname is None,
        r.domainname is None,
        r.env@.len() == 0,
        r.network_mode == network_mode,
        network_mode == NetworkMode::Bridge ==> r.extra_hosts@.len() == 0,
        network_mode == NetworkMode::Host ==> r.extra_hosts.deep_view() =~= seq![
            host_pair("tfb-server"@, server_host@),
        ],
        r.alias is None,
        r.network_id@ == client_network_id@,
        !r.publish_all_ports,
        r.tty,
        r.attach_stderr,
        r.cmd matches Some(c) && c.deep_view() == command.deep_view(),
        r.ulimit_nofile == Some(65535u32),
        r.sysctl_somaxconn == Some(65535u32),
{
    let mut extra_hosts: Vec<String> = Vec::new();
    match network_mode {
        NetworkMode::Bridge => {
        },
        NetworkMode::Host => {
            extra_hosts.push(host_entry("tfb-server", server_host));
            proof {
                assert(extra_hosts.deep_view() =~= seq![host_pair("tfb-server"@, server_host@)]);
            }
        },
    }
    ContainerSpec {
        image: String::from_str("techempower/tfb.verifier"),
        hostname: None,
        domainname: None,
        env: Vec::new(),
        network_mode,
        extra_hosts,
        alias: None,
        network_id: String::from_str(client_network_id),
        publish_all_ports: false,
        tty: true,
        attach_stderr: true,
        cmd: Some(command.clone()),
        ulimit_nofile: Some(65535),
        sysctl_somaxconn: Some(65535),
    }
}

/// The port part of an exposed-port key `"N/proto"`.
pub open spec fn port_of_key(key: Seq<char>) -> Seq<char> {
    key.take(until_char(key, '/') as int)
}

/// First value bound to `key`, if any.
pub open spec fn assoc_first(
    bindings: Seq<(Seq<char>, Seq<Seq<char>>)>,
    key: Seq<char>,
) -> Option<Seq<Seq<char>>>
    decreases bindings.len(),
{
    if bindings.len() == 0 {
        None
    } else if bindings[0].0 == key {
        Some(bindings[0].1)
    } else {
        assoc_first(bindings.drop_first(), key)
    }
}

/// The `(host_port, internal_port)` pair read off the exposed-port keys and
/// the published bindings, walking the keys in order. In bridge mode the
/// first key with a published binding decides; in host mode the first key
/// decides by itself, exposed equalling published.
pub open spec fn spec_resolve_ports(
    mode: NetworkMode,
    keys: Seq<Seq<char>>,
    bindings: Seq<(Seq<char>, Seq<Seq<char>>)>,
) -> Option<(Seq<char>, Seq<char>)>
    decreases keys.len(),
{
    if keys.len() == 0 {
        None
    } else {
        let key = keys[0];
        let port = port_of_key(key);
        match mode {
            NetworkMode::Host => Some((port, port)),
            NetworkMode::Bridge => match assoc_first(bindings, key) {
                Some(hps) => if hps.len() > 0 {
                    Some((hps[0], port))
                } else {
                    spec_resolve_ports(mode, keys.drop_first(), bindings)
                },
                None => spec_resolve_ports(mode, keys.drop_first(), bindings),
            },
        }
    }
}

/// In host network mode the resolved pair is identical: exposed equals
/// published, whether or not any binding was reported.
pub proof fn lemma_host_mode_ports_identical(
    keys: Seq<Seq<char>>,
    bindings: Seq<(Seq<char>, Seq<Seq<char>>)>,
)
    ensures
        keys.len() > 0 ==> (spec_resolve_ports(NetworkMode::Host, keys, bindings)
            matches Some(p) && p.0 == p.1),
{
}

/// Gets both the internal and host port binding for a started container,
/// from the exposed-port keys and published bindings its inspection showed.
pub fn get_port_bindings_for_container(
    mode: NetworkMode,
    exposed_keys: &Vec<String>,
    bindings: &Vec<(String, Vec<String>)>,
) -> (r: ToolsetResult<(String, String)>)
    ensures
        match r {
            Ok(p) => spec_resolve_ports(mode, exposed_keys.deep_view(), bindings.deep_view())
                == Some((p.0@, p.1@)),
            Err(e) => (e matches ToolsetError::ContainerPortMappingInspectionError)
                && spec_resolve_ports(mode, exposed_keys.deep_view(), bindings.deep_view())
                is None,
        },
{
    let ghost kv = exposed_keys.deep_view();
    let ghost bv = bindings.deep_view();
    let mut i: usize = 0;
    proof {
        assert(kv.skip(0) =~= kv);
    }
    while i < exposed_keys.len()
        invariant
            kv == exposed_keys.deep_view(),
            bv == bindings.deep_view(),
            exposed_keys@.len() == kv.len(),
            0 <= i <= exposed_keys.len(),
            spec_resolve_ports(mode, kv, bv) == spec_resolve_ports(
                mode,
                kv.skip(i as int),
                bv,
            ),
        decreases exposed_keys.len() - i,
    {
        proof {
            assert(kv[i as int] == exposed_keys@[i as int]@);
            assert(kv.skip(i as int)[0] == kv[i as int]);
            assert(kv.skip(i as int).drop_first() =~= kv.skip(i as int + 1));
        }
        let port = crate::text::prefix_before(exposed_keys[i].as_str(), '/');
        match mode {
            NetworkMode::Host => {
                let second = port.clone();
                return Ok((second, port));
            },
            NetworkMode::Bridge => {
                match lookup_binding(bindings, exposed_keys[i].as_str()) {
                    Some(hps) => {
                        if hps.len() > 0 {
                            proof {
                                assert(hps.deep_view()[0] == hps@[0]@);
                            }
                            return Ok((hps[0].clone(), port));
                        }
                    },
                    None => {
                    },
                }
            },
        }
        i = i + 1;
    }
    proof {
        assert(kv.skip(kv.len() as int) =~= Seq::<Seq<char>>::empty());
    }
    Err(ToolsetError::ContainerPortMappingInspectionError)
}

/// The published host ports bound to `key`, if the inspection listed it.
fn lookup_binding<'a>(bindings: &'a Vec<(String, Vec<String>)>, key: &str) -> (r: Option<
    &'a Vec<String>,
>)
    ensures
        match r {
            Some(hps) => assoc_first(bindings.deep_view(), key@) == Some(hps.deep_view()),
            None => assoc_first(bindings.deep_view(), key@) is None,
        },
{
    let ghost bv = bindings.deep_view();
    let mut i: usize = 0;
    proof {
        assert(bv.skip(0) =~= bv);
    }
    while i < bindings.len()
        invariant
            bv == bindings.deep_view(),
            bindings@.len() == bv.len(),
            0 <= i <= bindings.len(),
            assoc_first(bv, key@) == assoc_first(bv.skip(i as int), key@),
        decreases bindings.len() - i,
    {
        proof {
            assert(bv[i as int] == (bindings@[i as int].0@, bindings@[i as int].1.deep_view()));
            assert(bv.skip(i as int)[0] == bv[i as int]);
            assert(bv.skip(i as int).drop_first() =~= bv.skip(i as int + 1));
        }
        if crate::text::str_eq(bindings[i].0.as_str(), key) {
            return Some(&bindings[i].1);
        }
        i = i + 1;
    }
    proof {
        assert(bv.skip(bv.len() as int) =~= Seq::<(Seq<char>, Seq<Seq<char>>)>::empty());
    }
    None
}

/// The drain step of the shutdown path, once the tracker polls `Ready`: a
/// registered container is handed back to be killed, exactly once, and the
/// tracker is reset to idle; an unregistered tracker is left alone and
/// nothing is killed.
pub fn stop_docker_container_future(container: &mut DockerContainerIdFuture) -> (kill: Option<
    String,
>)
    requires
        old(container).spec_ready(),
    ensures
        final(container)@ == crate::docker::spec_drain(old(container)@).0,
        kill.deep_view() == crate::docker::spec_drain(old(container)@).1,
        old(container).requires_wait_to_stop ==> final(container).is_idle(),
        !old(container).requires_wait_to_stop ==> *final(container) == *old(container),
{
    if container.requires_wait_to_stop {
        let id = match &container.container_id {
            Some(id) => Some(id.clone()),
            None => None,
        };
        container.unregister();
        id
    } else {
        None
    }
}

} // verus!
