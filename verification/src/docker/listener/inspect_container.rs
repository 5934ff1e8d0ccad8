//! Listener for container inspection, and the port extraction read off its
//! body: the first exposed port key (`"N/proto"`) gives the internal port;
//! in bridge mode the published binding gives the host port, in host mode
//! exposed equals published.

use vstd::prelude::*;

use crate::docker::jsonio::{
    get_json_host_port, get_json_object_keys2, json_host_port, json_object_keys2,
};
use crate::docker::network::NetworkMode;
use crate::error::{ToolsetError, ToolsetResult};
use crate::text::{prefix_before, until_char};

verus! {

#[derive(Clone, Debug)]
pub struct InspectContainer {
    pub string_buffer: String,
    pub network_mode: NetworkMode,
}

impl InspectContainer {
    pub fn new(network_mode: NetworkMode) -> (r: Self)
        ensures
            r.string_buffer@.len() == 0,
            r.network_mode == network_mode,
    {
        InspectContainer { string_buffer: String::new(), network_mode }
    }

    /// One chunk of the inspect body, accumulated whole.
    pub fn write(&mut self, data: &[u8]) -> (r: usize)
        ensures
            r == data@.len(),
            final(self).network_mode == old(self).network_mode,
            vstd::utf8::valid_utf8(data@) ==> final(self).string_buffer@ == old(
                self,
            ).string_buffer@ + vstd::utf8::decode_utf8(data@),
            !vstd::utf8::valid_utf8(data@) ==> final(self).string_buffer@ == old(
                self,
            ).string_buffer@,
    {
        crate::docker::listener::accumulate(&mut self.string_buffer, data)
    }

    /// The `(host_port, internal_port)` pair of the inspected container. The
    /// first exposed port key decides; in host mode exposed equals
    /// published, whether or not any binding was reported.
    pub fn get_host_ports(&self) -> (r: ToolsetResult<(String, String)>)
        ensures
            ({
                let body = self.string_buffer@;
                let keys = json_object_keys2(body, "Config"@, "ExposedPorts"@);
                match r {
                    Ok(p) => keys matches Some(ks) && ks.len() > 0 && {
                        let key = ks[0];
                        let port = key.take(until_char(key, '/') as int);
                        if self.network_mode == NetworkMode::Host {
                            p.0@ == port && p.1@ == port
                        } else {
                            json_host_port(body, key) == Some(p.0@) && p.1@ == port
                        }
                    },
                    Err(e) => (e matches ToolsetError::FailedToInspectDockerContainerError(_))
                        && match keys {
                        Some(ks) => ks.len() == 0 || (self.network_mode == NetworkMode::Bridge
                            && json_host_port(body, ks[0]) is None),
                        None => true,
                    },
                }
            }),
    {
        match get_json_object_keys2(self.string_buffer.as_str(), "Config", "ExposedPorts") {
            Some(keys) => {
                if keys.len() > 0 {
                    proof {
                        assert(keys.deep_view()[0] == keys@[0]@);
                    }
                    let port = prefix_before(keys[0].as_str(), '/');
                    if matches!(self.network_mode, NetworkMode::Host) {
                        let second = port.clone();
                        return Ok((second, port));
                    }
                    match get_json_host_port(self.string_buffer.as_str(), keys[0].as_str()) {
                        Some(hp) => {
                            return Ok((hp, port));
                        },
                        None => {
                        },
                    }
                }
                Err(
                    ToolsetError::FailedToInspectDockerContainerError(
                        String::from_str(
                            "Could not determine host port for running container.",
                        ),
                    ),
                )
            },
            None => Err(
                ToolsetError::FailedToInspectDockerContainerError(
                    String::from_str("Could not determine host port for running container."),
                ),
            ),
        }
    }
}

} // verus!
