//! Builder for a container-create body on a bridge network: the container
//! joins the named network, optionally under aliases, with all exposed
//! ports published.

use vstd::prelude::*;

use crate::docker::network::NetworkMode;

verus! {

#[derive(Clone, Debug)]
pub struct Options {
    pub image: String,
    pub hostname: String,
    pub domainname: String,
    pub env: Vec<String>,
    pub network_mode: NetworkMode,
    pub publish_all_ports: bool,
    pub aliases: Vec<String>,
    pub network_id: String,
    pub tty: bool,
}

pub struct Builder {
    pub create_options: Options,
}

impl Builder {
    pub fn build(self) -> (r: Options)
        ensures
            r == self.create_options,
    {
        self.create_options
    }

    pub fn new(image_name: &str) -> (r: Builder)
        ensures
            r.create_options.image@ == image_name@,
            r.create_options.hostname@.len() == 0,
            r.create_options.domainname@.len() == 0,
            r.create_options.env@.len() == 0,
            r.create_options.network_mode == NetworkMode::Bridge,
            r.create_options.publish_all_ports,
            r.create_options.aliases@.len() == 0,
            r.create_options.network_id@.len() == 0,
            r.create_options.tty,
    {
        Builder {
            create_options: Options {
                image: String::from_str(image_name),
                hostname: String::new(),
                domainname: String::new(),
                env: Vec::new(),
                network_mode: NetworkMode::Bridge,
                publish_all_ports: true,
                aliases: Vec::new(),
                network_id: String::new(),
                tty: true,
            },
        }
    }

    pub fn alias(self, alias: &str) -> (r: Builder)
        ensures
            r.create_options.aliases.deep_view() == self.create_options.aliases.deep_view().push(
                alias@,
            ),
            r.create_options.image == self.create_options.image,
            r.create_options.hostname == self.create_options.hostname,
            r.create_options.domainname == self.create_options.domainname,
            r.create_options.env == self.create_options.env,
            r.create_options.network_mode == self.create_options.network_mode,
            r.create_options.publish_all_ports == self.create_options.publish_all_ports,
            r.create_options.network_id == self.create_options.network_id,
            r.create_options.tty == self.create_options.tty,
    {
        let mut o = self;
        let ghost before = o.create_options.aliases.deep_view();
        o.create_options.aliases.push(String::from_str(alias));
        proof {
            assert(o.create_options.aliases.deep_view() =~= before.push(alias@));
        }
        o
    }

    pub fn network_id(self, network_id: &str) -> (r: Builder)
        ensures
            r.create_options.network_id@ == network_id@,
            r.create_options.image == self.create_options.image,
            r.create_options.hostname == self.create_options.hostname,
            r.create_options.domainname == self.create_options.domainname,
            r.create_options.env == self.create_options.env,
            r.create_options.network_mode == self.create_options.network_mode,
            r.create_options.publish_all_ports == self.create_options.publish_all_ports,
            r.create_options.aliases == self.create_options.aliases,
            r.create_options.tty == self.create_options.tty,
    {
        let mut o = self;
        o.create_options.network_id = String::from_str(network_id);
        o
    }

    pub fn domainname(self, domainname: &str) -> (r: Builder)
        ensures
            r.create_options.domainname@ == domainname@,
            r.create_options.image == self.create_options.image,
            r.create_options.hostname == self.create_options.hostname,
            r.create_options.env == self.create_options.env,
            r.create_options.network_mode == self.create_options.network_mode,
            r.create_options.publish_all_ports == self.create_options.publish_all_ports,
            r.create_options.aliases == self.create_options.aliases,
            r.create_options.network_id == self.create_options.network_id,
            r.create_options.tty == self.create_options.tty,
    {
        let mut o = self;
        o.create_options.domainname = String::from_str(domainname);
        o
    }

    pub fn hostname(self, hostname: &str) -> (r: Builder)
        ensures
            r.create_options.hostname@ == hostname@,
            r.create_options.image == self.create_options.image,
            r.create_options.domainname == self.create_options.domainname,
            r.create_options.env == self.create_options.env,
            r.create_options.network_mode == self.create_options.network_mode,
            r.create_options.publish_all_ports == self.create_options.publish_all_ports,
            r.create_options.aliases == self.create_options.aliases,
            r.create_options.network_id == self.create_options.network_id,
            r.create_options.tty == self.create_options.tty,
    {
        let mut o = self;
        o.create_options.hostname = String::from_str(hostname);
        o
    }

    pub fn publish_all_ports(self, publish_all_ports: bool) -> (r: Builder)
        ensures
            r.create_options.publish_all_ports == publish_all_ports,
            r.create_options.image == self.create_options.image,
            r.create_options.hostname == self.create_options.hostname,
            r.create_options.domainname == self.create_options.domainname,
            r.create_options.env == self.create_options.env,
            r.create_options.network_mode == self.create_options.network_mode,
            r.create_options.aliases == self.create_options.aliases,
            r.create_options.network_id == self.create_options.network_id,
            r.create_options.tty == self.create_options.tty,
    {
        let mut o = self;
        o.create_options.publish_all_ports = publish_all_ports;
        o
    }

    pub fn env(self, env: &str) -> (r: Builder)
        ensures
            r.create_options.env.deep_view() == self.create_options.env.deep_view().push(env@),
            r.create_options.image == self.create_options.image,
            r.create_options.hostname == self.create_options.hostname,
            r.create_options.domainname == self.create_options.domainname,
            r.create_options.network_mode == self.create_options.network_mode,
            r.create_options.publish_all_ports == self.create_options.publish_all_ports,
            r.create_options.aliases == self.create_options.aliases,
            r.create_options.network_id == self.create_options.network_id,
            r.create_options.tty == self.create_options.tty,
    {
        let mut o = self;
        let ghost before = o.create_options.env.deep_view();
        o.create_options.env.push(String::from_str(env));
        proof {
            assert(o.create_options.env.deep_view() =~= before.push(env@));
        }
        o
    }
}

} // verus!
