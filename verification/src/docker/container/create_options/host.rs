//! Builder for a container-create body in host networking: no published
//! ports, aliases pinned via extra hosts instead.

use vstd::prelude::*;

use crate::docker::network::NetworkMode;

verus! {

#[derive(Clone, Debug)]
pub struct Options {
    pub image: String,
    pub hostname: String,
    pub domainname: String,
    pub env: Vec<String>,
    pub network_mode: NetworkMode,
    pub extra_hosts: Vec<String>,
    pub tty: bool,
}

pub struct Builder {
    pub create_options: Options,
}

impl Builder {
    pub fn build(self) -> (r: Options)
        ensures
            r == self.create_options,
    {
        self.create_options
    }

    pub fn new(image_name: &str) -> (r: Builder)
        ensures
            r.create_options.image@ == image_name@,
            r.create_options.hostname@.len() == 0,
            r.create_options.domainname@.len() == 0,
            r.create_options.env@.len() == 0,
            r.create_options.network_mode == NetworkMode::Host,
            r.create_options.extra_hosts@.len() == 0,
            r.create_options.tty,
    {
        Builder {
            create_options: Options {
                image: String::from_str(image_name),
                hostname: String::new(),
                domainname: String::new(),
                env: Vec::new(),
                network_mode: NetworkMode::Host,
                extra_hosts: Vec::new(),
                tty: true,
            },
        }
    }

    pub fn domainname(self, domainname: &str) -> (r: Builder)
        ensures
            r.create_options.domainname@ == domainname@,
            r.create_options.image == self.create_options.image,
            r.create_options.hostname == self.create_options.hostname,
            r.create_options.env == self.create_options.env,
            r.create_options.network_mode == self.create_options.network_mode,
            r.create_options.extra_hosts == self.create_options.extra_hosts,
            r.create_options.tty == self.create_options.tty,
    {
        let mut o = self;
        o.create_options.domainname = String::from_str(domainname);
        o
    }

    pub fn hostname(self, hostname: &str) -> (r: Builder)
        ensures
            r.create_options.hostname@ == hostname@,
            r.create_options.image == self.create_options.image,
            r.create_options.domainname == self.create_options.domainname,
            r.create_options.env == self.create_options.env,
            r.create_options.network_mode == self.create_options.network_mode,
            r.create_options.extra_hosts == self.create_options.extra_hosts,
            r.create_options.tty == self.create_options.tty,
    {
        let mut o = self;
        o.create_options.hostname = String::from_str(hostname);
        o
    }

    pub fn with_extra_host(self, host: &str) -> (r: Builder)
        ensures
            r.create_options.extra_hosts.deep_view()
                == self.create_options.extra_hosts.deep_view().push(host@),
            r.create_options.image == self.create_options.image,
            r.create_options.hostname == self.create_options.hostname,
            r.create_options.domainname == self.create_options.domainname,
            r.create_options.env == self.create_options.env,
            r.create_options.network_mode == self.create_options.network_mode,
            r.create_options.tty == self.create_options.tty,
    {
        let mut o = self;
        let ghost before = o.create_options.extra_hosts.deep_view();
        o.create_options.extra_hosts.push(String::from_str(host));
        proof {
            assert(o.create_options.extra_hosts.deep_view() =~= before.push(host@));
        }
        o
    }

    pub fn env(self, env: &str) -> (r: Builder)
        ensures
            r.create_options.env.deep_view() == self.create_options.env.deep_view().push(env@),
            r.create_options.image == self.create_options.image,
            r.create_options.hostname == self.create_options.hostname,
            r.create_options.domainname == self.create_options.domainname,
            r.create_options.network_mode == self.create_options.network_mode,
            r.create_options.extra_hosts == self.create_options.extra_hosts,
            r.create_options.tty == self.create_options.tty,
    {
        let mut o = self;
        let ghost before = o.create_options.env.deep_view();
        o.create_options.env.push(String::from_str(env));
        proof {
            assert(o.create_options.env.deep_view() =~= before.push(env@));
        }
        o
    }
}

} // verus!
