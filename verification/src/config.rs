//! User-authored configuration: explicit version requirements, extra ports,
//! services, required environment keys, and arbitrary command checks. The
//! surrounding application parses the on-disk file and hands these plain
//! values in; a missing file is the all-default empty configuration.

use vstd::prelude::*;

verus! {

#[derive(Debug)]
pub struct VitalsConfig {
    pub require: RequireConfig,
    pub ports: PortsConfig,
    pub services: ServicesConfig,
    pub env: EnvConfig,
    pub commands: Vec<CommandConfig>,
}

#[derive(Debug)]
pub struct RequireConfig {
    pub node: Option<String>,
    pub python: Option<String>,
    pub rust: Option<String>,
    pub go: Option<String>,
    pub ruby: Option<String>,
    pub java: Option<String>,
}

#[derive(Debug)]
pub struct PortsConfig {
    pub check: Vec<u16>,
}

#[derive(Debug)]
pub struct ServicesConfig {
    pub docker: Option<bool>,
    pub redis: Option<ServiceDetail>,
    pub postgres: Option<ServiceDetail>,
    pub mysql: Option<ServiceDetail>,
    pub mongo: Option<ServiceDetail>,
}

#[derive(Debug, Clone)]
pub struct ServiceDetail {
    pub host: Option<String>,
    pub port: Option<u16>,
}

#[derive(Debug)]
pub struct EnvConfig {
    pub required: Vec<String>,
    pub example: Option<String>,
}

#[derive(Debug)]
pub struct CommandConfig {
    pub name: String,
    pub run: String,
}

pub open spec fn require_is_default(c: &RequireConfig) -> bool {
    c.node is None && c.python is None && c.rust is None && c.go is None && c.ruby is None
        && c.java is None
}

pub open spec fn services_is_default(c: &ServicesConfig) -> bool {
    c.docker is None && c.redis is None && c.postgres is None && c.mysql is None
        && c.mongo is None
}

/// The all-default configuration: no overrides of any kind.
pub open spec fn config_is_default(c: &VitalsConfig) -> bool {
    require_is_default(&c.require) && c.ports.check@ == Seq::<u16>::empty()
        && services_is_default(&c.services) && c.env.required.deep_view() == Seq::<Seq<
        char,
    >>::empty() && c.env.example is None && c.commands@.len() == 0
}

impl Default for RequireConfig {
    fn default() -> (r: Self)
        ensures
            require_is_default(&r),
    {
        RequireConfig { node: None, python: None, rust: None, go: None, ruby: None, java: None }
    }
}

impl Default for PortsConfig {
    fn default() -> (r: Self)
        ensures
            r.check@ == Seq::<u16>::empty(),
    {
        PortsConfig { check: Vec::new() }
    }
}

impl Default for ServicesConfig {
    fn default() -> (r: Self)
        ensures
            services_is_default(&r),
    {
        ServicesConfig { docker: None, redis: None, postgres: None, mysql: None, mongo: None }
    }
}

impl Default for EnvConfig {
    fn default() -> (r: Self)
        ensures
            r.required.deep_view() == Seq::<Seq<char>>::empty(),
            r.example is None,
    {
        let r = EnvConfig { required: Vec::new(), example: None };
        proof {
            assert(r.required.deep_view() =~= Seq::<Seq<char>>::empty());
        }
        r
    }
}

impl Default for VitalsConfig {
    fn default() -> (r: Self)
        ensures
            config_is_default(&r),
    {
        let r = VitalsConfig {
            require: RequireConfig::default(),
            ports: PortsConfig::default(),
            services: ServicesConfig::default(),
            env: EnvConfig::default(),
            commands: Vec::new(),
        };
        proof {
            assert(r.env.required.deep_view() =~= Seq::<Seq<char>>::empty());
        }
        r
    }
}

/// Template content for an `--init`-style generated configuration file.
pub fn template() -> &'static str {
    r#"# .vitals.toml — project health check configuration
# Commit this file so your whole team benefits from `vitals`

# Runtime version requirements (auto-detected from project files if omitted)
[require]
# node = ">=18"
# python = ">=3.11"
# rust = ">=1.75"
# go = ">=1.21"

# Ports that should be available
[ports]
# check = [3000, 5432, 6379]

# Services that should be running
[services]
# docker = true

# [services.redis]
# host = "localhost"
# port = 6379

# [services.postgres]
# host = "localhost"
# port = 5432

# Environment variables
[env]
# required = ["DATABASE_URL", "REDIS_URL", "API_KEY"]
# example = ".env.example"

# Custom checks (commands that should exit 0)
# [[commands]]
# name = "db-migrations"
# run = "npx prisma migrate status"
"#
}

} // verus!
