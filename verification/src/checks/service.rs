//! Service checks: a docker outcome when the project is containerized or
//! configuration demands it, then one reachability outcome per effective
//! service. Config-declared services only fill gaps — they never override
//! an auto-detected service's host or port.

use vstd::prelude::*;

use crate::check::{CheckResult, Status};
use crate::config::{ServiceDetail, ServicesConfig, VitalsConfig};
use crate::detect::{ProjectContext, ServiceReq};
use crate::platform::{install_hint_spec, service_hint_spec, Platform};
use crate::text::{dec_str, opt_view, u64_to_string};
use crate::version::extract_spec;

verus! {

pub open spec fn svc_triples(s: Seq<ServiceReq>) -> Seq<(Seq<char>, Seq<char>, u16)> {
    Seq::new(s.len(), |i: int| (s[i].name@, s[i].host@, s[i].port))
}

pub open spec fn has_name3(acc: Seq<(Seq<char>, Seq<char>, u16)>, name: Seq<char>) -> bool {
    exists|i: int| 0 <= i < acc.len() && (#[trigger] acc[i]).0 == name
}

pub open spec fn det_view(d: Option<ServiceDetail>) -> Option<(Option<Seq<char>>, Option<u16>)> {
    match d {
        Some(sd) => Some((opt_view(sd.host), sd.port)),
        None => None,
    }
}

/// One config service merged into the list: appended with its overrides or
/// defaults only when no entry with that canonical name exists yet.
pub open spec fn merge_svc(
    acc: Seq<(Seq<char>, Seq<char>, u16)>,
    det: Option<(Option<Seq<char>>, Option<u16>)>,
    name: Seq<char>,
    dport: u16,
) -> Seq<(Seq<char>, Seq<char>, u16)> {
    match det {
        None => acc,
        Some(d) => if has_name3(acc, name) {
            acc
        } else {
            acc.push(
                (
                    name,
                    match d.0 {
                        Some(h) => h,
                        None => "localhost"@,
                    },
                    match d.1 {
                        Some(p) => p,
                        None => dport,
                    },
                ),
            )
        },
    }
}

pub open spec fn effective_svcs_spec(
    base: Seq<(Seq<char>, Seq<char>, u16)>,
    cfg: ServicesConfig,
) -> Seq<(Seq<char>, Seq<char>, u16)> {
    merge_svc(
        merge_svc(
            merge_svc(
                merge_svc(base, det_view(cfg.redis), "redis"@, 6379),
                det_view(cfg.postgres),
                "postgres"@,
                5432,
            ),
            det_view(cfg.mysql),
            "mysql"@,
            3306,
        ),
        det_view(cfg.mongo),
        "mongo"@,
        27017,
    )
}

/// Append a config-declared service unless one with that name is already
/// listed.
pub fn merge_config_service(
    reqs: &mut Vec<ServiceReq>,
    detail: &Option<ServiceDetail>,
    name: &str,
    default_port: u16,
)
    ensures
        svc_triples(final(reqs)@) == merge_svc(
            svc_triples(old(reqs)@),
            det_view(*detail),
            name@,
            default_port,
        ),
{
    if let Some(d) = detail {
        let mut present = false;
        let mut i: usize = 0;
        while i < reqs.len()
            invariant
                0 <= i <= reqs@.len(),
                present == exists|k: int|
                    0 <= k < i && (#[trigger] svc_triples(reqs@)[k]).0 == name@,
        decreases reqs@.len() - i,
        {
            if crate::text::str_eq(reqs[i].name.as_str(), name) {
                proof {
                    assert(svc_triples(reqs@)[i as int].0 == name@);
                }
                present = true;
            }
            i = i + 1;
        }
        proof {
            assert(present == has_name3(svc_triples(reqs@), name@));
        }
        if !present {
            let host: String = match &d.host {
                Some(h) => h.clone(),
                None => String::from_str("localhost"),
            };
            let port: u16 = match d.port {
                Some(p) => p,
                None => default_port,
            };
            let ghost before = svc_triples(reqs@);
            reqs.push(ServiceReq { name: String::from_str(name), host, port });
            proof {
                assert(svc_triples(reqs@) =~= before.push(
                    (
                        name@,
                        match det_view(*detail).unwrap().0 {
                            Some(h) => h,
                            None => "localhost"@,
                        },
                        port,
                    ),
                ));
            }
        }
    }
}

/// The effective service list: auto-detected services, then config-declared
/// ones that fill gaps.
pub fn effective_services(ctx: &ProjectContext, config: &VitalsConfig) -> (r: Vec<ServiceReq>)
    ensures
        svc_triples(r@) == effective_svcs_spec(svc_triples(ctx.services@), config.services),
{
    let mut reqs: Vec<ServiceReq> = Vec::new();
    let mut i: usize = 0;
    while i < ctx.services.len()
        invariant
            0 <= i <= ctx.services@.len(),
            svc_triples(reqs@) =~= svc_triples(ctx.services@).take(i as int),
        decreases ctx.services@.len() - i,
    {
        let s = &ctx.services[i];
        let ghost before = svc_triples(reqs@);
        reqs.push(ServiceReq { name: s.name.clone(), host: s.host.clone(), port: s.port });
        i = i + 1;
        proof {
            assert(svc_triples(reqs@) =~= before.push(svc_triples(ctx.services@)[i - 1]));
            assert(svc_triples(reqs@) =~= svc_triples(ctx.services@).take(i as int));
        }
    }
    proof {
        assert(svc_triples(ctx.services@).take(ctx.services@.len() as int) =~= svc_triples(
            ctx.services@,
        ));
    }
    merge_config_service(&mut reqs, &config.services.redis, "redis", 6379);
    merge_config_service(&mut reqs, &config.services.postgres, "postgres", 5432);
    merge_config_service(&mut reqs, &config.services.mysql, "mysql", 3306);
    merge_config_service(&mut reqs, &config.services.mongo, "mongo", 27017);
    reqs
}

// ── Outcomes ────────────────────────────────────────────────────────────────

/// What the application observed of the docker daemon: the output of an
/// info probe (present when the probe yielded any output) and of a version
/// probe.
#[derive(Debug, Clone)]
pub struct DockerProbe {
    pub info: Option<String>,
    pub version_output: Option<String>,
}

pub open spec fn docker_wanted(ctx: &ProjectContext, config: &VitalsConfig) -> bool {
    ctx.has_docker || config.services.docker == Some(true)
}

pub open spec fn docker_version_label(vo: Option<String>) -> Seq<char> {
    match vo {
        Some(o) => match extract_spec(o@) {
            Some(v) => v,
            None => "unknown"@,
        },
        None => "unknown"@,
    }
}

pub open spec fn docker_outcome_ok(d: DockerProbe, platform: Platform, o: CheckResult) -> bool {
    o.category@ == "Services"@ && o.name@ == "docker"@ && o.details@.len() == 0
        && if d.info is Some {
        o.status == Status::Pass && o.found@ == "running (v"@ + docker_version_label(
            d.version_output,
        ) + ")"@ && o.expected@ == "running"@ && o.fix is None
    } else if d.version_output is Some {
        o.status == Status::Fail && o.found@ == "not running"@ && o.expected@ == "running"@
            && opt_view(o.fix) == Some("open -a Docker (macOS) or sudo systemctl start docker"@)
    } else {
        o.status == Status::Fail && o.found@ == "not installed"@ && o.expected@
            == "installed & running"@ && opt_view(o.fix) == Some(
            install_hint_spec(platform, "docker"@),
        )
    }
}

/// `out` is exactly the per-service reachability report.
pub open spec fn service_results_ok(
    has_docker: bool,
    platform: Platform,
    svcs: Seq<(Seq<char>, Seq<char>, u16)>,
    reach: Seq<bool>,
    out: Seq<CheckResult>,
) -> bool {
    out.len() == svcs.len() && forall|i: int|
        0 <= i < out.len() ==> {
            let o = #[trigger] out[i];
            let port_label = dec_str(svcs[i].2 as nat);
            o.category@ == "Services"@ && o.name@ == svcs[i].0 && o.expected@ == "reachable on :"@
                + port_label && o.details@.len() == 0 && if reach[i] {
                o.status == Status::Pass && o.found@ == "reachable on :"@ + port_label
                    && o.fix is None
            } else {
                o.status == Status::Fail && o.found@ == "not reachable on :"@ + port_label
                    && opt_view(o.fix) == Some(
                    if has_docker {
                        "docker compose up -d "@ + svcs[i].0
                    } else {
                        service_hint_spec(platform, svcs[i].0)
                    },
                )
            }
        }
}

fn on_port_label(prefix: &str, port: u16) -> (r: String)
    ensures
        r@ == prefix@ + dec_str(port as nat),
{
    let mut r = String::from_str(prefix);
    let d = u64_to_string(port as u64);
    r.append(d.as_str());
    r
}

/// Check the docker daemon (when relevant) and each effective service's
/// reachability, as the application observed them.
pub fn check(
    ctx: &ProjectContext,
    config: &VitalsConfig,
    platform: &Platform,
    docker: &DockerProbe,
    services: &Vec<ServiceReq>,
    reachable: &Vec<bool>,
) -> (results: Vec<CheckResult>)
    requires
        reachable@.len() == services@.len(),
    ensures
        results@.len() == (if docker_wanted(ctx, config) {
            1int
        } else {
            0int
        }) + services@.len(),
        docker_wanted(ctx, config) ==> docker_outcome_ok(*docker, *platform, results@[0]),
        service_results_ok(
            ctx.has_docker,
            *platform,
            svc_triples(services@),
            reachable@,
            results@.skip(
                if docker_wanted(ctx, config) {
                    1int
                } else {
                    0int
                },
            ),
        ),
{
    let mut results: Vec<CheckResult> = Vec::new();
    let want_docker = ctx.has_docker || match config.services.docker {
        Some(b) => b,
        None => false,
    };
    if want_docker {
        if docker.info.is_some() {
            let ver: String = match &docker.version_output {
                Some(o) => match crate::version::extract_version(o.as_str()) {
                    Some(v) => v,
                    None => String::from_str("unknown"),
                },
                None => String::from_str("unknown"),
            };
            let mut found = String::from_str("running (v");
            found.append(ver.as_str());
            found.append(")");
            results.push(
                CheckResult {
                    category: String::from_str("Services"),
                    name: String::from_str("docker"),
                    status: Status::Pass,
                    found,
                    expected: String::from_str("running"),
                    fix: None,
                    details: Vec::new(),
                },
            );
        } else if docker.version_output.is_some() {
            results.push(
                CheckResult {
                    category: String::from_str("Services"),
                    name: String::from_str("docker"),
                    status: Status::Fail,
                    found: String::from_str("not running"),
                    expected: String::from_str("running"),
                    fix: Some(String::from_str("open -a Docker (macOS) or sudo systemctl start docker")),
                    details: Vec::new(),
                },
            );
        } else {
            results.push(
                CheckResult {
                    category: String::from_str("Services"),
                    name: String::from_str("docker"),
                    status: Status::Fail,
                    found: String::from_str("not installed"),
                    expected: String::from_str("installed & running"),
                    fix: Some(platform.install_hint("docker")),
                    details: Vec::new(),
                },
            );
        }
    }
    let ghost base: int = if docker_wanted(ctx, config) {
        1int
    } else {
        0int
    };
    let mut i: usize = 0;
    while i < services.len()
        invariant
            0 <= i <= services@.len(),
            reachable@.len() == services@.len(),
            base == if docker_wanted(ctx, config) {
                1int
            } else {
                0int
            },
            results@.len() == base + i,
            docker_wanted(ctx, config) ==> docker_outcome_ok(*docker, *platform, results@[0]),
            service_results_ok(
                ctx.has_docker,
                *platform,
                svc_triples(services@).take(i as int),
                reachable@.take(i as int),
                results@.skip(base),
            ),
        decreases services@.len() - i,
    {
        let ghost prev = results@;
        let svc = &services[i];
        if reachable[i] {
            results.push(
                CheckResult {
                    category: String::from_str("Services"),
                    name: svc.name.clone(),
                    status: Status::Pass,
                    found: on_port_label("reachable on :", svc.port),
                    expected: on_port_label("reachable on :", svc.port),
                    fix: None,
                    details: Vec::new(),
                },
            );
        } else {
            let fix: String = if ctx.has_docker {
                let mut f = String::from_str("docker compose up -d ");
                f.append(svc.name.as_str());
                f
            } else {
                platform.service_hint(svc.name.as_str())
            };
            results.push(
                CheckResult {
                    category: String::from_str("Services"),
                    name: svc.name.clone(),
                    status: Status::Fail,
                    found: on_port_label("not reachable on :", svc.port),
                    expected: on_port_label("reachable on :", svc.port),
                    fix: Some(fix),
                    details: Vec::new(),
                },
            );
        }
        i = i + 1;
        proof {
            assert(forall|k: int|
                0 <= k < i ==> svc_triples(services@).take(i as int)[k] == #[trigger] svc_triples(
                    services@,
                )[k]);
            assert(forall|k: int|
                0 <= k < i ==> reachable@.take(i as int)[k] == #[trigger] reachable@[k]);
            assert(results@.skip(base) =~= prev.skip(base).push(results@[results@.len() - 1]));
            assert(results@.skip(base).len() == i);
            assert(forall|k: int|
                0 <= k < i - 1 ==> results@.skip(base)[k] == #[trigger] prev.skip(base)[k]);
        }
    }
    proof {
        assert(svc_triples(services@).take(services@.len() as int) =~= svc_triples(services@));
        assert(reachable@.take(reachable@.len() as int) =~= reachable@);
    }
    results
}

} // verus!
