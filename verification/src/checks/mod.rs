//! The check orchestrator: six independent categories in a fixed order,
//! each a pure function of the project context, the configuration, and the
//! host observations the surrounding application gathered.

pub mod custom;
pub mod deps;
pub mod env;
pub mod port;
pub mod runtime;
pub mod service;

use vstd::prelude::*;

use crate::check::CheckResult;
use crate::config::VitalsConfig;
use crate::detect::ProjectContext;
use crate::platform::Platform;

verus! {

/// Whether a category name appears in the skip list.
pub open spec fn skip_has(skip: Seq<Seq<char>>, name: Seq<char>) -> bool {
    skip.contains(name)
}

/// Everything the surrounding application observed of the host, paired
/// with what the effective requirements asked it to probe.
pub struct HostObservations {
    /// Found version per entry of the context's runtime list.
    pub runtime_versions: Vec<Option<String>>,
    pub docker: service::DockerProbe,
    /// The effective service list that was probed.
    pub services: Vec<crate::detect::ServiceReq>,
    pub service_reachable: Vec<bool>,
    pub port_probes: Vec<port::PortProbe>,
    /// One outcome per configured command.
    pub command_outcomes: Vec<custom::CmdOutcome>,
}

pub open spec fn runtime_seg_len(ctx: &ProjectContext, skip: Seq<Seq<char>>) -> int {
    if skip_has(skip, "runtime"@) {
        0
    } else {
        ctx.runtimes@.len() as int
    }
}

pub open spec fn deps_seg_len(ctx: &ProjectContext, skip: Seq<Seq<char>>) -> int {
    if skip_has(skip, "deps"@) {
        0
    } else {
        ctx.deps@.len() as int
    }
}

pub open spec fn services_seg_len(
    ctx: &ProjectContext,
    config: &VitalsConfig,
    obs: &HostObservations,
    skip: Seq<Seq<char>>,
) -> int {
    if skip_has(skip, "services"@) {
        0
    } else {
        (if service::docker_wanted(ctx, config) {
            1int
        } else {
            0int
        }) + obs.services@.len()
    }
}

pub open spec fn ports_seg_len(obs: &HostObservations, skip: Seq<Seq<char>>) -> int {
    if skip_has(skip, "ports"@) {
        0
    } else {
        obs.port_probes@.len() as int
    }
}

pub open spec fn env_seg_len(ctx: &ProjectContext, config: &VitalsConfig, skip: Seq<Seq<char>>) -> int {
    if skip_has(skip, "env"@) {
        0
    } else if env::merge_keys(
        ctx.env.expected_keys.deep_view(),
        config.env.required.deep_view(),
    ).len() == 0 {
        0
    } else {
        1
    }
}

pub open spec fn commands_seg_len(config: &VitalsConfig, skip: Seq<Seq<char>>) -> int {
    if skip_has(skip, "commands"@) {
        0
    } else {
        config.commands@.len() as int
    }
}

fn skip_listed(skip: &Vec<String>, name: &str) -> (r: bool)
    ensures
        r == skip_has(skip.deep_view(), name@),
{
    crate::text::vec_contains_str(skip, name)
}

/// Run every category that is not skipped, in the fixed order runtime,
/// dependencies, services, ports, environment, commands, and return the
/// concatenated outcomes. Each segment of the result is exactly the
/// corresponding category's report; a skipped category contributes
/// nothing. An empty project with an empty configuration yields no
/// outcomes at all.
#[verifier::rlimit(100)]
pub fn run_all(
    ctx: &ProjectContext,
    config: &VitalsConfig,
    platform: &Platform,
    skip: &Vec<String>,
    obs: &HostObservations,
) -> (results: Vec<CheckResult>)
    requires
        obs.runtime_versions@.len() == ctx.runtimes@.len(),
        obs.service_reachable@.len() == obs.services@.len(),
        obs.command_outcomes@.len() == config.commands@.len(),
    ensures
        ({
            let sk = skip.deep_view();
            let n1 = runtime_seg_len(ctx, sk);
            let n2 = deps_seg_len(ctx, sk);
            let n3 = services_seg_len(ctx, config, obs, sk);
            let n4 = ports_seg_len(obs, sk);
            let n5 = env_seg_len(ctx, config, sk);
            let n6 = commands_seg_len(config, sk);
            &&& results@.len() == n1 + n2 + n3 + n4 + n5 + n6
            &&& !skip_has(sk, "runtime"@) ==> runtime::runtime_results_ok(
                crate::detect::rt_view(ctx.runtimes@),
                config,
                *platform,
                runtime::outs_view(obs.runtime_versions@),
                results@.subrange(0, n1),
            )
            &&& !skip_has(sk, "deps"@) ==> deps::deps_results_ok(
                ctx.deps@,
                results@.subrange(n1, n1 + n2),
            )
            &&& !skip_has(sk, "services"@) ==> {
                &&& service::docker_wanted(ctx, config) ==> service::docker_outcome_ok(
                    obs.docker,
                    *platform,
                    results@[n1 + n2],
                )
                &&& service::service_results_ok(
                    ctx.has_docker,
                    *platform,
                    service::svc_triples(obs.services@),
                    obs.service_reachable@,
                    results@.subrange(
                        n1 + n2 + if service::docker_wanted(ctx, config) {
                            1int
                        } else {
                            0int
                        },
                        n1 + n2 + n3,
                    ),
                )
            }
            &&& !skip_has(sk, "ports"@) ==> port::port_results_ok(
                obs.port_probes@,
                results@.subrange(n1 + n2 + n3, n1 + n2 + n3 + n4),
            )
            &&& !skip_has(sk, "env"@) ==> env::env_results_ok(
                ctx.env.expected_keys.deep_view(),
                config.env.required.deep_view(),
                ctx.env.env_file is Some,
                crate::text::opt_view(ctx.env.example_file),
                ctx.env.actual_keys.deep_view(),
                results@.subrange(n1 + n2 + n3 + n4, n1 + n2 + n3 + n4 + n5),
            )
            &&& !skip_has(sk, "commands"@) ==> custom::custom_results_ok(
                config.commands@,
                obs.command_outcomes@,
                results@.subrange(n1 + n2 + n3 + n4 + n5, n1 + n2 + n3 + n4 + n5 + n6),
            )
        }),
{
    let ghost sk = skip.deep_view();
    let mut results: Vec<CheckResult> = Vec::new();
    let ghost mut p1: Seq<CheckResult> = Seq::empty();
    let ghost mut p2: Seq<CheckResult> = Seq::empty();
    let ghost mut p3: Seq<CheckResult> = Seq::empty();
    let ghost mut p4: Seq<CheckResult> = Seq::empty();
    let ghost mut p5: Seq<CheckResult> = Seq::empty();
    let ghost mut p6: Seq<CheckResult> = Seq::empty();
    if !skip_listed(skip, "runtime") {
        let mut part = runtime::check(ctx, config, platform, &obs.runtime_versions);
        proof {
            p1 = part@;
        }
        results.append(&mut part);
    }
    if !skip_listed(skip, "deps") {
        let mut part = deps::check(ctx);
        proof {
            p2 = part@;
        }
        results.append(&mut part);
    }
    if !skip_listed(skip, "services") {
        let mut part = service::check(
            ctx,
            config,
            platform,
            &obs.docker,
            &obs.services,
            &obs.service_reachable,
        );
        proof {
            p3 = part@;
        }
        results.append(&mut part);
    }
    if !skip_listed(skip, "ports") {
        let mut part = port::check(&obs.port_probes);
        proof {
            p4 = part@;
        }
        results.append(&mut part);
    }
    if !skip_listed(skip, "env") {
        let mut part = env::check(ctx, config);
        proof {
            p5 = part@;
        }
        results.append(&mut part);
    }
    if !skip_listed(skip, "commands") {
        let mut part = custom::check(config, &obs.command_outcomes);
        proof {
            p6 = part@;
        }
        results.append(&mut part);
    }
    proof {
        let n1 = runtime_seg_len(ctx, sk);
        let n2 = deps_seg_len(ctx, sk);
        let n3 = services_seg_len(ctx, config, obs, sk);
        let n4 = ports_seg_len(obs, sk);
        let n5 = env_seg_len(ctx, config, sk);
        let n6 = commands_seg_len(config, sk);
        assert(results@ =~= p1 + p2 + p3 + p4 + p5 + p6);
        assert(p1.len() == n1);
        assert(p2.len() == n2);
        assert(p3.len() == n3);
        assert(p4.len() == n4);
        assert(p5.len() == n5);
        assert(p6.len() == n6);
        assert(results@.subrange(0, n1) =~= p1);
        assert(results@.subrange(n1, n1 + n2) =~= p2);
        assert(results@.subrange(n1 + n2, n1 + n2 + n3) =~= p3);
        if !skip_has(sk, "services"@) {
            if service::docker_wanted(ctx, config) {
                assert(results@[n1 + n2] == p3[0]);
                assert(results@.subrange(n1 + n2 + 1, n1 + n2 + n3) =~= p3.skip(1));
            } else {
                assert(results@.subrange(n1 + n2, n1 + n2 + n3) =~= p3.skip(0));
            }
        }
        assert(results@.subrange(n1 + n2 + n3, n1 + n2 + n3 + n4) =~= p4);
        assert(results@.subrange(n1 + n2 + n3 + n4, n1 + n2 + n3 + n4 + n5) =~= p5);
        assert(results@.subrange(n1 + n2 + n3 + n4 + n5, n1 + n2 + n3 + n4 + n5 + n6) =~= p6);
    }
    results
}

} // verus!
