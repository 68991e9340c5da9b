//! Runtime version checks: a configured constraint overrides a detected
//! one; a found version passes when no constraint applies or the
//! constraint is satisfied, and a missing tool or unsatisfied constraint
//! fails with an install or upgrade hint.

use vstd::prelude::*;

use crate::check::{CheckResult, Status};
use crate::config::VitalsConfig;
use crate::detect::ProjectContext;
use crate::platform::{install_hint_spec, Platform};
use crate::text::{opt_view, str_eq};
use crate::version::{extract_spec, norm_ver_spec, req_norm_spec, semver_accepts};

verus! {

/// One candidate probe command for a tool.
#[derive(Debug, Clone)]
pub struct ProbeCmd {
    pub bin: String,
    pub arg: String,
}

/// The fixed probe-command table per runtime name.
pub open spec fn candidates_spec(name: Seq<char>) -> Seq<(Seq<char>, Seq<char>)> {
    if name == "node"@ {
        seq![("node"@, "--version"@)]
    } else if name == "python"@ {
        seq![("python3"@, "--version"@), ("python"@, "--version"@)]
    } else if name == "rust"@ {
        seq![("rustc"@, "--version"@)]
    } else if name == "go"@ {
        seq![("go"@, "version"@)]
    } else if name == "ruby"@ {
        seq![("ruby"@, "--version"@)]
    } else if name == "java"@ {
        seq![("java"@, "--version"@)]
    } else {
        Seq::<(Seq<char>, Seq<char>)>::empty()
    }
}

pub open spec fn probe_view(s: Seq<ProbeCmd>) -> Seq<(Seq<char>, Seq<char>)> {
    Seq::new(s.len(), |i: int| (s[i].bin@, s[i].arg@))
}

fn probe_of(bin: &str, arg: &str) -> (r: ProbeCmd)
    ensures
        r.bin@ == bin@,
        r.arg@ == arg@,
{
    ProbeCmd { bin: String::from_str(bin), arg: String::from_str(arg) }
}

/// The candidate version-probe commands for a tool, tried in order.
pub fn runtime_candidates(name: &str) -> (r: Vec<ProbeCmd>)
    ensures
        probe_view(r@) == candidates_spec(name@),
{
    let mut r: Vec<ProbeCmd> = Vec::new();
    if str_eq(name, "node") {
        r.push(probe_of("node", "--version"));
    } else if str_eq(name, "python") {
        r.push(probe_of("python3", "--version"));
        r.push(probe_of("python", "--version"));
    } else if str_eq(name, "rust") {
        r.push(probe_of("rustc", "--version"));
    } else if str_eq(name, "go") {
        r.push(probe_of("go", "version"));
    } else if str_eq(name, "ruby") {
        r.push(probe_of("ruby", "--version"));
    } else if str_eq(name, "java") {
        r.push(probe_of("java", "--version"));
    }
    proof {
        assert(probe_view(r@) =~= candidates_spec(name@));
    }
    r
}

pub open spec fn outs_view(s: Seq<Option<String>>) -> Seq<Option<Seq<char>>> {
    Seq::new(s.len(), |i: int| opt_view(s[i]))
}

/// The first version any candidate's output yields.
pub open spec fn first_version_spec(outs: Seq<Option<Seq<char>>>) -> Option<Seq<char>>
    decreases outs.len(),
{
    if outs.len() == 0 {
        None
    } else {
        match outs[0] {
            Some(o) => match extract_spec(o) {
                Some(v) => Some(v),
                None => first_version_spec(outs.skip(1)),
            },
            None => first_version_spec(outs.skip(1)),
        }
    }
}

/// Pick the first candidate output that contains an extractable version.
pub fn first_version(outputs: &Vec<Option<String>>) -> (r: Option<String>)
    ensures
        opt_view(r) == first_version_spec(outs_view(outputs@)),
{
    let ghost all = outs_view(outputs@);
    let mut i: usize = 0;
    proof {
        assert(all.skip(0) =~= all);
    }
    while i < outputs.len()
        invariant
            0 <= i <= outputs@.len(),
            all == outs_view(outputs@),
            first_version_spec(all) == first_version_spec(all.skip(i as int)),
        decreases outputs@.len() - i,
    {
        proof {
            assert(all.skip(i as int)[0] == all[i as int]);
            assert(all.skip(i as int).skip(1) =~= all.skip(i + 1));
        }
        if let Some(o) = &outputs[i] {
            if let Some(v) = crate::version::extract_version(o.as_str()) {
                return Some(v);
            }
        }
        i = i + 1;
    }
    proof {
        assert(all.skip(all.len() as int) =~= Seq::<Option<Seq<char>>>::empty());
    }
    None
}

/// The configured constraint for a tool name, if any.
pub open spec fn config_req_spec(config: &VitalsConfig, name: Seq<char>) -> Option<Seq<char>> {
    if name == "node"@ {
        opt_view(config.require.node)
    } else if name == "python"@ {
        opt_view(config.require.python)
    } else if name == "rust"@ {
        opt_view(config.require.rust)
    } else if name == "go"@ {
        opt_view(config.require.go)
    } else if name == "ruby"@ {
        opt_view(config.require.ruby)
    } else if name == "java"@ {
        opt_view(config.require.java)
    } else {
        None
    }
}

fn clone_opt(o: &Option<String>) -> (r: Option<String>)
    ensures
        opt_view(r) == opt_view(*o),
{
    match o {
        Some(s) => Some(s.clone()),
        None => None,
    }
}

/// Look up an explicitly configured version requirement by tool name.
pub fn get_config_req(config: &VitalsConfig, name: &str) -> (r: Option<String>)
    ensures
        opt_view(r) == config_req_spec(config, name@),
{
    if str_eq(name, "node") {
        clone_opt(&config.require.node)
    } else if str_eq(name, "python") {
        clone_opt(&config.require.python)
    } else if str_eq(name, "rust") {
        clone_opt(&config.require.rust)
    } else if str_eq(name, "go") {
        clone_opt(&config.require.go)
    } else if str_eq(name, "ruby") {
        clone_opt(&config.require.ruby)
    } else if str_eq(name, "java") {
        clone_opt(&config.require.java)
    } else {
        None
    }
}

/// The upgrade suggestion for a tool that is installed but too old.
pub open spec fn upgrade_hint_spec(name: Seq<char>, required: Seq<char>) -> Seq<char> {
    if name == "node"@ {
        "nvm install "@ + required + " (or update Node.js)"@
    } else if name == "python"@ {
        "pyenv install "@ + required + " (or update Python)"@
    } else if name == "rust"@ {
        "rustup update stable"@
    } else if name == "go"@ {
        "update Go to "@ + required
    } else {
        "update "@ + name + " to "@ + required
    }
}

/// Suggest how to bring a tool up to the required version.
pub fn upgrade_hint(name: &str, required: &str) -> (r: String)
    ensures
        r@ == upgrade_hint_spec(name@, required@),
{
    if str_eq(name, "node") {
        let mut r = String::from_str("nvm install ");
        r.append(required);
        r.append(" (or update Node.js)");
        r
    } else if str_eq(name, "python") {
        let mut r = String::from_str("pyenv install ");
        r.append(required);
        r.append(" (or update Python)");
        r
    } else if str_eq(name, "rust") {
        String::from_str("rustup update stable")
    } else if str_eq(name, "go") {
        let mut r = String::from_str("update Go to ");
        r.append(required);
        r
    } else {
        let mut r = String::from_str("update ");
        r.append(name);
        r.append(" to ");
        r.append(required);
        r
    }
}

/// The effective constraint: configuration overrides detection.
pub open spec fn effective_req(
    config: &VitalsConfig,
    name: Seq<char>,
    detected: Option<Seq<char>>,
) -> Option<Seq<char>> {
    match config_req_spec(config, name) {
        Some(c) => Some(c),
        None => detected,
    }
}

pub open spec fn expected_label(vr: Seq<char>, source: Seq<char>) -> Seq<char> {
    vr + " ("@ + source + ")"@
}

/// `out` is exactly the runtime report: one outcome per detected runtime,
/// pass and fail decided by the found version against the effective
/// constraint under semver range matching.
pub open spec fn runtime_results_ok(
    runtimes: Seq<(Seq<char>, Option<Seq<char>>, Seq<char>)>,
    config: &VitalsConfig,
    platform: Platform,
    found: Seq<Option<Seq<char>>>,
    out: Seq<CheckResult>,
) -> bool {
    out.len() == runtimes.len() && forall|i: int|
        0 <= i < out.len() ==> {
            let o = #[trigger] out[i];
            let name = runtimes[i].0;
            let source = runtimes[i].2;
            let vr = effective_req(config, name, runtimes[i].1);
            o.category@ == "Runtime"@ && o.name@ == name && o.details@.len() == 0 && match found[i] {
                Some(ver) => match vr {
                    Some(c) => {
                        let ok = semver_accepts(req_norm_spec(c), norm_ver_spec(ver));
                        o.found@ == "v"@ + ver && o.expected@ == expected_label(c, source) && if ok {
                            o.status == Status::Pass && o.fix is None
                        } else {
                            o.status == Status::Fail && opt_view(o.fix) == Some(
                                upgrade_hint_spec(name, c),
                            )
                        }
                    },
                    None => o.status == Status::Pass && o.found@ == "v"@ + ver && o.expected@
                        == "installed"@ && o.fix is None,
                },
                None => o.status == Status::Fail && o.found@ == "not found"@ && o.expected@
                    == (match vr {
                    Some(c) => expected_label(c, source),
                    None => "installed"@,
                }) && opt_view(o.fix) == Some(install_hint_spec(platform, name)),
            }
        }
}

fn vee_label(ver: &str) -> (r: String)
    ensures
        r@ == "v"@ + ver@,
{
    let mut r = String::from_str("v");
    r.append(ver);
    r
}

fn expected_of(vr: &str, source: &str) -> (r: String)
    ensures
        r@ == expected_label(vr@, source@),
{
    let mut r = String::from_str(vr);
    r.append(" (");
    r.append(source);
    r.append(")");
    r
}

/// Check each detected runtime against its effective constraint, given the
/// version (if any) the application's probes found for it.
pub fn check(
    ctx: &ProjectContext,
    config: &VitalsConfig,
    platform: &Platform,
    found: &Vec<Option<String>>,
) -> (results: Vec<CheckResult>)
    requires
        found@.len() == ctx.runtimes@.len(),
    ensures
        runtime_results_ok(
            crate::detect::rt_view(ctx.runtimes@),
            config,
            *platform,
            outs_view(found@),
            results@,
        ),
{
    let ghost rts = crate::detect::rt_view(ctx.runtimes@);
    let ghost fnd = outs_view(found@);
    let mut results: Vec<CheckResult> = Vec::new();
    let mut i: usize = 0;
    while i < ctx.runtimes.len()
        invariant
            0 <= i <= ctx.runtimes@.len(),
            found@.len() == ctx.runtimes@.len(),
            rts == crate::detect::rt_view(ctx.runtimes@),
            fnd == outs_view(found@),
            results@.len() == i,
            runtime_results_ok(
                rts.take(i as int),
                config,
                *platform,
                fnd.take(i as int),
                results@,
            ),
        decreases ctx.runtimes@.len() - i,
    {
        let req = &ctx.runtimes[i];
        let version_req: Option<String> = match get_config_req(config, req.name.as_str()) {
            Some(c) => Some(c),
            None => clone_opt(&req.version_req),
        };
        match &found[i] {
            Some(ver) => {
                match &version_req {
                    Some(c) => {
                        let ok = crate::version::meets_requirement(ver.as_str(), c.as_str());
                        if ok {
                            results.push(
                                CheckResult {
                                    category: String::from_str("Runtime"),
                                    name: req.name.clone(),
                                    status: Status::Pass,
                                    found: vee_label(ver.as_str()),
                                    expected: expected_of(c.as_str(), req.source.as_str()),
                                    fix: None,
                                    details: Vec::new(),
                                },
                            );
                        } else {
                            results.push(
                                CheckResult {
                                    category: String::from_str("Runtime"),
                                    name: req.name.clone(),
                                    status: Status::Fail,
                                    found: vee_label(ver.as_str()),
                                    expected: expected_of(c.as_str(), req.source.as_str()),
                                    fix: Some(upgrade_hint(req.name.as_str(), c.as_str())),
                                    details: Vec::new(),
                                },
                            );
                        }
                    },
                    None => {
                        results.push(
                            CheckResult {
                                category: String::from_str("Runtime"),
                                name: req.name.clone(),
                                status: Status::Pass,
                                found: vee_label(ver.as_str()),
                                expected: String::from_str("installed"),
                                fix: None,
                                details: Vec::new(),
                            },
                        );
                    },
                }
            },
            None => {
                let expected: String = match &version_req {
                    Some(c) => expected_of(c.as_str(), req.source.as_str()),
                    None => String::from_str("installed"),
                };
                results.push(
                    CheckResult {
                        category: String::from_str("Runtime"),
                        name: req.name.clone(),
                        status: Status::Fail,
                        found: String::from_str("not found"),
                        expected,
                        fix: Some(platform.install_hint(req.name.as_str())),
                        details: Vec::new(),
                    },
                );
            },
        }
        i = i + 1;
        proof {
            assert(forall|k: int| 0 <= k < i ==> rts.take(i as int)[k] == #[trigger] rts[k]);
            assert(forall|k: int| 0 <= k < i ==> fnd.take(i as int)[k] == #[trigger] fnd[k]);
            assert(rt_ok_at(rts, config, *platform, fnd, results@, i - 1));
        }
    }
    proof {
        assert(rts.take(rts.len() as int) =~= rts);
        assert(fnd.take(fnd.len() as int) =~= fnd);
    }
    results
}

/// The body of `runtime_results_ok` at one index, for stepwise proofs.
pub open spec fn rt_ok_at(
    runtimes: Seq<(Seq<char>, Option<Seq<char>>, Seq<char>)>,
    config: &VitalsConfig,
    platform: Platform,
    found: Seq<Option<Seq<char>>>,
    out: Seq<CheckResult>,
    i: int,
) -> bool {
    let o = out[i];
    let name = runtimes[i].0;
    let source = runtimes[i].2;
    let vr = effective_req(config, name, runtimes[i].1);
    o.category@ == "Runtime"@ && o.name@ == name && o.details@.len() == 0 && match found[i] {
        Some(ver) => match vr {
            Some(c) => {
                let ok = semver_accepts(req_norm_spec(c), norm_ver_spec(ver));
                o.found@ == "v"@ + ver && o.expected@ == expected_label(c, source) && if ok {
                    o.status == Status::Pass && o.fix is None
                } else {
                    o.status == Status::Fail && opt_view(o.fix) == Some(upgrade_hint_spec(name, c))
                }
            },
            None => o.status == Status::Pass && o.found@ == "v"@ + ver && o.expected@
                == "installed"@ && o.fix is None,
        },
        None => o.status == Status::Fail && o.found@ == "not found"@ && o.expected@ == (match vr {
            Some(c) => expected_label(c, source),
            None => "installed"@,
        }) && opt_view(o.fix) == Some(install_hint_spec(platform, name)),
    }
}

} // verus!
