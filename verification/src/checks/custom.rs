//! Custom command checks: each configured command either exited zero
//! (Pass) or failed, with its exit status and up to three lines of its
//! error output as detail. Running the commands is the surrounding
//! application's job; the outcome text is built here.

use vstd::prelude::*;

use crate::check::{CheckResult, Status};
use crate::config::VitalsConfig;
use crate::text::{i32_to_string, int_dec_str, lines_spec, lines_vec, opt_view, trim, trim_seq};

verus! {

/// What the application observed of one executed command.
#[derive(Debug, Clone)]
pub struct CmdOutcome {
    /// The command could be spawned at all.
    pub executed: bool,
    /// It exited with status zero.
    pub success: bool,
    /// Its exit code, when one was reported.
    pub code: Option<i32>,
    pub stdout: String,
    pub stderr: String,
}

/// The detail lines a failing command contributes: up to three lines of
/// its trimmed stderr, or of its trimmed stdout when stderr is empty.
pub open spec fn failure_details(stdout: Seq<char>, stderr: Seq<char>) -> Seq<Seq<char>> {
    let detail = if trim_seq(stderr).len() == 0 {
        trim_seq(stdout)
    } else {
        trim_seq(stderr)
    };
    if detail.len() == 0 {
        Seq::<Seq<char>>::empty()
    } else {
        let ls = lines_spec(detail);
        if ls.len() <= 3 {
            ls
        } else {
            ls.take(3)
        }
    }
}

pub open spec fn exit_label(code: Option<i32>) -> Seq<char> {
    "exit "@ + int_dec_str(
        match code {
            Some(c) => c as int,
            None => -1,
        },
    )
}

/// `out` is exactly the command report: one outcome per configured
/// command, in order.
pub open spec fn custom_results_ok(
    commands: Seq<crate::config::CommandConfig>,
    obs: Seq<CmdOutcome>,
    out: Seq<CheckResult>,
) -> bool {
    out.len() == commands.len() && forall|i: int|
        0 <= i < out.len() ==> {
            let o = #[trigger] out[i];
            let ob = obs[i];
            o.category@ == "Commands"@ && o.name@ == commands[i].name@ && o.expected@
                == "exit 0"@ && if ob.executed && ob.success {
                o.status == Status::Pass && o.found@ == "passed"@ && o.fix is None
                    && o.details@.len() == 0
            } else if ob.executed {
                o.status == Status::Fail && o.found@ == exit_label(ob.code) && opt_view(o.fix)
                    == Some("run: "@ + commands[i].run@) && o.details.deep_view()
                    == failure_details(ob.stdout@, ob.stderr@)
            } else {
                o.status == Status::Fail && o.found@ == "failed to execute"@ && opt_view(o.fix)
                    == Some("check command: "@ + commands[i].run@) && o.details@.len() == 0
            }
        }
}

fn prefixed(prefix: &str, tail: &str) -> (r: String)
    ensures
        r@ == prefix@ + tail@,
{
    let mut r = String::from_str(prefix);
    r.append(tail);
    r
}

fn failure_detail_lines(stdout: &str, stderr: &str) -> (r: Vec<String>)
    ensures
        r.deep_view() == failure_details(stdout@, stderr@),
{
    let te = trim(stderr);
    let detail: &str = if te.is_empty() {
        trim(stdout)
    } else {
        te
    };
    let mut r: Vec<String> = Vec::new();
    if detail.is_empty() {
        proof {
            assert(r.deep_view() =~= failure_details(stdout@, stderr@));
        }
        return r;
    }
    let ls = lines_vec(detail);
    let limit: usize = if ls.len() <= 3 {
        ls.len()
    } else {
        3
    };
    let mut i: usize = 0;
    while i < limit
        invariant
            0 <= i <= limit <= ls.deep_view().len(),
            ls.deep_view() == lines_spec(detail@),
            r.deep_view() =~= lines_spec(detail@).take(limit as int).take(i as int),
        decreases limit - i,
    {
        let ghost old_dv = r.deep_view();
        r.push(ls[i].clone());
        i = i + 1;
        proof {
            assert(r.deep_view() =~= old_dv.push(ls.deep_view()[i - 1]));
            assert(r.deep_view() =~= lines_spec(detail@).take(limit as int).take(i as int));
        }
    }
    proof {
        let full = lines_spec(detail@);
        assert(full.take(limit as int).take(limit as int) =~= full.take(limit as int));
        if full.len() <= 3 {
            assert(full.take(limit as int) =~= full);
        }
        assert(r.deep_view() =~= failure_details(stdout@, stderr@));
    }
    r
}

pub fn check(config: &VitalsConfig, obs: &Vec<CmdOutcome>) -> (results: Vec<CheckResult>)
    requires
        obs@.len() == config.commands@.len(),
    ensures
        custom_results_ok(config.commands@, obs@, results@),
{
    let mut results: Vec<CheckResult> = Vec::new();
    let mut i: usize = 0;
    while i < config.commands.len()
        invariant
            0 <= i <= config.commands@.len(),
            obs@.len() == config.commands@.len(),
            results@.len() == i,
            custom_results_ok(config.commands@.take(i as int), obs@.take(i as int), results@),
        decreases config.commands@.len() - i,
    {
        let cmd = &config.commands[i];
        let ob = &obs[i];
        if ob.executed && ob.success {
            results.push(
                CheckResult {
                    category: String::from_str("Commands"),
                    name: cmd.name.clone(),
                    status: Status::Pass,
                    found: String::from_str("passed"),
                    expected: String::from_str("exit 0"),
                    fix: None,
                    details: Vec::new(),
                },
            );
        } else if ob.executed {
            let code: i32 = match ob.code {
                Some(c) => c,
                None => -1,
            };
            let code_str = i32_to_string(code);
            results.push(
                CheckResult {
                    category: String::from_str("Commands"),
                    name: cmd.name.clone(),
                    status: Status::Fail,
                    found: prefixed("exit ", code_str.as_str()),
                    expected: String::from_str("exit 0"),
                    fix: Some(prefixed("run: ", cmd.run.as_str())),
                    details: failure_detail_lines(ob.stdout.as_str(), ob.stderr.as_str()),
                },
            );
        } else {
            results.push(
                CheckResult {
                    category: String::from_str("Commands"),
                    name: cmd.name.clone(),
                    status: Status::Fail,
                    found: String::from_str("failed to execute"),
                    expected: String::from_str("exit 0"),
                    fix: Some(prefixed("check command: ", cmd.run.as_str())),
                    details: Vec::new(),
                },
            );
        }
        i = i + 1;
        proof {
            assert(forall|k: int|
                0 <= k < i ==> config.commands@.take(i as int)[k] == #[trigger] config.commands@[k]);
            assert(forall|k: int| 0 <= k < i ==> obs@.take(i as int)[k] == #[trigger] obs@[k]);
        }
    }
    proof {
        assert(config.commands@.take(config.commands@.len() as int) =~= config.commands@);
        assert(obs@.take(obs@.len() as int) =~= obs@);
    }
    results
}

} // verus!
