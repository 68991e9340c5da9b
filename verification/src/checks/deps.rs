//! Dependency check: each detected ecosystem's dependency directory either
//! exists (Pass) or is missing (Fail, with the ecosystem's install command
//! as the fix).

use vstd::prelude::*;

use crate::check::{CheckResult, Status};
use crate::detect::ProjectContext;
use crate::text::opt_view;

verus! {

/// `out` is exactly the dependency report for `deps`: one outcome per
/// entry, Pass when the directory exists, Fail with the install command
/// otherwise.
pub open spec fn deps_results_ok(
    deps: Seq<crate::detect::DepsInfo>,
    out: Seq<CheckResult>,
) -> bool {
    out.len() == deps.len() && forall|i: int|
        0 <= i < out.len() ==> {
            let o = #[trigger] out[i];
            o.category@ == "Dependencies"@ && o.name@ == deps[i].name@ && o.expected@
                == "installed"@ && o.details@.len() == 0 && if deps[i].exists {
                o.status == Status::Pass && o.found@ == "installed"@ && o.fix is None
            } else {
                o.status == Status::Fail && o.found@ == "missing"@ && opt_view(o.fix) == Some(
                    deps[i].install_cmd@,
                )
            }
        }
}

pub fn check(ctx: &ProjectContext) -> (results: Vec<CheckResult>)
    ensures
        deps_results_ok(ctx.deps@, results@),
{
    let mut results: Vec<CheckResult> = Vec::new();
    let mut i: usize = 0;
    while i < ctx.deps.len()
        invariant
            0 <= i <= ctx.deps@.len(),
            results@.len() == i,
            deps_results_ok(ctx.deps@.take(i as int), results@),
        decreases ctx.deps@.len() - i,
    {
        let dep = &ctx.deps[i];
        if dep.exists {
            results.push(
                CheckResult {
                    category: String::from_str("Dependencies"),
                    name: dep.name.clone(),
                    status: Status::Pass,
                    found: String::from_str("installed"),
                    expected: String::from_str("installed"),
                    fix: None,
                    details: Vec::new(),
                },
            );
        } else {
            results.push(
                CheckResult {
                    category: String::from_str("Dependencies"),
                    name: dep.name.clone(),
                    status: Status::Fail,
                    found: String::from_str("missing"),
                    expected: String::from_str("installed"),
                    fix: Some(dep.install_cmd.clone()),
                    details: Vec::new(),
                },
            );
        }
        i = i + 1;
        proof {
            assert(forall|k: int|
                0 <= k < i ==> ctx.deps@.take(i as int)[k] == #[trigger] ctx.deps@[k]);
        }
    }
    proof {
        assert(ctx.deps@.take(ctx.deps@.len() as int) =~= ctx.deps@);
    }
    results
}

} // verus!
