//! Environment check: the expected key set is the detected example-file
//! keys united with the configured required keys; a missing `.env` file or
//! any missing key fails, with one detail line per missing key.

use vstd::prelude::*;

use crate::check::{CheckResult, Status};
use crate::config::VitalsConfig;
use crate::detect::ProjectContext;
use crate::text::{dec_str, opt_view, u64_to_string, vec_contains_str};

verus! {

/// `base` extended by those of `add` not already present, in order.
pub open spec fn merge_keys(base: Seq<Seq<char>>, add: Seq<Seq<char>>) -> Seq<Seq<char>>
    decreases add.len(),
{
    if add.len() == 0 {
        base
    } else {
        merge_keys(
            if base.contains(add[0]) {
                base
            } else {
                base.push(add[0])
            },
            add.skip(1),
        )
    }
}

/// The expected keys absent from `actual`, in expected order.
pub open spec fn missing_keys(expected: Seq<Seq<char>>, actual: Seq<Seq<char>>) -> Seq<Seq<char>>
    decreases expected.len(),
{
    if expected.len() == 0 {
        Seq::<Seq<char>>::empty()
    } else {
        let rest = missing_keys(expected.drop_last(), actual);
        if actual.contains(expected.last()) {
            rest
        } else {
            rest.push(expected.last())
        }
    }
}

/// `out` is exactly the environment report: nothing when nothing is
/// expected; a missing-file failure when `.env` is absent; otherwise a pass
/// or a missing-keys failure with one detail line per missing key.
pub open spec fn env_results_ok(
    expected0: Seq<Seq<char>>,
    cfg_required: Seq<Seq<char>>,
    env_file_present: bool,
    example_name: Option<Seq<char>>,
    actual: Seq<Seq<char>>,
    out: Seq<CheckResult>,
) -> bool {
    let expected = merge_keys(expected0, cfg_required);
    let missing = missing_keys(expected, actual);
    if expected.len() == 0 {
        out.len() == 0
    } else if !env_file_present {
        let ex_name = match example_name {
            Some(n) => n,
            None => ".env.example"@,
        };
        out.len() == 1 && {
            let o = out[0];
            o.category@ == "Environment"@ && o.name@ == ".env"@ && o.status == Status::Fail
                && o.found@ == "missing"@ && o.expected@ == "file exists"@ && opt_view(o.fix)
                == Some("cp "@ + ex_name + " .env"@) && o.details@.len() == 0
        }
    } else if missing.len() == 0 {
        out.len() == 1 && {
            let o = out[0];
            o.category@ == "Environment"@ && o.name@ == ".env"@ && o.status == Status::Pass
                && o.found@ == dec_str(actual.len()) + " keys"@ && o.expected@ == dec_str(
                expected.len(),
            ) + " required keys"@ && o.fix is None && o.details@.len() == 0
        }
    } else {
        out.len() == 1 && {
            let o = out[0];
            o.category@ == "Environment"@ && o.name@ == ".env"@ && o.status == Status::Fail
                && o.found@ == "missing "@ + dec_str(missing.len()) + (if missing.len() == 1 {
                " key"@
            } else {
                " keys"@
            }) && o.expected@ == dec_str(expected.len()) + " required keys"@ && opt_view(o.fix)
                == Some("add missing keys to .env"@) && o.details.deep_view() == Seq::new(
                missing.len(),
                |i: int| missing[i] + " — missing"@,
            )
        }
    }
}

fn count_phrase(n: u64, suffix: &str) -> (r: String)
    ensures
        r@ == dec_str(n as nat) + suffix@,
{
    let mut r = u64_to_string(n);
    r.append(suffix);
    r
}

pub fn check(ctx: &ProjectContext, config: &VitalsConfig) -> (results: Vec<CheckResult>)
    ensures
        env_results_ok(
            ctx.env.expected_keys.deep_view(),
            config.env.required.deep_view(),
            ctx.env.env_file is Some,
            opt_view(ctx.env.example_file),
            ctx.env.actual_keys.deep_view(),
            results@,
        ),
{
    let ghost expected0 = ctx.env.expected_keys.deep_view();
    let ghost cfg_required = config.env.required.deep_view();
    let ghost actual_v = ctx.env.actual_keys.deep_view();

    // Merge detected keys with configured required keys.
    let mut expected: Vec<String> = Vec::new();
    let mut i: usize = 0;
    while i < ctx.env.expected_keys.len()
        invariant
            0 <= i <= ctx.env.expected_keys@.len(),
            expected0 == ctx.env.expected_keys.deep_view(),
            expected.deep_view() =~= expected0.take(i as int),
        decreases ctx.env.expected_keys@.len() - i,
    {
        let ghost old_dv = expected.deep_view();
        expected.push(ctx.env.expected_keys[i].clone());
        i = i + 1;
        proof {
            assert(expected.deep_view() =~= old_dv.push(expected0[i - 1]));
            assert(expected.deep_view() =~= expected0.take(i as int));
        }
    }
    proof {
        assert(expected0.take(expected0.len() as int) =~= expected0);
        assert(cfg_required.skip(0) =~= cfg_required);
    }
    let mut j: usize = 0;
    while j < config.env.required.len()
        invariant
            0 <= j <= config.env.required@.len(),
            cfg_required == config.env.required.deep_view(),
            merge_keys(expected0, cfg_required) == merge_keys(
                expected.deep_view(),
                cfg_required.skip(j as int),
            ),
        decreases config.env.required@.len() - j,
    {
        let ghost old_dv = expected.deep_view();
        proof {
            assert(cfg_required.skip(j as int)[0] == cfg_required[j as int]);
            assert(cfg_required.skip(j as int).skip(1) =~= cfg_required.skip(j + 1));
        }
        let key = &config.env.required[j];
        if !vec_contains_str(&expected, key.as_str()) {
            expected.push(key.clone());
            proof {
                assert(expected.deep_view() =~= old_dv.push(cfg_required[j as int]));
            }
        }
        j = j + 1;
    }
    proof {
        assert(cfg_required.skip(cfg_required.len() as int) =~= Seq::<Seq<char>>::empty());
    }
    let ghost expected_v = expected.deep_view();

    let mut results: Vec<CheckResult> = Vec::new();
    if expected.len() == 0 {
        return results;
    }

    if ctx.env.env_file.is_none() {
        let example_name: &str = match &ctx.env.example_file {
            Some(p) => p.as_str(),
            None => ".env.example",
        };
        let mut fix = String::from_str("cp ");
        fix.append(example_name);
        fix.append(" .env");
        results.push(
            CheckResult {
                category: String::from_str("Environment"),
                name: String::from_str(".env"),
                status: Status::Fail,
                found: String::from_str("missing"),
                expected: String::from_str("file exists"),
                fix: Some(fix),
                details: Vec::new(),
            },
        );
        return results;
    }

    // Which expected keys are absent from the actual set?
    let mut missing: Vec<String> = Vec::new();
    let mut k: usize = 0;
    while k < expected.len()
        invariant
            0 <= k <= expected.deep_view().len(),
            expected_v == expected.deep_view(),
            actual_v == ctx.env.actual_keys.deep_view(),
            missing.deep_view() =~= missing_keys(expected_v.take(k as int), actual_v),
        decreases expected.deep_view().len() - k,
    {
        let ghost old_dv = missing.deep_view();
        proof {
            assert(expected_v.take(k + 1).drop_last() =~= expected_v.take(k as int));
            assert(expected_v.take(k + 1).last() == expected_v[k as int]);
        }
        if !vec_contains_str(&ctx.env.actual_keys, expected[k].as_str()) {
            missing.push(expected[k].clone());
            proof {
                assert(missing.deep_view() =~= old_dv.push(expected_v[k as int]));
            }
        }
        k = k + 1;
    }
    proof {
        assert(expected_v.take(expected_v.len() as int) =~= expected_v);
    }
    let ghost missing_v = missing.deep_view();

    if missing.len() == 0 {
        results.push(
            CheckResult {
                category: String::from_str("Environment"),
                name: String::from_str(".env"),
                status: Status::Pass,
                found: count_phrase(ctx.env.actual_keys.len() as u64, " keys"),
                expected: count_phrase(expected.len() as u64, " required keys"),
                fix: None,
                details: Vec::new(),
            },
        );
    } else {
        let mut found = String::from_str("missing ");
        let count = u64_to_string(missing.len() as u64);
        found.append(count.as_str());
        if missing.len() == 1 {
            found.append(" key");
        } else {
            found.append(" keys");
        }
        let mut details: Vec<String> = Vec::new();
        let mut d: usize = 0;
        while d < missing.len()
            invariant
                0 <= d <= missing.deep_view().len(),
                missing_v == missing.deep_view(),
                details.deep_view() =~= Seq::new(d as nat, |i: int| missing_v[i] + " — missing"@),
            decreases missing.deep_view().len() - d,
        {
            let ghost old_dv = details.deep_view();
            let mut line = missing[d].clone();
            line.append(" — missing");
            details.push(line);
            d = d + 1;
            proof {
                assert(details.deep_view() =~= old_dv.push(missing_v[d - 1] + " — missing"@));
                assert(details.deep_view() =~= Seq::new(
                    d as nat,
                    |i: int| missing_v[i] + " — missing"@,
                ));
            }
        }
        results.push(
            CheckResult {
                category: String::from_str("Environment"),
                name: String::from_str(".env"),
                status: Status::Fail,
                found,
                expected: count_phrase(expected.len() as u64, " required keys"),
                fix: Some(String::from_str("add missing keys to .env")),
                details,
            },
        );
    }
    results
}

} // verus!
