//! Port checks: the configured ports, deduplicated, sorted and with
//! service-covered ports removed, are each probed for bind-availability by
//! the surrounding application; an occupied port fails, naming the owning
//! process when a process listing reveals it.

use vstd::prelude::*;

use crate::check::{CheckResult, Status};
use crate::config::VitalsConfig;
use crate::detect::{ports_of, ProjectContext};
use crate::text::{
    dec_str, is_space, lemma_prefix_len, lines_spec, lines_vec, opt_view, prefix_len, space_pred,
    u64_to_string,
};

verus! {

/// The ports to probe: the configured list, deduplicated and sorted
/// ascending, with ports already covered by a service requirement removed —
/// a port correctly occupied by the very service being checked must not
/// fail as unavailable.
pub fn ports_to_check(ctx: &ProjectContext, config: &VitalsConfig) -> (r: Vec<u16>)
    ensures
        forall|i: int, j: int| 0 <= i < j < r@.len() ==> r@[i] < r@[j],
        forall|x: u16|
            #[trigger] r@.contains(x) <==> (config.ports.check@.contains(x) && !ports_of(
                ctx.services@,
            ).contains(x)),
{
    let mut out: Vec<u16> = Vec::new();
    let mut i: usize = 0;
    proof {
        assert(forall|x: u16| !config.ports.check@.take(0).contains(x));
    }
    while i < config.ports.check.len()
        invariant
            0 <= i <= config.ports.check@.len(),
            forall|a: int, b: int| 0 <= a < b < out@.len() ==> out@[a] < out@[b],
            forall|x: u16|
                #[trigger] out@.contains(x) <==> (config.ports.check@.take(i as int).contains(x)
                    && !ports_of(ctx.services@).contains(x)),
        decreases config.ports.check@.len() - i,
    {
        let p = config.ports.check[i];
        proof {
            assert(config.ports.check@.take(i + 1).drop_last() =~= config.ports.check@.take(
                i as int,
            ));
            assert(forall|x: u16|
                #[trigger] config.ports.check@.take(i + 1).contains(x) <==> (
                config.ports.check@.take(i as int).contains(x) || x == p)) by {
                assert(forall|k: int|
                    0 <= k < i ==> config.ports.check@.take(i + 1)[k] == #[trigger] config.ports.check@.take(i as int)[k]);
                assert(config.ports.check@.take(i + 1)[i as int] == p);
            }
            assert(config.ports.check@.take(i + 1).contains(p));
        }
        let mut is_svc = false;
        let mut s: usize = 0;
        while s < ctx.services.len()
            invariant
                0 <= s <= ctx.services@.len(),
                is_svc == exists|k: int| 0 <= k < s && ports_of(ctx.services@)[k] == p,
            decreases ctx.services@.len() - s,
        {
            if ctx.services[s].port == p {
                proof {
                    assert(ports_of(ctx.services@)[s as int] == p);
                }
                is_svc = true;
            }
            s = s + 1;
        }
        proof {
            assert(is_svc == ports_of(ctx.services@).contains(p));
        }
        let mut present = false;
        let mut t: usize = 0;
        while t < out.len()
            invariant
                0 <= t <= out@.len(),
                present == exists|k: int| 0 <= k < t && out@[k] == p,
            decreases out@.len() - t,
        {
            if out[t] == p {
                present = true;
            }
            t = t + 1;
        }
        proof {
            assert(present == out@.contains(p));
        }
        if !is_svc && !present {
            let mut pos: usize = 0;
            while pos < out.len() && out[pos] < p
                invariant
                    0 <= pos <= out@.len(),
                    forall|k: int| 0 <= k < pos ==> out@[k] < p,
                decreases out@.len() - pos,
            {
                pos = pos + 1;
            }
            proof {
                assert(pos < out@.len() ==> out@[pos as int] > p) by {
                    if pos < out@.len() && out@[pos as int] == p {
                        assert(out@.contains(p));
                    }
                }
            }
            let ghost old_out = out@;
            out.insert(pos, p);
            proof {
                assert(forall|k: int| 0 <= k < pos ==> out@[k] == old_out[k]);
                assert(forall|k: int| pos < k < out@.len() ==> out@[k] == old_out[k - 1]);
                assert(out@[pos as int] == p);
                assert(forall|x: u16| #[trigger] old_out.contains(x) ==> out@.contains(x)) by {
                    assert(forall|k: int|
                        0 <= k < old_out.len() ==> out@.contains(#[trigger] old_out[k])) by {
                        assert(forall|k: int|
                            0 <= k < old_out.len() ==> old_out[k] == (if k < pos {
                                out@[k]
                            } else {
                                out@[k + 1]
                            }));
                    }
                }
                assert(forall|x: u16| #[trigger] out@.contains(x) ==> (old_out.contains(x) || x == p)) by {
                    assert(forall|k: int|
                        0 <= k < out@.len() ==> (#[trigger] out@[k] == p || old_out.contains(
                            out@[k],
                        ))) by {
                        assert(forall|k: int|
                            0 <= k < out@.len() && k < pos ==> old_out[k] == #[trigger] out@[k]);
                        assert(forall|k: int|
                            0 <= k < out@.len() && k > pos ==> old_out[k - 1] == #[trigger] out@[k]);
                    }
                }
                assert(forall|x: u16| #[trigger] out@.contains(x) <==> (old_out.contains(x) || x == p));
            }
        }
        proof {
            let svcp = ports_of(ctx.services@);
            let t1 = config.ports.check@.take(i + 1);
            assert forall|x: u16| out@.contains(x) <==> (t1.contains(x) && !svcp.contains(x)) by {
                if x == p {
                    assert(t1.contains(p));
                    if is_svc {
                        assert(!out@.contains(p));
                    } else {
                        assert(out@.contains(p));
                    }
                }
            }
        }
        i = i + 1;
    }
    proof {
        assert(config.ports.check@.take(config.ports.check@.len() as int) =~= config.ports.check@);
    }
    out
}

// ── Parsing a process listing ───────────────────────────────────────────────

pub open spec fn nonspace_pred() -> spec_fn(char) -> bool {
    |c: char| !is_space(c)
}

pub open spec fn nonparen_pred() -> spec_fn(char) -> bool {
    |c: char| c != ')'
}

/// The first two whitespace-separated tokens of a line, when it has at
/// least two.
pub open spec fn two_tokens(l: Seq<char>) -> Option<(Seq<char>, Seq<char>)> {
    let a = prefix_len(l, space_pred());
    let b = a + prefix_len(l.skip(a), nonspace_pred());
    let c = b + prefix_len(l.skip(b), space_pred());
    let d = c + prefix_len(l.skip(c), nonspace_pred());
    if a < b && c < d {
        Some((l.subrange(a, b), l.subrange(c, d)))
    } else {
        None
    }
}

pub open spec fn proc_search(ls: Seq<Seq<char>>) -> Option<(Seq<char>, Seq<char>)>
    decreases ls.len(),
{
    if ls.len() == 0 {
        None
    } else {
        match two_tokens(ls[0]) {
            Some(t) => Some(t),
            None => proc_search(ls.skip(1)),
        }
    }
}

/// The command and identifier columns of the first entry of a process
/// listing, skipping its header line.
pub open spec fn process_of_listing(output: Seq<char>) -> Option<(Seq<char>, Seq<char>)> {
    let ls = lines_spec(output);
    if ls.len() <= 1 {
        None
    } else {
        proc_search(ls.skip(1))
    }
}

fn skip_spaces(l: &str, from: usize) -> (j: usize)
    requires
        from <= l@.len(),
    ensures
        j == from + prefix_len(l@.skip(from as int), space_pred()),
        from <= j <= l@.len(),
        j < l@.len() ==> !is_space(l@[j as int]),
{
    let n = l.unicode_len();
    let mut j: usize = from;
    while j < n && crate::text::space_char(l.get_char(j))
        invariant
            from <= j <= n,
            n == l@.len(),
            forall|k: int| from <= k < j ==> is_space(#[trigger] l@[k]),
        decreases n - j,
    {
        j = j + 1;
    }
    proof {
        assert(forall|k: int|
            0 <= k < j - from ==> is_space(#[trigger] l@.skip(from as int)[k]) == is_space(
                l@[k + from],
            ));
        lemma_prefix_len(l@.skip(from as int), space_pred(), j - from);
    }
    j
}

fn skip_nonspaces(l: &str, from: usize) -> (j: usize)
    requires
        from <= l@.len(),
    ensures
        j == from + prefix_len(l@.skip(from as int), nonspace_pred()),
        from <= j <= l@.len(),
{
    let n = l.unicode_len();
    let mut j: usize = from;
    while j < n && !crate::text::space_char(l.get_char(j))
        invariant
            from <= j <= n,
            n == l@.len(),
            forall|k: int| from <= k < j ==> !is_space(#[trigger] l@[k]),
        decreases n - j,
    {
        j = j + 1;
    }
    proof {
        assert(forall|k: int|
            0 <= k < j - from ==> is_space(#[trigger] l@.skip(from as int)[k]) == is_space(
                l@[k + from],
            ));
        lemma_prefix_len(l@.skip(from as int), nonspace_pred(), j - from);
    }
    j
}

fn line_two_tokens(l: &str) -> (r: Option<(String, String)>)
    ensures
        match r {
            Some(t) => two_tokens(l@) == Some((t.0@, t.1@)),
            None => two_tokens(l@) is None,
        },
{
    let a = skip_spaces(l, 0);
    let b = skip_nonspaces(l, a);
    let c = skip_spaces(l, b);
    let d = skip_nonspaces(l, c);
    proof {
        assert(l@.skip(0) =~= l@);
    }
    if a < b && c < d {
        let t0 = l.substring_char(a, b);
        let t1 = l.substring_char(c, d);
        Some((String::from_str(t0), String::from_str(t1)))
    } else {
        None
    }
}

/// Extract `NAME (PID N)` for the process a listing's first entry names,
/// if the listing has one past its header.
pub fn find_process_on_port(output: &str) -> (r: Option<String>)
    ensures
        match process_of_listing(output@) {
            Some(t) => r matches Some(s) && s@ == t.0 + " (PID "@ + t.1 + ")"@,
            None => r is None,
        },
{
    let ls = lines_vec(output);
    let ghost all = lines_spec(output@);
    if ls.len() <= 1 {
        return None;
    }
    let mut i: usize = 1;
    proof {
        assert(all.skip(1).skip(0) =~= all.skip(1));
    }
    while i < ls.len()
        invariant
            1 <= i <= ls.deep_view().len(),
            ls.deep_view() == all,
            all == lines_spec(output@),
            all.len() > 1,
            proc_search(all.skip(1)) == proc_search(all.skip(i as int)),
        decreases ls.len() - i,
    {
        proof {
            assert(all.skip(i as int)[0] == all[i as int]);
            assert(all.skip(i as int).skip(1) =~= all.skip(i + 1));
        }
        if let Some(t) = line_two_tokens(ls[i].as_str()) {
            let ghost t0v = t.0@;
            let ghost t1v = t.1@;
            proof {
                assert(proc_search(all.skip(i as int)) == Some((t0v, t1v)));
            }
            let mut s = t.0;
            s.append(" (PID ");
            s.append(t.1.as_str());
            s.append(")");
            proof {
                assert(s@ == t0v + " (PID "@ + t1v + ")"@);
            }
            return Some(s);
        }
        i = i + 1;
    }
    proof {
        assert(all.skip(all.len() as int) =~= Seq::<Seq<char>>::empty());
    }
    None
}

// ── Port probes and outcomes ────────────────────────────────────────────────

/// What the application observed of one port: whether a listening socket
/// could be bound, and the raw process listing gathered when it could not.
#[derive(Debug, Clone)]
pub struct PortProbe {
    pub port: u16,
    pub available: bool,
    pub listing: Option<String>,
}

/// The identifier the fix command uses: the second token up to its first
/// closing parenthesis.
pub open spec fn pid_digits(t: Seq<char>) -> Seq<char> {
    t.subrange(0, prefix_len(t, nonparen_pred()))
}

pub open spec fn probe_tokens(p: PortProbe) -> Option<(Seq<char>, Seq<char>)> {
    match p.listing {
        Some(o) => process_of_listing(o@),
        None => None,
    }
}

/// `out` is exactly the port report, one outcome per probe.
pub open spec fn port_results_ok(probes: Seq<PortProbe>, out: Seq<CheckResult>) -> bool {
    out.len() == probes.len() && forall|i: int|
        0 <= i < out.len() ==> {
            let o = #[trigger] out[i];
            let p = probes[i];
            o.category@ == "Ports"@ && o.name@ == ":"@ + dec_str(p.port as nat) && o.expected@
                == "available"@ && o.details@.len() == 0 && if p.available {
                o.status == Status::Pass && o.found@ == "available"@ && o.fix is None
            } else {
                o.status == Status::Fail && match probe_tokens(p) {
                    Some(t) => o.found@ == "in use by "@ + t.0 + " (PID "@ + t.1 + ")"@
                        && opt_view(o.fix) == Some("kill "@ + pid_digits(t.1)),
                    None => o.found@ == "in use"@ && opt_view(o.fix) == Some(
                        "lsof -i :"@ + dec_str(p.port as nat) + " to find the process"@,
                    ),
                }
            }
        }
}

fn pid_of_token(t: &str) -> (r: &str)
    ensures
        r@ == pid_digits(t@),
{
    let n = t.unicode_len();
    let mut j: usize = 0;
    while j < n && t.get_char(j) != ')'
        invariant
            0 <= j <= n,
            n == t@.len(),
            forall|k: int| 0 <= k < j ==> t@[k] != ')',
        decreases n - j,
    {
        j = j + 1;
    }
    proof {
        lemma_prefix_len(t@, nonparen_pred(), j as int);
    }
    t.substring_char(0, j)
}

pub fn check(probes: &Vec<PortProbe>) -> (results: Vec<CheckResult>)
    ensures
        port_results_ok(probes@, results@),
{
    let mut results: Vec<CheckResult> = Vec::new();
    let mut i: usize = 0;
    while i < probes.len()
        invariant
            0 <= i <= probes@.len(),
            results@.len() == i,
            port_results_ok(probes@.take(i as int), results@),
        decreases probes@.len() - i,
    {
        let p = &probes[i];
        let port_str = u64_to_string(p.port as u64);
        let mut name = String::from_str(":");
        name.append(port_str.as_str());
        if p.available {
            results.push(
                CheckResult {
                    category: String::from_str("Ports"),
                    name,
                    status: Status::Pass,
                    found: String::from_str("available"),
                    expected: String::from_str("available"),
                    fix: None,
                    details: Vec::new(),
                },
            );
        } else {
            let proc_tokens: Option<(String, String)> = match &p.listing {
                Some(o) => {
                    let ls = lines_vec(o.as_str());
                    let ghost all = lines_spec(o@);
                    if ls.len() <= 1 {
                        None
                    } else {
                        let mut k: usize = 1;
                        let mut found_t: Option<(String, String)> = None;
                        while k < ls.len() && found_t.is_none()
                            invariant
                                1 <= k <= ls.deep_view().len(),
                                ls.deep_view() == all,
                                all.len() > 1,
                                found_t is None ==> proc_search(all.skip(1)) == proc_search(
                                    all.skip(k as int),
                                ),
                                found_t matches Some(t) ==> proc_search(all.skip(1)) == Some(
                                    (t.0@, t.1@),
                                ),
                            decreases ls.len() - k,
                        {
                            proof {
                                assert(all.skip(k as int)[0] == all[k as int]);
                                assert(all.skip(k as int).skip(1) =~= all.skip(k + 1));
                            }
                            if let Some(t) = line_two_tokens(ls[k].as_str()) {
                                found_t = Some(t);
                            }
                            k = k + 1;
                        }
                        proof {
                            if found_t is None {
                                assert(all.skip(all.len() as int) =~= Seq::<Seq<char>>::empty());
                            }
                        }
                        found_t
                    }
                },
                None => None,
            };
            match proc_tokens {
                Some(t) => {
                    let mut found = String::from_str("in use by ");
                    found.append(t.0.as_str());
                    found.append(" (PID ");
                    found.append(t.1.as_str());
                    found.append(")");
                    let mut fix = String::from_str("kill ");
                    fix.append(pid_of_token(t.1.as_str()));
                    results.push(
                        CheckResult {
                            category: String::from_str("Ports"),
                            name,
                            status: Status::Fail,
                            found,
                            expected: String::from_str("available"),
                            fix: Some(fix),
                            details: Vec::new(),
                        },
                    );
                },
                None => {
                    let mut fix = String::from_str("lsof -i :");
                    fix.append(port_str.as_str());
                    fix.append(" to find the process");
                    results.push(
                        CheckResult {
                            category: String::from_str("Ports"),
                            name,
                            status: Status::Fail,
                            found: String::from_str("in use"),
                            expected: String::from_str("available"),
                            fix: Some(fix),
                            details: Vec::new(),
                        },
                    );
                },
            }
        }
        i = i + 1;
        proof {
            assert(forall|k: int|
                0 <= k < i ==> probes@.take(i as int)[k] == #[trigger] probes@[k]);
        }
    }
    proof {
        assert(probes@.take(probes@.len() as int) =~= probes@);
    }
    results
}

} // verus!
