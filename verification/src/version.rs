//! Version-string handling: extracting a version number from probe output,
//! normalizing versions and requirement strings, and evaluating a found
//! version against a requirement.
//!
//! A bare requirement is shorthand for a compatible range: `"20"` admits
//! `[20.0.0, 21.0.0)`, `"20.10"` admits `[20.10.0, 20.11.0)`, and `"20.10.1"`
//! admits `>=20.10.1`. Strings already carrying a comparison operator or a
//! comma are passed through unchanged.

use vstd::prelude::*;

use crate::text::{
    all_digits, contains_char, dec_digit, dec_str, digit_char, digit_pred, digit_run_end,
    digit_val, is_digit, lemma_prefix_len, lemma_prefix_len_bounds, lemma_prefix_len_chars,
    lemma_split_char_len, lemma_suffix_start, parse_u64, parse_u64_spec, prefix_len, push_char,
    run_end, seq_num, space_pred, split_char, split_str, str_skip, trim, trim_seq, u64_to_string,
};

verus! {

// ── Version triples and ranges ──────────────────────────────────────────────

pub open spec fn fits3(t: (nat, nat, nat)) -> bool {
    t.0 <= u64::MAX && t.1 <= u64::MAX && t.2 <= u64::MAX
}

pub open spec fn fits_hi(h: Option<(nat, nat, nat)>) -> bool {
    match h {
        Some(t) => fits3(t),
        None => true,
    }
}

/// `a <= b` in major-then-minor-then-patch precedence order.
pub open spec fn triple_le(a: (nat, nat, nat), b: (nat, nat, nat)) -> bool {
    a.0 < b.0 || (a.0 == b.0 && (a.1 < b.1 || (a.1 == b.1 && a.2 <= b.2)))
}

pub open spec fn triple_lt(a: (nat, nat, nat), b: (nat, nat, nat)) -> bool {
    triple_le(a, b) && a != b
}

/// The canonical `X.Y.Z` rendering of a version triple.
pub open spec fn triple_str(t: (nat, nat, nat)) -> Seq<char> {
    dec_str(t.0) + seq!['.'] + dec_str(t.1) + seq!['.'] + dec_str(t.2)
}

/// The canonical rendering of a lower bound with an optional exclusive
/// upper bound: `>=A.B.C` or `>=A.B.C, <D.E.F`.
pub open spec fn range_str(lo: (nat, nat, nat), hi: Option<(nat, nat, nat)>) -> Seq<char> {
    match hi {
        None => seq!['>', '='] + triple_str(lo),
        Some(h) => seq!['>', '='] + triple_str(lo) + seq![',', ' ', '<'] + triple_str(h),
    }
}

/// Membership of version `v` in the range `[lo, hi)` (or `[lo, ∞)`).
pub open spec fn range_sat(lo: (nat, nat, nat), hi: Option<(nat, nat, nat)>, v: (nat, nat, nat)) -> bool {
    triple_le(lo, v) && match hi {
        None => true,
        Some(h) => triple_lt(v, h),
    }
}

// ── Version normalization ───────────────────────────────────────────────────

pub open spec fn vee_pred() -> spec_fn(char) -> bool {
    |c: char| c == 'v' || c == 'V'
}

/// `s` with every leading `v` or `V` removed.
pub open spec fn strip_vees(s: Seq<char>) -> Seq<char> {
    s.skip(prefix_len(s, vee_pred()))
}

/// What `normalize_version` returns: trim, strip a `v`/`V` prefix, then pad
/// or cut the dot-separated parts to exactly three.
pub open spec fn norm_ver_spec(s: Seq<char>) -> Seq<char> {
    let parts = split_char(strip_vees(trim_seq(s)), '.');
    if parts.len() == 1 {
        parts[0] + seq!['.', '0', '.', '0']
    } else if parts.len() == 2 {
        parts[0] + seq!['.'] + parts[1] + seq!['.', '0']
    } else {
        parts[0] + seq!['.'] + parts[1] + seq!['.'] + parts[2]
    }
}

fn vee_char(c: char) -> (r: bool)
    ensures
        r == (c == 'v' || c == 'V'),
{
    c == 'v' || c == 'V'
}

fn strip_vees_exec(s: &str) -> (r: &str)
    ensures
        r@ == strip_vees(s@),
{
    let n = s.unicode_len();
    let mut k: usize = 0;
    while k < n && vee_char(s.get_char(k))
        invariant
            0 <= k <= n,
            n == s@.len(),
            forall|j: int| 0 <= j < k ==> s@[j] == 'v' || #[trigger] s@[j] == 'V',
        decreases n - k,
    {
        k = k + 1;
    }
    proof {
        lemma_prefix_len(s@, vee_pred(), k as int);
    }
    str_skip(s, k)
}

/// Normalize a version string to `X.Y.Z` form: strip whitespace and a
/// leading `v`/`V`, pad missing minor/patch parts with `0`, and drop any
/// parts beyond the third.
pub fn normalize_version(v: &str) -> (r: String)
    ensures
        r@ == norm_ver_spec(v@),
{
    let t = trim(v);
    let w = strip_vees_exec(t);
    let parts = split_str(w, '.');
    let mut r = String::new();
    r.append(parts[0].as_str());
    if parts.len() == 1 {
        push_char(&mut r, '.');
        push_char(&mut r, '0');
        push_char(&mut r, '.');
        push_char(&mut r, '0');
    } else if parts.len() == 2 {
        push_char(&mut r, '.');
        r.append(parts[1].as_str());
        push_char(&mut r, '.');
        push_char(&mut r, '0');
    } else {
        push_char(&mut r, '.');
        r.append(parts[1].as_str());
        push_char(&mut r, '.');
        r.append(parts[2].as_str());
    }
    proof {
        assert(r@ =~= norm_ver_spec(v@));
    }
    r
}

// ── Requirement normalization ───────────────────────────────────────────────

/// A requirement already carrying an explicit operator or a range comma is
/// used as it stands.
pub open spec fn op_passthrough(s: Seq<char>) -> bool {
    (s.len() > 0 && (s[0] == '>' || s[0] == '<' || s[0] == '=' || s[0] == '^' || s[0] == '~'))
        || s.contains(',')
}

/// The numeric values of the dot-separated parts that parse as `u64`,
/// in order; parts that do not parse are skipped.
pub open spec fn parsed_nums(parts: Seq<Seq<char>>) -> Seq<u64>
    decreases parts.len(),
{
    if parts.len() == 0 {
        Seq::<u64>::empty()
    } else {
        let rest = parsed_nums(parts.drop_last());
        match parse_u64_spec(parts.last()) {
            Some(x) => rest.push(x),
            None => rest,
        }
    }
}

/// Increment that stays within `u64`; a bare requirement at the very top of
/// the `u64` range yields an empty compatible range rather than wrapping.
pub open spec fn sat_inc(x: u64) -> nat {
    if x == u64::MAX {
        x as nat
    } else {
        x as nat + 1
    }
}

/// What `normalize_requirement` returns.
pub open spec fn req_norm_spec(s: Seq<char>) -> Seq<char> {
    let t = trim_seq(s);
    if op_passthrough(t) {
        t
    } else {
        let nums = parsed_nums(split_char(strip_vees(t), '.'));
        if nums.len() == 0 {
            range_str((0, 0, 0), None)
        } else if nums.len() == 1 {
            range_str((nums[0] as nat, 0, 0), Some((sat_inc(nums[0]), 0, 0)))
        } else if nums.len() == 2 {
            range_str((nums[0] as nat, nums[1] as nat, 0), Some((nums[0] as nat, sat_inc(nums[1]), 0)))
        } else {
            range_str((nums[0] as nat, nums[1] as nat, nums[2] as nat), None)
        }
    }
}

fn append_u64(r: &mut String, x: u64)
    ensures
        final(r)@ == old(r)@ + dec_str(x as nat),
{
    let d = u64_to_string(x);
    r.append(d.as_str());
}

fn append_triple(r: &mut String, a: u64, b: u64, c: u64)
    ensures
        final(r)@ == old(r)@ + triple_str((a as nat, b as nat, c as nat)),
{
    append_u64(r, a);
    push_char(r, '.');
    append_u64(r, b);
    push_char(r, '.');
    append_u64(r, c);
    proof {
        assert(r@ =~= old(r)@ + triple_str((a as nat, b as nat, c as nat)));
    }
}

fn sat_inc_exec(x: u64) -> (r: u64)
    ensures
        r as nat == sat_inc(x),
{
    if x == u64::MAX {
        x
    } else {
        x + 1
    }
}

/// Normalize a requirement string: pass through anything with an explicit
/// operator or comma; expand a bare version into its compatible range.
pub fn normalize_requirement(req: &str) -> (r: String)
    ensures
        r@ == req_norm_spec(req@),
{
    let t = trim(req);
    let n = t.unicode_len();
    let passthrough = if n > 0 {
        let c = t.get_char(0);
        c == '>' || c == '<' || c == '=' || c == '^' || c == '~' || contains_char(t, ',')
    } else {
        contains_char(t, ',')
    };
    if passthrough {
        let r = String::from_str(t);
        return r;
    }
    let w = strip_vees_exec(t);
    let parts = split_str(w, '.');
    let mut nums: Vec<u64> = Vec::new();
    let mut i: usize = 0;
    proof {
        assert(parts.deep_view().take(0) =~= Seq::<Seq<char>>::empty());
    }
    while i < parts.len()
        invariant
            0 <= i <= parts.len(),
            nums@ == parsed_nums(parts.deep_view().take(i as int)),
        decreases parts.len() - i,
    {
        let p = parse_u64(parts[i].as_str());
        proof {
            assert(parts.deep_view().take(i + 1).drop_last() =~= parts.deep_view().take(i as int));
            assert(parts.deep_view().take(i + 1).last() == parts.deep_view()[i as int]);
        }
        if let Some(x) = p {
            nums.push(x);
        }
        i = i + 1;
    }
    proof {
        assert(parts.deep_view().take(parts.deep_view().len() as int) =~= parts.deep_view());
    }
    let mut r = String::new();
    push_char(&mut r, '>');
    push_char(&mut r, '=');
    if nums.len() == 0 {
        append_triple(&mut r, 0, 0, 0);
    } else if nums.len() == 1 {
        append_triple(&mut r, nums[0], 0, 0);
        push_char(&mut r, ',');
        push_char(&mut r, ' ');
        push_char(&mut r, '<');
        append_triple(&mut r, sat_inc_exec(nums[0]), 0, 0);
    } else if nums.len() == 2 {
        append_triple(&mut r, nums[0], nums[1], 0);
        push_char(&mut r, ',');
        push_char(&mut r, ' ');
        push_char(&mut r, '<');
        append_triple(&mut r, nums[0], sat_inc_exec(nums[1]), 0);
    } else {
        append_triple(&mut r, nums[0], nums[1], nums[2]);
    }
    proof {
        assert(r@ =~= req_norm_spec(req@));
    }
    r
}

// ── Extracting a version from probe output ──────────────────────────────────

/// A version run (digits, dot, digits, optionally dot and digits) begins at
/// position `i`: `i` starts a digit run whose maximal extent is followed by
/// a dot and another digit.
pub open spec fn version_match_at(s: Seq<char>, i: int) -> bool {
    0 <= i < s.len() && is_digit(s[i]) && {
        let j = run_end(s, i);
        j + 1 < s.len() && s[j] == '.' && is_digit(s[j + 1])
    }
}

/// One past the end of the version run beginning at `i`: the minor digit
/// run, extended by a patch digit run when a dot and a digit follow.
pub open spec fn match_end(s: Seq<char>, i: int) -> int {
    let j = run_end(s, i);
    let k = run_end(s, j + 1);
    if k + 1 < s.len() && s[k] == '.' && is_digit(s[k + 1]) {
        run_end(s, k + 1)
    } else {
        k
    }
}

/// The first position at or after `i` where a version run begins, or
/// `s.len()` if there is none.
pub open spec fn first_match(s: Seq<char>, i: int) -> int
    decreases s.len() - i when 0 <= i <= s.len()
{
    if i >= s.len() {
        s.len() as int
    } else if version_match_at(s, i) {
        i
    } else {
        first_match(s, i + 1)
    }
}

/// What `extract_version` returns: the leftmost version run, if any.
pub open spec fn extract_spec(s: Seq<char>) -> Option<Seq<char>> {
    let i = first_match(s, 0);
    if i < s.len() {
        Some(s.subrange(i, match_end(s, i)))
    } else {
        None
    }
}

proof fn lemma_first_match_from(s: Seq<char>, a: int, i: int)
    requires
        0 <= a <= i <= s.len(),
        forall|k: int| a <= k < i ==> !version_match_at(s, k),
    ensures
        first_match(s, a) == first_match(s, i),
    decreases i - a,
{
    if a < i {
        lemma_first_match_from(s, a + 1, i);
    }
}

proof fn lemma_first_match_at(s: Seq<char>, i: int)
    requires
        0 <= i <= s.len(),
        i < s.len() ==> version_match_at(s, i),
        forall|k: int| 0 <= k < i ==> !version_match_at(s, k),
    ensures
        first_match(s, 0) == i,
{
    lemma_first_match_from(s, 0, i);
}

/// Extract the leftmost `X.Y` or `X.Y.Z` digit run from arbitrary command
/// output, e.g. `"1.75.0"` out of `"rustc 1.75.0 (abcd 2024)"`.
pub fn extract_version(output: &str) -> (r: Option<String>)
    ensures
        r.deep_view() == extract_spec(output@),
{
    let n = output.unicode_len();
    let mut i: usize = 0;
    while i < n
        invariant
            0 <= i <= n,
            n == output@.len(),
            forall|k: int| 0 <= k < i ==> !version_match_at(output@, k),
        decreases n - i,
    {
        if digit_char(output.get_char(i)) {
            let j = digit_run_end(output, i);
            if j < n && output.get_char(j) == '.' && j + 1 < n && digit_char(output.get_char(j + 1)) {
                proof {
                    assert(version_match_at(output@, i as int));
                    lemma_first_match_at(output@, i as int);
                }
                let k = digit_run_end(output, j + 1);
                let e: usize = if k < n && output.get_char(k) == '.' && k + 1 < n && digit_char(
                    output.get_char(k + 1),
                ) {
                    digit_run_end(output, k + 1)
                } else {
                    k
                };
                proof {
                    assert(e == match_end(output@, i as int));
                }
                let piece = output.substring_char(i, e);
                let r = Some(String::from_str(piece));
                proof {
                    assert(r.deep_view() =~= extract_spec(output@));
                }
                return r;
            } else {
                proof {
                    assert(!version_match_at(output@, i as int));
                }
            }
        } else {
            proof {
                assert(!version_match_at(output@, i as int));
            }
        }
        i = i + 1;
    }
    proof {
        lemma_first_match_at(output@, n as int);
    }
    None
}

// ── Requirement evaluation ──────────────────────────────────────────────────

/// The verdict of semver range matching on a normalized requirement string
/// and a normalized version string; it depends on the two strings alone.
pub uninterp spec fn semver_accepts(req: Seq<char>, ver: Seq<char>) -> bool;

/// Relies on `semver::Version::parse`, `semver::VersionReq::parse` and
/// `semver::VersionReq::matches`: a version string `X.Y.Z` (decimal, no
/// leading zeros, values within `u64`) parses to exactly that triple with no
/// pre-release part, a requirement `>=A.B.C` or `>=A.B.C, <D.E.F` parses to
/// those comparators, and matching such comparators is membership in
/// `[lo, hi)` under major-then-minor-then-patch order; any parse failure
/// yields `false`.
#[verifier::external_body]
fn semver_req_matches(ver: &str, req: &str) -> (r: bool)
    ensures
        r == semver_accepts(req@, ver@),
        forall|lo: (nat, nat, nat), hi: Option<(nat, nat, nat)>, v: (nat, nat, nat)|
            fits3(lo) && fits_hi(hi) && fits3(v) && req@ == range_str(lo, hi) && ver@
                == triple_str(v) ==> r == range_sat(lo, hi, v),
{
    match (semver::Version::parse(ver), semver::VersionReq::parse(req)) {
        (Ok(v), Ok(r)) => r.matches(&v),
        _ => false,
    }
}

/// Whether a found version string satisfies a requirement string: both are
/// normalized, then evaluated by semver range matching. On a normalized
/// requirement `>=A.B.C[, <D.E.F]` and a canonical `X.Y.Z` version this is
/// exactly membership in the range; any parse failure is a plain `false`.
pub fn meets_requirement(found: &str, required: &str) -> (r: bool)
    ensures
        r == semver_accepts(req_norm_spec(required@), norm_ver_spec(found@)),
        forall|lo: (nat, nat, nat), hi: Option<(nat, nat, nat)>, v: (nat, nat, nat)|
            fits3(lo) && fits_hi(hi) && fits3(v) && req_norm_spec(required@) == range_str(lo, hi)
                && norm_ver_spec(found@) == triple_str(v) ==> r == range_sat(lo, hi, v),
{
    let nf = normalize_version(found);
    let nr = normalize_requirement(required);
    semver_req_matches(nf.as_str(), nr.as_str())
}

// ── Properties of the canonical renderings ──────────────────────────────────

pub proof fn lemma_dec_str_digits(n: nat)
    ensures
        dec_str(n).len() >= 1,
        all_digits(dec_str(n)),
        seq_num(dec_str(n)) == n,
    decreases n,
{
    if n < 10 {
        assert(seq_num(Seq::<char>::empty()) == 0);
        assert(seq![dec_digit(n)].drop_last() =~= Seq::<char>::empty());
        assert(seq![dec_digit(n)].last() == dec_digit(n));
        assert(seq_num(dec_str(n)) == seq_num(Seq::<char>::empty()) * 10 + digit_val(dec_digit(n)));
    } else {
        lemma_dec_str_digits(n / 10);
        assert(dec_str(n).drop_last() =~= dec_str(n / 10));
        assert(seq_num(dec_str(n)) == seq_num(dec_str(n / 10)) * 10 + digit_val(dec_digit(n % 10)));
        assert(forall|j: int|
            0 <= j < dec_str(n).len() - 1 ==> #[trigger] dec_str(n)[j] == dec_str(n / 10)[j]);
    }
}

/// All characters of `s` are digits or dots: no whitespace, no leading
/// `v`/`V`, no comma, no comparison operator.
pub open spec fn digits_and_dots(s: Seq<char>) -> bool {
    forall|j: int| 0 <= j < s.len() ==> is_digit(#[trigger] s[j]) || s[j] == '.'
}

proof fn lemma_plain_trim_strip(s: Seq<char>)
    requires
        digits_and_dots(s),
    ensures
        trim_seq(s) == s,
        strip_vees(s) == s,
        !op_passthrough(s) || s.len() == 0,
    decreases s.len(),
{
    if s.len() == 0 {
        lemma_prefix_len(s, space_pred(), 0);
        assert(trim_seq(s) =~= s);
        lemma_prefix_len(s, vee_pred(), 0);
        assert(strip_vees(s) =~= s);
    } else {
        lemma_prefix_len(s, space_pred(), 0);
        lemma_suffix_start(s, space_pred(), s.len() as int);
        assert(trim_seq(s) =~= s);
        lemma_prefix_len(s, vee_pred(), 0);
        assert(strip_vees(s) =~= s);
        assert(forall|j: int| 0 <= j < s.len() ==> #[trigger] s[j] != ',');
        assert(!s.contains(','));
    }
}

proof fn lemma_split_single(s: Seq<char>, sep: char)
    requires
        !s.contains(sep),
    ensures
        split_char(s, sep) == seq![s],
    decreases s.len(),
{
    if s.len() == 0 {
        assert(split_char(s, sep) =~~= seq![s]);
    } else {
        assert(s[0] != sep);
        assert(!s.skip(1).contains(sep)) by {
            assert(forall|j: int| 0 <= j < s.skip(1).len() ==> s.skip(1)[j] == #[trigger] s[j + 1]);
        }
        lemma_split_single(s.skip(1), sep);
        assert(seq![s[0]] + s.skip(1) =~= s);
        assert(split_char(s, sep) =~~= seq![s]);
    }
}

proof fn lemma_split_prefix(x: Seq<char>, y: Seq<char>, sep: char)
    requires
        !x.contains(sep),
    ensures
        split_char(x + seq![sep] + y, sep) == seq![x] + split_char(y, sep),
    decreases x.len(),
{
    let s = x + seq![sep] + y;
    lemma_split_char_len(y, sep);
    if x.len() == 0 {
        assert(s[0] == sep);
        assert(s.skip(1) =~= y);
        assert(split_char(s, sep) =~~= seq![x] + split_char(y, sep));
    } else {
        assert(s[0] == x[0]);
        assert(x[0] != sep);
        assert(!x.skip(1).contains(sep)) by {
            assert(forall|j: int| 0 <= j < x.skip(1).len() ==> x.skip(1)[j] == #[trigger] x[j + 1]);
        }
        lemma_split_prefix(x.skip(1), y, sep);
        assert(s.skip(1) =~= x.skip(1) + seq![sep] + y);
        let rest = split_char(s.skip(1), sep);
        assert(rest == seq![x.skip(1)] + split_char(y, sep));
        assert(rest[0] == x.skip(1));
        assert(seq![x[0]] + x.skip(1) =~= x);
        assert(rest.skip(1) =~= split_char(y, sep));
        assert(split_char(s, sep) =~~= seq![x] + split_char(y, sep));
    }
}

proof fn lemma_parse_dec(n: nat)
    requires
        n <= u64::MAX,
    ensures
        parse_u64_spec(dec_str(n)) == Some(n as u64),
{
    lemma_dec_str_digits(n);
    assert(dec_str(n)[0] != '+');
}

/// The normalization of a canonical `X.Y.Z` rendering is itself.
pub proof fn lemma_norm_canonical(v: (nat, nat, nat))
    requires
        fits3(v),
    ensures
        norm_ver_spec(triple_str(v)) == triple_str(v),
{
    let a = dec_str(v.0);
    let b = dec_str(v.1);
    let c = dec_str(v.2);
    let t = triple_str(v);
    lemma_dec_str_digits(v.0);
    lemma_dec_str_digits(v.1);
    lemma_dec_str_digits(v.2);
    assert(digits_and_dots(t));
    lemma_plain_trim_strip(t);
    assert(!a.contains('.')) by {
        assert(forall|j: int| 0 <= j < a.len() ==> #[trigger] a[j] != '.');
    }
    assert(!b.contains('.')) by {
        assert(forall|j: int| 0 <= j < b.len() ==> #[trigger] b[j] != '.');
    }
    assert(!c.contains('.')) by {
        assert(forall|j: int| 0 <= j < c.len() ==> #[trigger] c[j] != '.');
    }
    assert(t =~= a + seq!['.'] + (b + seq!['.'] + c));
    lemma_split_prefix(a, b + seq!['.'] + c, '.');
    lemma_split_prefix(b, c, '.');
    lemma_split_single(c, '.');
    let parts = split_char(t, '.');
    assert(parts =~~= seq![a, b, c]);
    assert(norm_ver_spec(t) =~= t);
}

/// Bare-version range law: a requirement that is a bare major number `N`
/// normalizes to the compatible range `[N.0.0, (N+1).0.0)`, and a canonical
/// version satisfies that range exactly when its major component is `N`.
pub proof fn lemma_bare_major_law(n: u64, v: (nat, nat, nat))
    requires
        n < u64::MAX,
        fits3(v),
    ensures
        req_norm_spec(dec_str(n as nat)) == range_str(
            (n as nat, 0, 0),
            Some(((n + 1) as nat, 0, 0)),
        ),
        norm_ver_spec(triple_str(v)) == triple_str(v),
        range_sat((n as nat, 0, 0), Some(((n + 1) as nat, 0, 0)), v) == (v.0 == n as nat),
{
    let t = dec_str(n as nat);
    lemma_dec_str_digits(n as nat);
    assert(digits_and_dots(t));
    lemma_plain_trim_strip(t);
    assert(!t.contains('.')) by {
        assert(forall|j: int| 0 <= j < t.len() ==> #[trigger] t[j] != '.');
    }
    lemma_split_single(t, '.');
    let parts = seq![t];
    assert(parts.drop_last() =~= Seq::<Seq<char>>::empty());
    lemma_parse_dec(n as nat);
    assert(parsed_nums(Seq::<Seq<char>>::empty()) =~= Seq::<u64>::empty());
    assert(parts.last() == t);
    assert(parsed_nums(parts) =~= seq![n]);
    lemma_norm_canonical(v);
}

/// Minor-pin law: a requirement that is a bare `N.M` normalizes to the
/// range `[N.M.0, N.(M+1).0)`, which a canonical version satisfies exactly
/// when its major is `N` and its minor is `M`.
pub proof fn lemma_minor_pin_law(n: u64, m: u64, v: (nat, nat, nat))
    requires
        m < u64::MAX,
        fits3(v),
    ensures
        req_norm_spec(dec_str(n as nat) + seq!['.'] + dec_str(m as nat)) == range_str(
            (n as nat, m as nat, 0),
            Some((n as nat, (m + 1) as nat, 0)),
        ),
        range_sat((n as nat, m as nat, 0), Some((n as nat, (m + 1) as nat, 0)), v) == (v.0
            == n as nat && v.1 == m as nat),
{
    let a = dec_str(n as nat);
    let b = dec_str(m as nat);
    let t = a + seq!['.'] + b;
    lemma_dec_str_digits(n as nat);
    lemma_dec_str_digits(m as nat);
    assert(digits_and_dots(t));
    lemma_plain_trim_strip(t);
    assert(!a.contains('.')) by {
        assert(forall|j: int| 0 <= j < a.len() ==> #[trigger] a[j] != '.');
    }
    assert(!b.contains('.')) by {
        assert(forall|j: int| 0 <= j < b.len() ==> #[trigger] b[j] != '.');
    }
    lemma_split_prefix(a, b, '.');
    lemma_split_single(b, '.');
    let parts = split_char(t, '.');
    assert(parts =~~= seq![a, b]);
    lemma_parse_dec(n as nat);
    lemma_parse_dec(m as nat);
    assert(parsed_nums(Seq::<Seq<char>>::empty()) =~= Seq::<u64>::empty());
    assert(seq![a].drop_last() =~= Seq::<Seq<char>>::empty());
    assert(seq![a].last() == a);
    assert(parsed_nums(seq![a]) =~= seq![n]);
    assert(seq![a, b].drop_last() =~= seq![a]);
    assert(seq![a, b].last() == b);
    assert(parsed_nums(seq![a, b]) =~= seq![n, m]);
}

/// Operator pass-through law: a requirement that already begins with a
/// comparison operator, or contains a comma, is never reinterpreted as
/// bare-version shorthand — it is used as it stands, only trimmed.
pub proof fn lemma_operator_passthrough(s: Seq<char>)
    requires
        op_passthrough(trim_seq(s)),
    ensures
        req_norm_spec(s) == trim_seq(s),
{
}

proof fn lemma_first_match_found(s: Seq<char>, a: int)
    requires
        0 <= a <= s.len(),
    ensures
        a <= first_match(s, a) <= s.len(),
        first_match(s, a) < s.len() ==> version_match_at(s, first_match(s, a)),
    decreases s.len() - a,
{
    if a < s.len() && !version_match_at(s, a) {
        lemma_first_match_found(s, a + 1);
    }
}

proof fn lemma_extract_full(a: Seq<char>, b: Seq<char>, c: Seq<char>)
    requires
        a.len() > 0,
        b.len() > 0,
        c.len() > 0,
        all_digits(a),
        all_digits(b),
        all_digits(c),
    ensures
        extract_spec(a + seq!['.'] + b + seq!['.'] + c) == Some(
            a + seq!['.'] + b + seq!['.'] + c,
        ),
{
    let u = a + seq!['.'] + b + seq!['.'] + c;
    let al = a.len() as int;
    let bl = b.len() as int;
    let cl = c.len() as int;
    assert(u.skip(0) =~= u);
    assert(forall|x: int| 0 <= x < al ==> #[trigger] u[x] == a[x]);
    assert(u[al] == '.');
    assert(forall|x: int| 0 <= x < bl ==> #[trigger] u[al + 1 + x] == b[x]);
    assert(u[al + 1 + bl] == '.');
    assert(forall|x: int| 0 <= x < cl ==> #[trigger] u[al + 1 + bl + 1 + x] == c[x]);
    lemma_prefix_len(u, digit_pred(), al);
    assert(run_end(u, 0) == al);
    assert(version_match_at(u, 0));
    lemma_first_match_at(u, 0);
    assert(forall|x: int|
        0 <= x < u.skip(al + 1).len() ==> #[trigger] u.skip(al + 1)[x] == u[al + 1 + x]);
    lemma_prefix_len(u.skip(al + 1), digit_pred(), bl);
    assert(run_end(u, al + 1) == al + 1 + bl);
    let k = al + 1 + bl;
    assert(forall|x: int|
        0 <= x < u.skip(k + 1).len() ==> #[trigger] u.skip(k + 1)[x] == u[k + 1 + x]);
    lemma_prefix_len(u.skip(k + 1), digit_pred(), cl);
    assert(run_end(u, k + 1) == u.len());
    assert(match_end(u, 0) == u.len());
    assert(u.subrange(0, u.len() as int) =~= u);
}

/// Extraction idempotence law: extracting a version from the normalization
/// of an already-extracted version returns that normalized string whole, so
/// re-extraction never changes the numeric value.
pub proof fn lemma_extract_idempotent(s: Seq<char>, t: Seq<char>)
    requires
        extract_spec(s) == Some(t),
    ensures
        extract_spec(norm_ver_spec(t)) == Some(norm_ver_spec(t)),
{
    let i = first_match(s, 0);
    lemma_first_match_found(s, 0);
    let j = run_end(s, i);
    let k = run_end(s, j + 1);
    let e = match_end(s, i);
    assert(t == s.subrange(i, e));
    lemma_prefix_len_bounds(s.skip(i), digit_pred());
    lemma_prefix_len_chars(s.skip(i), digit_pred());
    assert(forall|x: int| 0 <= x < s.skip(i).len() ==> #[trigger] s.skip(i)[x] == s[i + x]);
    assert(j >= i + 1) by {
        assert(is_digit(s.skip(i)[0]));
    }
    lemma_prefix_len_bounds(s.skip(j + 1), digit_pred());
    lemma_prefix_len_chars(s.skip(j + 1), digit_pred());
    assert(forall|x: int|
        0 <= x < s.skip(j + 1).len() ==> #[trigger] s.skip(j + 1)[x] == s[j + 1 + x]);
    assert(k >= j + 2) by {
        assert(is_digit(s.skip(j + 1)[0]));
    }
    let a = s.subrange(i, j);
    let b = s.subrange(j + 1, k);
    assert(all_digits(a));
    assert(all_digits(b));
    assert(!a.contains('.')) by {
        assert(forall|y: int| 0 <= y < a.len() ==> #[trigger] a[y] != '.');
    }
    assert(!b.contains('.')) by {
        assert(forall|y: int| 0 <= y < b.len() ==> #[trigger] b[y] != '.');
    }
    if k + 1 < s.len() && s[k] == '.' && is_digit(s[k + 1]) {
        let ee = run_end(s, k + 1);
        assert(e == ee);
        lemma_prefix_len_bounds(s.skip(k + 1), digit_pred());
        lemma_prefix_len_chars(s.skip(k + 1), digit_pred());
        assert(forall|x: int|
            0 <= x < s.skip(k + 1).len() ==> #[trigger] s.skip(k + 1)[x] == s[k + 1 + x]);
        assert(e >= k + 2) by {
            assert(is_digit(s.skip(k + 1)[0]));
        }
        let c = s.subrange(k + 1, e);
        assert(all_digits(c));
        assert(!c.contains('.')) by {
            assert(forall|y: int| 0 <= y < c.len() ==> #[trigger] c[y] != '.');
        }
        assert(t =~= a + seq!['.'] + b + seq!['.'] + c);
        assert(digits_and_dots(t));
        lemma_plain_trim_strip(t);
        lemma_split_prefix(a, b + seq!['.'] + c, '.');
        lemma_split_prefix(b, c, '.');
        lemma_split_single(c, '.');
        assert(t =~= a + seq!['.'] + (b + seq!['.'] + c));
        let parts = split_char(t, '.');
        assert(parts =~~= seq![a, b, c]);
        assert(norm_ver_spec(t) =~= t);
        lemma_extract_full(a, b, c);
    } else {
        assert(e == k);
        assert(t =~= a + seq!['.'] + b);
        assert(digits_and_dots(t));
        lemma_plain_trim_strip(t);
        lemma_split_prefix(a, b, '.');
        lemma_split_single(b, '.');
        let parts = split_char(t, '.');
        assert(parts =~~= seq![a, b]);
        let u = norm_ver_spec(t);
        assert(u =~= a + seq!['.'] + b + seq!['.'] + seq!['0']);
        assert(all_digits(seq!['0']));
        lemma_extract_full(a, b, seq!['0']);
    }
}

} // verus!
