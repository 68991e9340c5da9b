//! Character- and string-level helpers: classification, splitting, trimming,
//! substring search, and decimal conversions, each with an exact
//! specification over `Seq<char>` views.

use vstd::prelude::*;

verus! {

// ── Character classification ────────────────────────────────────────────────

pub open spec fn is_digit(c: char) -> bool {
    48 <= c as u32 <= 57
}

pub open spec fn digit_val(c: char) -> nat {
    (c as u32 - 48) as nat
}

/// ASCII whitespace recognized when trimming.
pub open spec fn is_space(c: char) -> bool {
    c == ' ' || c == '\t' || c == '\n' || c == '\r'
}

/// Case-insensitive key for a character: upper-case ASCII letters map to the
/// code of their lower-case form, everything else to its own code.
pub open spec fn lower_key(c: char) -> int {
    if 65 <= c as u32 <= 90 {
        c as u32 + 32
    } else {
        c as u32 as int
    }
}

pub fn digit_char(c: char) -> (r: bool)
    ensures
        r == is_digit(c),
{
    let u = c as u32;
    48 <= u && u <= 57
}

pub fn space_char(c: char) -> (r: bool)
    ensures
        r == is_space(c),
{
    c == ' ' || c == '\t' || c == '\n' || c == '\r'
}

// ── Numeric value of a digit sequence ───────────────────────────────────────

/// Value of a most-significant-first digit string.
pub open spec fn seq_num(s: Seq<char>) -> nat
    decreases s.len(),
{
    if s.len() == 0 {
        0
    } else {
        seq_num(s.drop_last()) * 10 + digit_val(s.last())
    }
}

pub open spec fn all_digits(s: Seq<char>) -> bool {
    forall|i: int| 0 <= i < s.len() ==> is_digit(#[trigger] s[i])
}

// ── Trusted std wrappers ────────────────────────────────────────────────────

/// Relies on `<str as PartialEq>::eq`: string slices compare equal exactly
/// when their character sequences are equal.
#[verifier::external_body]
pub(crate) fn str_eq(a: &str, b: &str) -> (r: bool)
    ensures
        r == (a@ == b@),
{
    a == b
}

/// Relies on `String::push`: appends the character to the end of the string.
#[verifier::external_body]
pub(crate) fn push_char(s: &mut String, c: char)
    ensures
        final(s)@ == old(s)@.push(c),
{
    s.push(c)
}

// ── Scanning while a predicate holds ────────────────────────────────────────

/// Length of the longest prefix of `s` whose characters all satisfy `p`.
pub open spec fn prefix_len(s: Seq<char>, p: spec_fn(char) -> bool) -> int
    decreases s.len(),
{
    if s.len() > 0 && p(s[0]) {
        1 + prefix_len(s.skip(1), p)
    } else {
        0
    }
}

/// Start of the longest suffix of `s` whose characters all satisfy `p`.
pub open spec fn suffix_start(s: Seq<char>, p: spec_fn(char) -> bool) -> int
    decreases s.len(),
{
    if s.len() > 0 && p(s.last()) {
        suffix_start(s.drop_last(), p)
    } else {
        s.len() as int
    }
}

pub proof fn lemma_prefix_len_bounds(s: Seq<char>, p: spec_fn(char) -> bool)
    ensures
        0 <= prefix_len(s, p) <= s.len(),
    decreases s.len(),
{
    if s.len() > 0 && p(s[0]) {
        lemma_prefix_len_bounds(s.skip(1), p);
    }
}

pub proof fn lemma_prefix_len_chars(s: Seq<char>, p: spec_fn(char) -> bool)
    ensures
        forall|j: int| 0 <= j < prefix_len(s, p) ==> p(#[trigger] s[j]),
        prefix_len(s, p) < s.len() ==> !p(s[prefix_len(s, p)]),
    decreases s.len(),
{
    lemma_prefix_len_bounds(s, p);
    if s.len() > 0 && p(s[0]) {
        lemma_prefix_len_chars(s.skip(1), p);
        lemma_prefix_len_bounds(s.skip(1), p);
        assert(forall|j: int|
            1 <= j < prefix_len(s, p) ==> #[trigger] s[j] == s.skip(1)[j - 1]);
    }
}

pub proof fn lemma_prefix_len(s: Seq<char>, p: spec_fn(char) -> bool, a: int)
    requires
        0 <= a <= s.len(),
        forall|j: int| 0 <= j < a ==> p(#[trigger] s[j]),
        a < s.len() ==> !p(s[a]),
    ensures
        prefix_len(s, p) == a,
    decreases s.len(),
{
    if s.len() > 0 && p(s[0]) {
        lemma_prefix_len(s.skip(1), p, a - 1);
    }
}

pub proof fn lemma_suffix_start(s: Seq<char>, p: spec_fn(char) -> bool, b: int)
    requires
        0 <= b <= s.len(),
        forall|j: int| b <= j < s.len() ==> p(#[trigger] s[j]),
        b > 0 ==> !p(s[b - 1]),
    ensures
        suffix_start(s, p) == b,
    decreases s.len(),
{
    if s.len() > 0 && p(s.last()) {
        lemma_suffix_start(s.drop_last(), p, b);
    }
}

// ── Trimming ────────────────────────────────────────────────────────────────

pub open spec fn space_pred() -> spec_fn(char) -> bool {
    |c: char| is_space(c)
}

/// `s` with leading and trailing ASCII whitespace removed.
pub open spec fn trim_seq(s: Seq<char>) -> Seq<char> {
    if prefix_len(s, space_pred()) == s.len() {
        Seq::<char>::empty()
    } else {
        s.subrange(prefix_len(s, space_pred()), suffix_start(s, space_pred()))
    }
}

pub fn trim(s: &str) -> (r: &str)
    ensures
        r@ == trim_seq(s@),
{
    let n = s.unicode_len();
    let mut a: usize = 0;
    while a < n && space_char(s.get_char(a))
        invariant
            0 <= a <= n,
            n == s@.len(),
            forall|j: int| 0 <= j < a ==> is_space(#[trigger] s@[j]),
        decreases n - a,
    {
        a = a + 1;
    }
    proof {
        lemma_prefix_len(s@, space_pred(), a as int);
    }
    if a == n {
        let r = s.substring_char(0, 0);
        proof {
            assert(r@ =~= trim_seq(s@));
        }
        return r;
    }
    let mut b: usize = n;
    while b > a && space_char(s.get_char(b - 1))
        invariant
            a <= b <= n,
            n == s@.len(),
            a < n,
            !is_space(s@[a as int]),
            forall|j: int| b <= j < n ==> is_space(#[trigger] s@[j]),
        decreases b,
    {
        b = b - 1;
    }
    proof {
        lemma_suffix_start(s@, space_pred(), b as int);
    }
    s.substring_char(a, b)
}

// ── Prefixes ────────────────────────────────────────────────────────────────

pub open spec fn has_prefix(s: Seq<char>, p: Seq<char>) -> bool {
    p.len() <= s.len() && s.subrange(0, p.len() as int) == p
}

pub fn starts_with(s: &str, p: &str) -> (r: bool)
    ensures
        r == has_prefix(s@, p@),
{
    let sn = s.unicode_len();
    let pn = p.unicode_len();
    if pn > sn {
        return false;
    }
    let mut i: usize = 0;
    while i < pn
        invariant
            0 <= i <= pn <= sn,
            sn == s@.len(),
            pn == p@.len(),
            forall|j: int| 0 <= j < i ==> s@[j] == p@[j],
        decreases pn - i,
    {
        if s.get_char(i) != p.get_char(i) {
            proof {
                assert(s@.subrange(0, pn as int)[i as int] != p@[i as int]);
            }
            return false;
        }
        i = i + 1;
    }
    proof {
        assert(s@.subrange(0, pn as int) =~= p@);
    }
    true
}

/// The characters of `s` from position `from` on, as a borrowed slice.
pub fn str_skip(s: &str, from: usize) -> (r: &str)
    requires
        from <= s@.len(),
    ensures
        r@ == s@.skip(from as int),
{
    let n = s.unicode_len();
    let r = s.substring_char(from, n);
    proof {
        assert(r@ =~= s@.skip(from as int));
    }
    r
}

// ── Splitting ───────────────────────────────────────────────────────────────

/// The pieces of `s` between occurrences of `sep`, as `str::split` yields
/// them: always at least one piece, empty pieces preserved.
pub open spec fn split_char(s: Seq<char>, sep: char) -> Seq<Seq<char>>
    decreases s.len(),
{
    if s.len() == 0 {
        seq![Seq::<char>::empty()]
    } else if s[0] == sep {
        seq![Seq::<char>::empty()] + split_char(s.skip(1), sep)
    } else {
        let rest = split_char(s.skip(1), sep);
        seq![seq![s[0]] + rest[0]] + rest.skip(1)
    }
}

pub proof fn lemma_split_char_len(s: Seq<char>, sep: char)
    ensures
        split_char(s, sep).len() >= 1,
    decreases s.len(),
{
    if s.len() > 0 {
        lemma_split_char_len(s.skip(1), sep);
    }
}

/// `parts` with its first piece extended on the left by `c`.
pub open spec fn glue(c: Seq<char>, parts: Seq<Seq<char>>) -> Seq<Seq<char>> {
    seq![c + parts[0]] + parts.skip(1)
}

pub fn split_str(s: &str, sep: char) -> (r: Vec<String>)
    ensures
        r.deep_view() == split_char(s@, sep),
        r.len() >= 1,
{
    let n = s.unicode_len();
    let mut parts: Vec<String> = Vec::new();
    let mut cur: String = String::new();
    let mut i: usize = 0;
    proof {
        lemma_split_char_len(s@, sep);
        assert(s@.skip(0) =~= s@);
        assert(glue(cur@, split_char(s@, sep)) =~= split_char(s@, sep));
    }
    while i < n
        invariant
            0 <= i <= n,
            n == s@.len(),
            split_char(s@.skip(i as int), sep).len() >= 1,
            parts.deep_view() + glue(cur@, split_char(s@.skip(i as int), sep)) == split_char(
                s@,
                sep,
            ),
        decreases n - i,
    {
        let c = s.get_char(i);
        proof {
            assert(s@.skip(i as int)[0] == c);
            assert(s@.skip(i as int).skip(1) =~= s@.skip(i as int + 1));
            lemma_split_char_len(s@.skip(i as int + 1), sep);
        }
        if c == sep {
            let ghost old_parts = parts.deep_view();
            let ghost old_cur = cur@;
            parts.push(cur);
            cur = String::new();
            proof {
                assert(parts.deep_view() =~= old_parts.push(old_cur));
                assert(glue(old_cur, split_char(s@.skip(i as int), sep)) =~= seq![old_cur]
                    + split_char(s@.skip(i as int + 1), sep));
                assert(parts.deep_view() + glue(cur@, split_char(s@.skip(i as int + 1), sep))
                    =~= split_char(s@, sep));
            }
        } else {
            let ghost old_cur = cur@;
            push_char(&mut cur, c);
            proof {
                let rest = split_char(s@.skip(i as int + 1), sep);
                assert(split_char(s@.skip(i as int), sep) =~= seq![seq![c] + rest[0]] + rest.skip(
                    1,
                ));
                assert(old_cur + (seq![c] + rest[0]) =~= cur@ + rest[0]);
                assert((seq![seq![c] + rest[0]] + rest.skip(1)).skip(1) =~= rest.skip(1));
                assert(glue(old_cur, split_char(s@.skip(i as int), sep)) =~~= glue(cur@, rest));
                assert(parts.deep_view() + glue(cur@, rest) =~= split_char(s@, sep));
            }
        }
        i = i + 1;
    }
    proof {
        assert(s@.skip(n as int) =~= Seq::<char>::empty());
        assert(glue(cur@, split_char(Seq::<char>::empty(), sep)) =~= seq![cur@]);
    }
    let ghost old_parts = parts.deep_view();
    let ghost final_cur = cur@;
    parts.push(cur);
    proof {
        assert(parts.deep_view() =~= old_parts.push(final_cur));
        assert(old_parts.push(final_cur) =~= old_parts + seq![final_cur]);
        lemma_split_char_len(s@, sep);
    }
    parts
}

// ── Substring search, case-insensitive ──────────────────────────────────────

/// `sub` occurs in `s` at position `i`, comparing ASCII letters without case.
pub open spec fn match_ci_at(s: Seq<char>, sub: Seq<char>, i: int) -> bool {
    0 <= i && i + sub.len() <= s.len() && (forall|j: int|
        0 <= j < sub.len() ==> lower_key(s[i + j]) == lower_key(#[trigger] sub[j]))
}

pub open spec fn has_sub_ci(s: Seq<char>, sub: Seq<char>) -> bool {
    exists|i: int| match_ci_at(s, sub, i)
}

pub fn lower_key_exec(c: char) -> (r: u32)
    ensures
        r == lower_key(c),
{
    let u = c as u32;
    if 65 <= u && u <= 90 {
        u + 32
    } else {
        u
    }
}

/// Whether `sub` occurs anywhere in `s`, ignoring ASCII case.
pub fn contains_ci(s: &str, sub: &str) -> (r: bool)
    ensures
        r == has_sub_ci(s@, sub@),
{
    let sn = s.unicode_len();
    let bn = sub.unicode_len();
    if bn > sn {
        proof {
            assert(forall|i: int| !match_ci_at(s@, sub@, i));
        }
        return false;
    }
    let mut i: usize = 0;
    while i <= sn - bn
        invariant
            0 <= i <= sn - bn + 1,
            bn <= sn,
            sn == s@.len(),
            bn == sub@.len(),
            forall|k: int| 0 <= k < i ==> !match_ci_at(s@, sub@, k),
        decreases sn - i,
    {
        let mut j: usize = 0;
        let mut ok: bool = true;
        while j < bn
            invariant
                0 <= j <= bn,
                i + bn <= sn,
                sn == s@.len(),
                bn == sub@.len(),
                ok ==> forall|j2: int|
                    0 <= j2 < j ==> lower_key(s@[i + j2]) == lower_key(#[trigger] sub@[j2]),
                !ok ==> !match_ci_at(s@, sub@, i as int),
            decreases bn - j,
        {
            if lower_key_exec(s.get_char(i + j)) != lower_key_exec(sub.get_char(j)) {
                ok = false;
                proof {
                    assert(!match_ci_at(s@, sub@, i as int));
                }
                j = bn;
            } else {
                j = j + 1;
            }
        }
        if ok {
            proof {
                assert(match_ci_at(s@, sub@, i as int));
            }
            return true;
        }
        i = i + 1;
    }
    proof {
        assert(forall|k: int| match_ci_at(s@, sub@, k) ==> 0 <= k <= sn - bn);
    }
    false
}

// ── Decimal parsing and rendering ───────────────────────────────────────────

pub proof fn lemma_seq_num_take_step(s: Seq<char>, i: int)
    requires
        0 <= i < s.len(),
    ensures
        seq_num(s.take(i + 1)) == seq_num(s.take(i)) * 10 + digit_val(s[i]),
{
    assert(s.take(i + 1).drop_last() =~= s.take(i));
    assert(s.take(i + 1).last() == s[i]);
}

pub proof fn lemma_seq_num_take_le(s: Seq<char>, i: int, j: int)
    requires
        0 <= i <= j <= s.len(),
    ensures
        seq_num(s.take(i)) <= seq_num(s.take(j)),
    decreases j - i,
{
    if i < j {
        lemma_seq_num_take_le(s, i, j - 1);
        lemma_seq_num_take_step(s, j - 1);
        assert(seq_num(s.take(j - 1)) * 10 >= seq_num(s.take(j - 1))) by (nonlinear_arith);
    }
}

/// What `str::parse::<u64>` accepts: an optional leading `+`, then at least
/// one digit, with a value that fits in a `u64`.
pub open spec fn parse_u64_spec(s: Seq<char>) -> Option<u64> {
    let t = if s.len() > 0 && s[0] == '+' {
        s.skip(1)
    } else {
        s
    };
    if t.len() > 0 && all_digits(t) && seq_num(t) <= u64::MAX {
        Some(seq_num(t) as u64)
    } else {
        None
    }
}

pub fn parse_u64(s: &str) -> (r: Option<u64>)
    ensures
        r == parse_u64_spec(s@),
{
    let n = s.unicode_len();
    let start: usize = if n > 0 && s.get_char(0) == '+' {
        1
    } else {
        0
    };
    let ghost t = if s@.len() > 0 && s@[0] == '+' {
        s@.skip(1)
    } else {
        s@
    };
    proof {
        assert(t =~= s@.skip(start as int));
    }
    if n == start {
        return None;
    }
    let mut acc: u64 = 0;
    let mut i: usize = start;
    while i < n
        invariant
            start <= i <= n,
            n == s@.len(),
            t == s@.skip(start as int),
            t == (if s@.len() > 0 && s@[0] == '+' {
                s@.skip(1)
            } else {
                s@
            }),
            start < n,
            all_digits(t.take(i - start)),
            acc == seq_num(t.take(i - start)),
        decreases n - i,
    {
        let c = s.get_char(i);
        proof {
            assert(t[i - start] == s@[i as int]);
        }
        if !digit_char(c) {
            proof {
                assert(!is_digit(t[i - start]));
            }
            return None;
        }
        let d: u64 = (c as u32 - 48) as u64;
        proof {
            lemma_seq_num_take_step(t, i - start);
        }
        if acc > u64::MAX / 10 || (acc == u64::MAX / 10 && d > u64::MAX % 10) {
            proof {
                assert(seq_num(t.take(i - start + 1)) > u64::MAX);
                lemma_seq_num_take_le(t, i - start + 1, t.len() as int);
                assert(t.take(t.len() as int) =~= t);
            }
            return None;
        }
        acc = acc * 10 + d;
        i = i + 1;
        proof {
            assert(all_digits(t.take(i - start))) by {
                assert(forall|k: int|
                    0 <= k < i - start ==> t.take(i - start)[k] == #[trigger] t[k]);
            }
        }
    }
    proof {
        assert(t.take(t.len() as int) =~= t);
    }
    Some(acc)
}

pub open spec fn dec_digit(n: nat) -> char {
    ((48 + n) as u8) as char
}

/// Decimal rendering of `n`, most significant digit first.
pub open spec fn dec_str(n: nat) -> Seq<char>
    decreases n,
{
    if n < 10 {
        seq![dec_digit(n)]
    } else {
        dec_str(n / 10).push(dec_digit(n % 10))
    }
}

pub open spec fn rev_seq(s: Seq<char>) -> Seq<char> {
    Seq::new(s.len(), |i: int| s[s.len() - 1 - i])
}

pub fn u64_to_string(n: u64) -> (r: String)
    ensures
        r@ == dec_str(n as nat),
{
    let mut digits: Vec<char> = Vec::new();
    let mut m: u64 = n;
    loop
        invariant_except_break
            m == 0 ==> digits.len() == 0 && n == 0,
        invariant
            m > 0 ==> dec_str(n as nat) == dec_str(m as nat) + rev_seq(digits@),
            m == 0 && digits.len() == 0 ==> n == 0,
        ensures
            digits.len() > 0,
            dec_str(n as nat) == rev_seq(digits@),
        decreases m,
    {
        let d: u64 = m % 10;
        let c: char = (48 + d as u8) as char;
        let ghost old_digits = digits@;
        let ghost old_m = m;
        digits.push(c);
        m = m / 10;
        proof {
            assert(rev_seq(digits@) =~= seq![c] + rev_seq(old_digits));
            if old_m >= 10 {
                assert(dec_str(old_m as nat) == dec_str(m as nat).push(c));
                assert(dec_str(m as nat).push(c) + rev_seq(old_digits) =~= dec_str(m as nat) + (
                seq![c] + rev_seq(old_digits)));
                assert(dec_str(n as nat) == dec_str(m as nat) + rev_seq(digits@));
            } else if old_m > 0 {
                assert(dec_str(old_m as nat) == seq![c]);
                assert(dec_str(n as nat) == rev_seq(digits@));
            } else {
                assert(old_digits.len() == 0 && n == 0);
                assert(dec_str(n as nat) == seq![c]);
                assert(seq![c] + rev_seq(old_digits) =~= seq![c]);
                assert(dec_str(n as nat) == rev_seq(digits@));
            }
        }
        if m == 0 {
            break;
        }
    }
    let mut r = String::new();
    let len = digits.len();
    let mut k: usize = 0;
    while k < len
        invariant
            0 <= k <= len,
            len == digits.len(),
            dec_str(n as nat) =~= rev_seq(digits@),
            r@ =~= rev_seq(digits@).take(k as int),
        decreases len - k,
    {
        push_char(&mut r, digits[len - 1 - k]);
        k = k + 1;
        proof {
            assert(r@ =~= rev_seq(digits@).take(k as int));
        }
    }
    proof {
        assert(rev_seq(digits@).take(len as int) =~= rev_seq(digits@));
    }
    r
}

/// Decimal rendering of a possibly negative integer.
pub open spec fn int_dec_str(n: int) -> Seq<char> {
    if n < 0 {
        seq!['-'] + dec_str((-n) as nat)
    } else {
        dec_str(n as nat)
    }
}

pub fn i32_to_string(n: i32) -> (r: String)
    ensures
        r@ == int_dec_str(n as int),
{
    if n >= 0 {
        u64_to_string(n as u64)
    } else {
        let mag: u64 = (-(n as i64)) as u64;
        let mut r = String::new();
        push_char(&mut r, '-');
        let tail = u64_to_string(mag);
        r.append(tail.as_str());
        proof {
            assert(r@ =~= seq!['-'] + dec_str(mag as nat));
        }
        r
    }
}

// ── Digit runs and membership ───────────────────────────────────────────────

pub open spec fn digit_pred() -> spec_fn(char) -> bool {
    |c: char| is_digit(c)
}

/// One past the last character of the maximal digit run beginning at `i`.
pub open spec fn run_end(s: Seq<char>, i: int) -> int {
    i + prefix_len(s.skip(i), digit_pred())
}

pub fn digit_run_end(s: &str, i: usize) -> (j: usize)
    requires
        i <= s@.len(),
    ensures
        j == run_end(s@, i as int),
        i <= j <= s@.len(),
        forall|k: int| i <= k < j ==> is_digit(#[trigger] s@[k]),
        j < s@.len() ==> !is_digit(s@[j as int]),
{
    let n = s.unicode_len();
    let mut j: usize = i;
    while j < n && digit_char(s.get_char(j))
        invariant
            i <= j <= n,
            n == s@.len(),
            forall|k: int| i <= k < j ==> is_digit(#[trigger] s@[k]),
        decreases n - j,
    {
        j = j + 1;
    }
    proof {
        assert(forall|k: int|
            0 <= k < j - i ==> is_digit(#[trigger] s@.skip(i as int)[k]) == is_digit(
                s@[k + i],
            ));
        lemma_prefix_len(s@.skip(i as int), digit_pred(), j - i);
    }
    j
}

pub fn contains_char(s: &str, c: char) -> (r: bool)
    ensures
        r == s@.contains(c),
{
    let n = s.unicode_len();
    let mut i: usize = 0;
    while i < n
        invariant
            0 <= i <= n,
            n == s@.len(),
            forall|k: int| 0 <= k < i ==> s@[k] != c,
        decreases n - i,
    {
        if s.get_char(i) == c {
            return true;
        }
        i = i + 1;
    }
    false
}

// ── Views of optional strings ───────────────────────────────────────────────

pub open spec fn opt_view(o: Option<String>) -> Option<Seq<char>> {
    match o {
        Some(s) => Some(s@),
        None => None,
    }
}

// ── Lines ───────────────────────────────────────────────────────────────────

pub open spec fn strip_cr(l: Seq<char>) -> Seq<char> {
    if l.len() > 0 && l.last() == '\r' {
        l.drop_last()
    } else {
        l
    }
}

/// The lines of `s`, as `str::lines` yields them: split at `\n`, a trailing
/// `\r` removed from every piece that a `\n` terminated, and no final empty
/// piece when the text ends with a newline.
pub open spec fn lines_spec(s: Seq<char>) -> Seq<Seq<char>> {
    let parts = split_char(s, '\n');
    let ended = parts.last().len() == 0;
    let kept = if ended {
        parts.drop_last()
    } else {
        parts
    };
    Seq::new(
        kept.len(),
        |i: int|
            if i + 1 < kept.len() || ended {
                strip_cr(kept[i])
            } else {
                kept[i]
            },
    )
}

pub fn lines_vec(s: &str) -> (r: Vec<String>)
    ensures
        r.deep_view() == lines_spec(s@),
{
    let parts = split_str(s, '\n');
    let total = parts.len();
    let ended = parts[total - 1].as_str().is_empty();
    let kept_n: usize = if ended {
        total - 1
    } else {
        total
    };
    let mut r: Vec<String> = Vec::new();
    let mut i: usize = 0;
    while i < kept_n
        invariant
            0 <= i <= kept_n <= total,
            total == parts.deep_view().len(),
            parts.deep_view() == split_char(s@, '\n'),
            ended == (parts.deep_view().last().len() == 0),
            kept_n == if ended {
                total - 1
            } else {
                total as int
            },
            r.deep_view() =~= lines_spec(s@).take(i as int),
        decreases kept_n - i,
    {
        let p = parts[i].as_str();
        let n = p.unicode_len();
        let strip = i + 1 < kept_n || ended;
        let ghost old_dv = r.deep_view();
        let ghost kept = if ended {
            parts.deep_view().drop_last()
        } else {
            parts.deep_view()
        };
        proof {
            assert(kept[i as int] == p@);
            assert(lines_spec(s@)[i as int] == if strip {
                strip_cr(p@)
            } else {
                p@
            });
        }
        if strip && n > 0 && p.get_char(n - 1) == '\r' {
            let cut = p.substring_char(0, n - 1);
            r.push(String::from_str(cut));
            proof {
                assert(cut@ =~= strip_cr(p@));
                assert(r.deep_view() =~= old_dv.push(strip_cr(p@)));
            }
        } else {
            r.push(String::from_str(p));
            proof {
                if strip {
                    assert(p@ =~= strip_cr(p@));
                }
                assert(r.deep_view() =~= old_dv.push(p@));
            }
        }
        proof {
            assert(r.deep_view() =~= lines_spec(s@).take(i + 1));
        }
        i = i + 1;
    }
    proof {
        assert(lines_spec(s@).take(kept_n as int) =~= lines_spec(s@));
    }
    r
}

// ── Case-sensitive substring search ─────────────────────────────────────────

pub open spec fn match_at(s: Seq<char>, sub: Seq<char>, i: int) -> bool {
    0 <= i && i + sub.len() <= s.len() && (forall|j: int|
        0 <= j < sub.len() ==> s[i + j] == #[trigger] sub[j])
}

pub open spec fn has_sub(s: Seq<char>, sub: Seq<char>) -> bool {
    exists|i: int| match_at(s, sub, i)
}

/// Whether `sub` occurs anywhere in `s`, comparing characters exactly.
pub fn contains_sub(s: &str, sub: &str) -> (r: bool)
    ensures
        r == has_sub(s@, sub@),
{
    let sn = s.unicode_len();
    let bn = sub.unicode_len();
    if bn > sn {
        proof {
            assert(forall|i: int| !match_at(s@, sub@, i));
        }
        return false;
    }
    let mut i: usize = 0;
    while i <= sn - bn
        invariant
            0 <= i <= sn - bn + 1,
            bn <= sn,
            sn == s@.len(),
            bn == sub@.len(),
            forall|k: int| 0 <= k < i ==> !match_at(s@, sub@, k),
        decreases sn - i,
    {
        let mut j: usize = 0;
        let mut ok: bool = true;
        while j < bn
            invariant
                0 <= j <= bn,
                i + bn <= sn,
                sn == s@.len(),
                bn == sub@.len(),
                ok ==> forall|j2: int| 0 <= j2 < j ==> s@[i + j2] == #[trigger] sub@[j2],
                !ok ==> !match_at(s@, sub@, i as int),
            decreases bn - j,
        {
            if s.get_char(i + j) != sub.get_char(j) {
                ok = false;
                proof {
                    assert(!match_at(s@, sub@, i as int));
                }
                j = bn;
            } else {
                j = j + 1;
            }
        }
        if ok {
            proof {
                assert(match_at(s@, sub@, i as int));
            }
            return true;
        }
        i = i + 1;
    }
    proof {
        assert(forall|k: int| match_at(s@, sub@, k) ==> 0 <= k <= sn - bn);
    }
    false
}

// ── Membership of a string in a vector ──────────────────────────────────────

pub fn vec_contains_str(v: &Vec<String>, s: &str) -> (r: bool)
    ensures
        r == v.deep_view().contains(s@),
{
    let mut i: usize = 0;
    while i < v.len()
        invariant
            0 <= i <= v.deep_view().len(),
            v.deep_view().len() == v.len(),
            forall|k: int| 0 <= k < i ==> v.deep_view()[k] != s@,
        decreases v.len() - i,
    {
        if str_eq(v[i].as_str(), s) {
            proof {
                assert(v.deep_view()[i as int] == s@);
            }
            return true;
        }
        i = i + 1;
    }
    false
}

} // verus!
