//! Evidence scanner: turns the observable state of a project directory —
//! which manifest files exist and what they contain — into a
//! `ProjectContext` of inferred requirements. Reading the directory itself
//! is the surrounding application's job; this module holds the precedence
//! rules, so absence of evidence is absence of a requirement, never an
//! error.

use vstd::prelude::*;

use crate::text::{
    contains_sub, dec_str, digit_char, digit_run_end, has_prefix, has_sub, has_sub_ci, is_digit,
    lemma_prefix_len, lines_spec, lines_vec, opt_view, parse_u64, parse_u64_spec, prefix_len,
    run_end, split_char, starts_with, str_skip, trim, trim_seq, u64_to_string, vec_contains_str,
};

verus! {

// ── Detected types ──────────────────────────────────────────────────────────

/// A runtime requirement detected from project files.
#[derive(Debug, Clone)]
pub struct RuntimeReq {
    pub name: String,
    pub version_req: Option<String>,
    pub source: String,
}

/// Dependency directory status.
#[derive(Debug, Clone)]
pub struct DepsInfo {
    pub name: String,
    pub path: String,
    pub exists: bool,
    pub install_cmd: String,
}

/// Service detected from a compose file or from configuration.
#[derive(Debug, Clone)]
pub struct ServiceReq {
    pub name: String,
    pub host: String,
    pub port: u16,
}

/// Environment variable context: expected keys come from an example file,
/// actual keys from the literal `.env` file; both hold file names only.
#[derive(Debug, Clone)]
pub struct EnvContext {
    pub example_file: Option<String>,
    pub env_file: Option<String>,
    pub expected_keys: Vec<String>,
    pub actual_keys: Vec<String>,
}

/// Full project context from auto-detection.
#[derive(Debug, Clone)]
pub struct ProjectContext {
    pub dir: String,
    pub runtimes: Vec<RuntimeReq>,
    pub deps: Vec<DepsInfo>,
    pub services: Vec<ServiceReq>,
    pub ports: Vec<u16>,
    pub env: EnvContext,
    pub has_docker: bool,
}

/// What the scanner can observe of a project directory, as plain values:
/// whether each known file exists, and the text of those whose content the
/// precedence rules read. A file that is missing or unreadable is `None`.
#[derive(Debug, Clone)]
pub struct DirEvidence {
    /// Canonicalized directory path, for display.
    pub dir: String,
    pub package_json_exists: bool,
    pub package_json: Option<String>,
    pub nvmrc: Option<String>,
    pub node_version_file: Option<String>,
    pub yarn_lock: bool,
    pub pnpm_lock: bool,
    pub bun_lockb: bool,
    pub bun_lock: bool,
    pub node_modules: bool,
    pub pyproject_exists: bool,
    pub pyproject: Option<String>,
    pub requirements_txt: bool,
    pub setup_py: bool,
    pub pipfile: bool,
    pub python_version_file: Option<String>,
    /// Any conventional virtual-environment directory holds an interpreter.
    pub venv_present: bool,
    pub cargo_toml_exists: bool,
    pub cargo_toml: Option<String>,
    pub rust_toolchain: Option<String>,
    pub go_mod_exists: bool,
    pub go_mod: Option<String>,
    pub gemfile: bool,
    pub ruby_version_file: Option<String>,
    pub pom_xml: bool,
    pub build_gradle: bool,
    pub build_gradle_kts: bool,
    pub dockerfile: bool,
    /// Content of the first compose file variant that exists.
    pub compose: Option<String>,
    /// Name and content of the first environment example file that exists.
    pub env_example: Option<(String, String)>,
    /// Content of the literal `.env` file.
    pub env_file: Option<String>,
}

// ── Views ───────────────────────────────────────────────────────────────────

pub open spec fn rt_of(x: RuntimeReq) -> (Seq<char>, Option<Seq<char>>, Seq<char>) {
    (x.name@, opt_view(x.version_req), x.source@)
}

pub open spec fn rt_view(s: Seq<RuntimeReq>) -> Seq<(Seq<char>, Option<Seq<char>>, Seq<char>)> {
    Seq::new(s.len(), |i: int| rt_of(s[i]))
}

pub open spec fn dep_of(x: DepsInfo) -> (Seq<char>, Seq<char>, bool, Seq<char>) {
    (x.name@, x.path@, x.exists, x.install_cmd@)
}

pub open spec fn deps_view(s: Seq<DepsInfo>) -> Seq<(Seq<char>, Seq<char>, bool, Seq<char>)> {
    Seq::new(s.len(), |i: int| dep_of(s[i]))
}

pub open spec fn svc_pairs(s: Seq<ServiceReq>) -> Seq<(Seq<char>, u16)> {
    Seq::new(s.len(), |i: int| (s[i].name@, s[i].port))
}

pub open spec fn all_localhost(s: Seq<ServiceReq>) -> bool {
    forall|i: int| 0 <= i < s.len() ==> (#[trigger] s[i].host)@ == "localhost"@
}

// ── Trusted manifest lookups ────────────────────────────────────────────────

/// The string value at `content[outer][inner]` of a JSON document, if the
/// document parses and such a string is there; it depends on the three
/// arguments alone.
pub uninterp spec fn json_str_entry(
    content: Seq<char>,
    outer: Seq<char>,
    inner: Seq<char>,
) -> Option<Seq<char>>;

/// Relies on `serde_json::from_str::<Value>`, `Value::get` and
/// `Value::as_str`: reads the string at `content[outer][inner]`, `None` on
/// a parse failure or when the path is absent or not a string.
#[verifier::external_body]
fn json_lookup_str(content: &str, outer: &str, inner: &str) -> (r: Option<String>)
    ensures
        opt_view(r) == json_str_entry(content@, outer@, inner@),
{
    serde_json::from_str::<serde_json::Value>(content).ok().and_then(
        |v|
            v.get(outer).and_then(|o| o.get(inner)).and_then(|x| x.as_str()).map(
                |s| s.to_string(),
            ),
    )
}

/// The string value at `content[table][key]` of a TOML document, if the
/// document parses and such a string is there; it depends on the three
/// arguments alone.
pub uninterp spec fn toml_str_entry(
    content: Seq<char>,
    table: Seq<char>,
    key: Seq<char>,
) -> Option<Seq<char>>;

/// Relies on `str::parse::<toml::Table>`, `toml::Table::get`,
/// `toml::Value::get` and `toml::Value::as_str`: reads the string at
/// `content[table][key]` of a TOML document, `None` on a parse failure or
/// when the path is absent or not a string.
#[verifier::external_body]
fn toml_lookup_str(content: &str, table: &str, key: &str) -> (r: Option<String>)
    ensures
        opt_view(r) == toml_str_entry(content@, table@, key@),
{
    content.parse::<toml::Table>().ok().and_then(
        |t|
            t.get(table).and_then(|v| v.get(key)).and_then(|x| x.as_str()).map(
                |s| s.to_string(),
            ),
    )
}

// ── Pinned-version files ────────────────────────────────────────────────────

pub open spec fn lvee_pred() -> spec_fn(char) -> bool {
    |c: char| c == 'v'
}

/// A Node pin file: trimmed, leading `v`s stripped, accepted when what is
/// left begins with a digit.
pub open spec fn pin_node_spec(content: Seq<char>) -> Option<Seq<char>> {
    let t = trim_seq(content);
    let v = t.skip(prefix_len(t, lvee_pred()));
    if v.len() > 0 && is_digit(v[0]) {
        Some(v)
    } else {
        None
    }
}

/// A Python pin file: trimmed, accepted when it begins with a digit.
pub open spec fn pin_python_spec(content: Seq<char>) -> Option<Seq<char>> {
    let t = trim_seq(content);
    if t.len() > 0 && is_digit(t[0]) {
        Some(t)
    } else {
        None
    }
}

/// A Ruby pin file: trimmed, accepted when non-empty.
pub open spec fn pin_ruby_spec(content: Seq<char>) -> Option<Seq<char>> {
    let t = trim_seq(content);
    if t.len() > 0 {
        Some(t)
    } else {
        None
    }
}

fn pin_node_exec(content: &str) -> (r: Option<String>)
    ensures
        opt_view(r) == pin_node_spec(content@),
{
    let t = trim(content);
    let n = t.unicode_len();
    let mut k: usize = 0;
    while k < n && t.get_char(k) == 'v'
        invariant
            0 <= k <= n,
            n == t@.len(),
            forall|j: int| 0 <= j < k ==> t@[j] == 'v',
        decreases n - k,
    {
        k = k + 1;
    }
    proof {
        lemma_prefix_len(t@, lvee_pred(), k as int);
    }
    let w = str_skip(t, k);
    let wn = w.unicode_len();
    if wn > 0 && digit_char(w.get_char(0)) {
        Some(String::from_str(w))
    } else {
        None
    }
}

fn pin_python_exec(content: &str) -> (r: Option<String>)
    ensures
        opt_view(r) == pin_python_spec(content@),
{
    let t = trim(content);
    let n = t.unicode_len();
    if n > 0 && digit_char(t.get_char(0)) {
        Some(String::from_str(t))
    } else {
        None
    }
}

fn pin_ruby_exec(content: &str) -> (r: Option<String>)
    ensures
        opt_view(r) == pin_ruby_spec(content@),
{
    let t = trim(content);
    if t.unicode_len() > 0 {
        Some(String::from_str(t))
    } else {
        None
    }
}

// ── Node ────────────────────────────────────────────────────────────────────

pub open spec fn node_req_spec(ev: &DirEvidence) -> Option<Seq<char>> {
    let pin1 = match ev.nvmrc {
        Some(c) => pin_node_spec(c@),
        None => None,
    };
    let pin2 = match ev.node_version_file {
        Some(c) => pin_node_spec(c@),
        None => None,
    };
    let engines = match ev.package_json {
        Some(c) => json_str_entry(c@, "engines"@, "node"@),
        None => None,
    };
    if pin1 is Some {
        pin1
    } else if pin2 is Some {
        pin2
    } else {
        engines
    }
}

pub open spec fn node_src_spec(ev: &DirEvidence) -> Seq<char> {
    let pin1 = match ev.nvmrc {
        Some(c) => pin_node_spec(c@),
        None => None,
    };
    let pin2 = match ev.node_version_file {
        Some(c) => pin_node_spec(c@),
        None => None,
    };
    let engines = match ev.package_json {
        Some(c) => json_str_entry(c@, "engines"@, "node"@),
        None => None,
    };
    if pin1 is Some {
        ".nvmrc"@
    } else if pin2 is Some {
        ".node-version"@
    } else if engines is Some {
        "package.json engines"@
    } else {
        "package.json"@
    }
}

/// The Node install command, chosen by lockfile sniffing in fixed priority.
pub open spec fn node_install_spec(ev: &DirEvidence) -> Seq<char> {
    if ev.yarn_lock {
        "yarn install"@
    } else if ev.pnpm_lock {
        "pnpm install"@
    } else if ev.bun_lockb || ev.bun_lock {
        "bun install"@
    } else {
        "npm install"@
    }
}

pub open spec fn node_entry(ev: &DirEvidence) -> (Seq<char>, Option<Seq<char>>, Seq<char>) {
    ("node"@, node_req_spec(ev), node_src_spec(ev))
}

pub open spec fn node_dep(ev: &DirEvidence) -> (Seq<char>, Seq<char>, bool, Seq<char>) {
    ("node_modules"@, ev.dir@ + "/node_modules"@, ev.node_modules, node_install_spec(ev))
}

fn detect_node(ev: &DirEvidence) -> (r: Option<(RuntimeReq, DepsInfo)>)
    ensures
        (r is Some) == ev.package_json_exists,
        r matches Some(t) ==> rt_of(t.0) == node_entry(ev) && dep_of(t.1) == node_dep(ev),
{
    if !ev.package_json_exists {
        return None;
    }
    let mut vr: Option<String> = None;
    let mut src: &str = "package.json";
    if let Some(c) = &ev.nvmrc {
        if let Some(p) = pin_node_exec(c.as_str()) {
            vr = Some(p);
            src = ".nvmrc";
        }
    }
    if vr.is_none() {
        if let Some(c) = &ev.node_version_file {
            if let Some(p) = pin_node_exec(c.as_str()) {
                vr = Some(p);
                src = ".node-version";
            }
        }
    }
    if vr.is_none() {
        if let Some(c) = &ev.package_json {
            if let Some(e) = json_lookup_str(c.as_str(), "engines", "node") {
                vr = Some(e);
                src = "package.json engines";
            }
        }
    }
    let rt = RuntimeReq {
        name: String::from_str("node"),
        version_req: vr,
        source: String::from_str(src),
    };
    let install: &str = if ev.yarn_lock {
        "yarn install"
    } else if ev.pnpm_lock {
        "pnpm install"
    } else if ev.bun_lockb || ev.bun_lock {
        "bun install"
    } else {
        "npm install"
    };
    let mut path = ev.dir.clone();
    path.append("/node_modules");
    let dep = DepsInfo {
        name: String::from_str("node_modules"),
        path,
        exists: ev.node_modules,
        install_cmd: String::from_str(install),
    };
    Some((rt, dep))
}

// ── Python ──────────────────────────────────────────────────────────────────

pub open spec fn python_present(ev: &DirEvidence) -> bool {
    ev.pyproject_exists || ev.requirements_txt || ev.setup_py || ev.pipfile
}

pub open spec fn python_req_spec(ev: &DirEvidence) -> Option<Seq<char>> {
    let pin = match ev.python_version_file {
        Some(c) => pin_python_spec(c@),
        None => None,
    };
    let manifest = match ev.pyproject {
        Some(c) => toml_str_entry(c@, "project"@, "requires-python"@),
        None => None,
    };
    if pin is Some {
        pin
    } else {
        manifest
    }
}

pub open spec fn python_src_spec(ev: &DirEvidence) -> Seq<char> {
    let pin = match ev.python_version_file {
        Some(c) => pin_python_spec(c@),
        None => None,
    };
    let manifest = match ev.pyproject {
        Some(c) => toml_str_entry(c@, "project"@, "requires-python"@),
        None => None,
    };
    if pin is Some {
        ".python-version"@
    } else if manifest is Some {
        "pyproject.toml"@
    } else {
        "project files"@
    }
}

/// The Python install command: a Pipfile means pipenv, a poetry-flavored
/// manifest means poetry, a plain manifest or requirements file means venv
/// plus pip.
pub open spec fn python_install_spec(ev: &DirEvidence) -> Seq<char> {
    if ev.pipfile {
        "pipenv install"@
    } else if ev.pyproject_exists {
        if match ev.pyproject {
            Some(c) => has_sub(c@, "[tool.poetry]"@),
            None => false,
        } {
            "poetry install"@
        } else {
            "python3 -m venv .venv && pip install -e ."@
        }
    } else {
        "python3 -m venv .venv && pip install -r requirements.txt"@
    }
}

pub open spec fn python_entry(ev: &DirEvidence) -> (Seq<char>, Option<Seq<char>>, Seq<char>) {
    ("python"@, python_req_spec(ev), python_src_spec(ev))
}

pub open spec fn python_dep(ev: &DirEvidence) -> (Seq<char>, Seq<char>, bool, Seq<char>) {
    ("virtualenv"@, ev.dir@ + "/.venv"@, ev.venv_present, python_install_spec(ev))
}

fn detect_python(ev: &DirEvidence) -> (r: Option<(RuntimeReq, DepsInfo)>)
    ensures
        (r is Some) == python_present(ev),
        r matches Some(t) ==> rt_of(t.0) == python_entry(ev) && dep_of(t.1) == python_dep(ev),
{
    if !(ev.pyproject_exists || ev.requirements_txt || ev.setup_py || ev.pipfile) {
        return None;
    }
    let mut vr: Option<String> = None;
    let mut src: &str = "project files";
    if let Some(c) = &ev.python_version_file {
        if let Some(p) = pin_python_exec(c.as_str()) {
            vr = Some(p);
            src = ".python-version";
        }
    }
    if vr.is_none() {
        if let Some(c) = &ev.pyproject {
            if let Some(m) = toml_lookup_str(c.as_str(), "project", "requires-python") {
                vr = Some(m);
                src = "pyproject.toml";
            }
        }
    }
    let rt = RuntimeReq {
        name: String::from_str("python"),
        version_req: vr,
        source: String::from_str(src),
    };
    let install: &str = if ev.pipfile {
        "pipenv install"
    } else if ev.pyproject_exists {
        let poetry = if let Some(c) = &ev.pyproject {
            contains_sub(c.as_str(), "[tool.poetry]")
        } else {
            false
        };
        if poetry {
            "poetry install"
        } else {
            "python3 -m venv .venv && pip install -e ."
        }
    } else {
        "python3 -m venv .venv && pip install -r requirements.txt"
    };
    let mut path = ev.dir.clone();
    path.append("/.venv");
    let dep = DepsInfo {
        name: String::from_str("virtualenv"),
        path,
        exists: ev.venv_present,
        install_cmd: String::from_str(install),
    };
    Some((rt, dep))
}

// ── Rust ────────────────────────────────────────────────────────────────────

pub open spec fn rust_req_spec(ev: &DirEvidence) -> Option<Seq<char>> {
    let channel = match ev.rust_toolchain {
        Some(c) => toml_str_entry(c@, "toolchain"@, "channel"@),
        None => None,
    };
    let pinned = match channel {
        Some(ch) => if ch.len() > 0 && is_digit(ch[0]) {
            Some(">="@ + ch)
        } else {
            None
        },
        None => None,
    };
    let msrv = match ev.cargo_toml {
        Some(c) => toml_str_entry(c@, "package"@, "rust-version"@),
        None => None,
    };
    if pinned is Some {
        pinned
    } else {
        match msrv {
            Some(rv) => Some(">="@ + rv),
            None => None,
        }
    }
}

pub open spec fn rust_src_spec(ev: &DirEvidence) -> Seq<char> {
    let channel = match ev.rust_toolchain {
        Some(c) => toml_str_entry(c@, "toolchain"@, "channel"@),
        None => None,
    };
    let pinned_ok = match channel {
        Some(ch) => ch.len() > 0 && is_digit(ch[0]),
        None => false,
    };
    let msrv = match ev.cargo_toml {
        Some(c) => toml_str_entry(c@, "package"@, "rust-version"@),
        None => None,
    };
    if pinned_ok {
        "rust-toolchain.toml"@
    } else if msrv is Some {
        "Cargo.toml rust-version"@
    } else {
        "Cargo.toml"@
    }
}

pub open spec fn rust_entry(ev: &DirEvidence) -> (Seq<char>, Option<Seq<char>>, Seq<char>) {
    ("rust"@, rust_req_spec(ev), rust_src_spec(ev))
}

fn ge_of(s: &str) -> (r: String)
    ensures
        r@ == ">="@ + s@,
{
    let mut r = String::from_str(">=");
    r.append(s);
    r
}

fn detect_rust(ev: &DirEvidence) -> (r: Option<RuntimeReq>)
    ensures
        (r is Some) == ev.cargo_toml_exists,
        r matches Some(t) ==> rt_of(t) == rust_entry(ev),
{
    if !ev.cargo_toml_exists {
        return None;
    }
    let mut vr: Option<String> = None;
    let mut src: &str = "Cargo.toml";
    if let Some(c) = &ev.rust_toolchain {
        if let Some(ch) = toml_lookup_str(c.as_str(), "toolchain", "channel") {
            let chs = ch.as_str();
            if chs.unicode_len() > 0 && digit_char(chs.get_char(0)) {
                vr = Some(ge_of(chs));
                src = "rust-toolchain.toml";
            }
        }
    }
    if vr.is_none() {
        if let Some(c) = &ev.cargo_toml {
            if let Some(rv) = toml_lookup_str(c.as_str(), "package", "rust-version") {
                vr = Some(ge_of(rv.as_str()));
                src = "Cargo.toml rust-version";
            }
        }
    }
    Some(
        RuntimeReq {
            name: String::from_str("rust"),
            version_req: vr,
            source: String::from_str(src),
        },
    )
}

// ── Go ──────────────────────────────────────────────────────────────────────

/// The version after the first `go ` directive line, trimmed.
pub open spec fn go_directive(lines: Seq<Seq<char>>) -> Option<Seq<char>>
    decreases lines.len(),
{
    if lines.len() == 0 {
        None
    } else {
        let l = trim_seq(lines[0]);
        if has_prefix(l, "go "@) {
            Some(trim_seq(l.skip(3)))
        } else {
            go_directive(lines.skip(1))
        }
    }
}

pub open spec fn go_req_spec(ev: &DirEvidence) -> Option<Seq<char>> {
    match ev.go_mod {
        Some(c) => match go_directive(lines_spec(c@)) {
            Some(v) => Some(">="@ + v),
            None => None,
        },
        None => None,
    }
}

pub open spec fn go_entry(ev: &DirEvidence) -> (Seq<char>, Option<Seq<char>>, Seq<char>) {
    ("go"@, go_req_spec(ev), "go.mod"@)
}

fn detect_go(ev: &DirEvidence) -> (r: Option<RuntimeReq>)
    ensures
        (r is Some) == ev.go_mod_exists,
        r matches Some(t) ==> rt_of(t) == go_entry(ev),
{
    if !ev.go_mod_exists {
        return None;
    }
    let mut vr: Option<String> = None;
    if let Some(c) = &ev.go_mod {
        let lines = lines_vec(c.as_str());
        let mut i: usize = 0;
        let ghost all = lines_spec(c@);
        proof {
            assert(all.skip(0) =~= all);
        }
        while i < lines.len() && vr.is_none()
            invariant
                0 <= i <= lines.len(),
                lines.deep_view() == all,
                vr is None ==> go_directive(all) == go_directive(all.skip(i as int)),
                vr matches Some(v) ==> go_directive(all) matches Some(g) && v@ == ">="@ + g,
            decreases lines.len() - i,
        {
            let l = trim(lines[i].as_str());
            proof {
                assert(all.skip(i as int)[0] == all[i as int]);
                assert(all.skip(i as int).skip(1) =~= all.skip(i + 1));
            }
            if starts_with(l, "go ") {
                proof {
                    reveal_strlit("go ");
                }
                let tail = str_skip(l, 3);
                let v = trim(tail);
                vr = Some(ge_of(v));
            }
            i = i + 1;
        }
        if vr.is_none() {
            proof {
                assert(all.skip(lines.deep_view().len() as int) =~= Seq::<Seq<char>>::empty());
            }
        }
    }
    Some(
        RuntimeReq {
            name: String::from_str("go"),
            version_req: vr,
            source: String::from_str("go.mod"),
        },
    )
}

// ── Ruby ────────────────────────────────────────────────────────────────────

pub open spec fn ruby_req_spec(ev: &DirEvidence) -> Option<Seq<char>> {
    match ev.ruby_version_file {
        Some(c) => pin_ruby_spec(c@),
        None => None,
    }
}

pub open spec fn ruby_src_spec(ev: &DirEvidence) -> Seq<char> {
    if ruby_req_spec(ev) is Some {
        ".ruby-version"@
    } else {
        "Gemfile"@
    }
}

pub open spec fn ruby_entry(ev: &DirEvidence) -> (Seq<char>, Option<Seq<char>>, Seq<char>) {
    ("ruby"@, ruby_req_spec(ev), ruby_src_spec(ev))
}

fn detect_ruby(ev: &DirEvidence) -> (r: Option<RuntimeReq>)
    ensures
        (r is Some) == ev.gemfile,
        r matches Some(t) ==> rt_of(t) == ruby_entry(ev),
{
    if !ev.gemfile {
        return None;
    }
    let mut vr: Option<String> = None;
    let mut src: &str = "Gemfile";
    if let Some(c) = &ev.ruby_version_file {
        if let Some(p) = pin_ruby_exec(c.as_str()) {
            vr = Some(p);
            src = ".ruby-version";
        }
    }
    Some(
        RuntimeReq {
            name: String::from_str("ruby"),
            version_req: vr,
            source: String::from_str(src),
        },
    )
}

// ── Java ────────────────────────────────────────────────────────────────────

pub open spec fn java_present(ev: &DirEvidence) -> bool {
    ev.pom_xml || ev.build_gradle || ev.build_gradle_kts
}

pub open spec fn java_src_spec(ev: &DirEvidence) -> Seq<char> {
    if ev.pom_xml {
        "pom.xml"@
    } else {
        "build.gradle"@
    }
}

pub open spec fn java_entry(ev: &DirEvidence) -> (Seq<char>, Option<Seq<char>>, Seq<char>) {
    ("java"@, None, java_src_spec(ev))
}

/// Java is a presence-only requirement: either build system counts, and no
/// version constraint is ever inferred.
pub fn detect_java(ev: &DirEvidence) -> (r: Option<RuntimeReq>)
    ensures
        (r is Some) == java_present(ev),
        r matches Some(t) ==> rt_of(t) == java_entry(ev),
{
    let has_maven = ev.pom_xml;
    let has_gradle = ev.build_gradle || ev.build_gradle_kts;
    if !has_maven && !has_gradle {
        return None;
    }
    let src: &str = if has_maven {
        "pom.xml"
    } else {
        "build.gradle"
    };
    Some(
        RuntimeReq {
            name: String::from_str("java"),
            version_req: None,
            source: String::from_str(src),
        },
    )
}

// ── Compose file: service keywords and port mappings ────────────────────────

/// A `<digits>:<port>` mapping occurs at `i`: a digit run whose maximal
/// extent is followed by a colon and the default port's digits.
pub open spec fn port_map_at(s: Seq<char>, port: Seq<char>, i: int) -> bool {
    0 <= i < s.len() && is_digit(s[i]) && {
        let j = run_end(s, i);
        j + 1 + port.len() <= s.len() && s[j] == ':' && s.subrange(j + 1, j + 1 + port.len())
            == port
    }
}

pub open spec fn first_port_map(s: Seq<char>, port: Seq<char>, i: int) -> int
    decreases s.len() - i when 0 <= i <= s.len()
{
    if i >= s.len() {
        s.len() as int
    } else if port_map_at(s, port, i) {
        i
    } else {
        first_port_map(s, port, i + 1)
    }
}

/// The digits mapped to the given port by the leftmost `<digits>:<port>`
/// pattern, if any.
pub open spec fn port_capture(s: Seq<char>, port: Seq<char>) -> Option<Seq<char>> {
    let i = first_port_map(s, port, 0);
    if i < s.len() {
        Some(s.subrange(i, run_end(s, i)))
    } else {
        None
    }
}

/// The host port for a service: the digits mapped to its default port when
/// a mapping exists and fits in `u16`, else the default itself.
pub open spec fn compose_port(content: Seq<char>, dport: u16) -> u16 {
    match port_capture(content, dec_str(dport as nat)) {
        Some(cap) => match parse_u64_spec(cap) {
            Some(x) => if x <= u16::MAX as u64 {
                x as u16
            } else {
                dport
            },
            None => dport,
        },
        None => dport,
    }
}

proof fn lemma_first_port_from(s: Seq<char>, port: Seq<char>, a: int, i: int)
    requires
        0 <= a <= i <= s.len(),
        forall|k: int| a <= k < i ==> !port_map_at(s, port, k),
    ensures
        first_port_map(s, port, a) == first_port_map(s, port, i),
    decreases i - a,
{
    if a < i {
        lemma_first_port_from(s, port, a + 1, i);
    }
}

fn find_port_capture(content: &str, portstr: &str) -> (r: Option<String>)
    ensures
        opt_view(r) == port_capture(content@, portstr@),
{
    let n = content.unicode_len();
    let pn = portstr.unicode_len();
    let mut i: usize = 0;
    while i < n
        invariant
            0 <= i <= n,
            n == content@.len(),
            pn == portstr@.len(),
            forall|k: int| 0 <= k < i ==> !port_map_at(content@, portstr@, k),
        decreases n - i,
    {
        if digit_char(content.get_char(i)) {
            let j = digit_run_end(content, i);
            let hit = if j < n && content.get_char(j) == ':' && n - j - 1 >= pn {
                let after = str_skip(content, j + 1);
                starts_with(after, portstr)
            } else {
                false
            };
            proof {
                if j < n && content@[j as int] == ':' && n - j - 1 >= pn {
                    assert(content@.skip(j + 1).subrange(0, pn as int) =~= content@.subrange(
                        j + 1,
                        j + 1 + pn,
                    ));
                }
            }
            if hit {
                proof {
                    assert(port_map_at(content@, portstr@, i as int));
                    lemma_first_port_from(content@, portstr@, 0, i as int);
                }
                let cap = content.substring_char(i, j);
                return Some(String::from_str(cap));
            } else {
                proof {
                    assert(!port_map_at(content@, portstr@, i as int));
                }
            }
        } else {
            proof {
                assert(!port_map_at(content@, portstr@, i as int));
            }
        }
        i = i + 1;
    }
    proof {
        lemma_first_port_from(content@, portstr@, 0, n as int);
    }
    None
}

fn compose_port_exec(content: &str, dport: u16) -> (p: u16)
    ensures
        p == compose_port(content@, dport),
{
    let portstr = u64_to_string(dport as u64);
    match find_port_capture(content, portstr.as_str()) {
        Some(cap) => match parse_u64(cap.as_str()) {
            Some(x) => if x <= 65535 {
                x as u16
            } else {
                dport
            },
            None => dport,
        },
        None => dport,
    }
}

// ── The known-service table and the fold over it ────────────────────────────

pub open spec fn acc_has_name(acc: Seq<(Seq<char>, u16)>, name: Seq<char>) -> bool {
    exists|i: int| 0 <= i < acc.len() && (#[trigger] acc[i]).0 == name
}

/// One table entry applied to the accumulated services: a case-insensitive
/// keyword hit adds the canonical name once, with its mapped or default
/// port.
pub open spec fn compose_step(
    content: Seq<char>,
    pat: Seq<char>,
    canon: Seq<char>,
    dport: u16,
    acc: Seq<(Seq<char>, u16)>,
) -> Seq<(Seq<char>, u16)> {
    if has_sub_ci(content, pat) && !acc_has_name(acc, canon) {
        acc.push((canon, compose_port(content, dport)))
    } else {
        acc
    }
}

/// The fixed keyword table: `(pattern, canonical name, default port)`.
pub open spec fn known_services() -> Seq<(Seq<char>, Seq<char>, u16)> {
    seq![
        ("redis"@, "redis"@, 6379u16),
        ("postgres"@, "postgres"@, 5432u16),
        ("postgresql"@, "postgres"@, 5432u16),
        ("mysql"@, "mysql"@, 3306u16),
        ("mariadb"@, "mysql"@, 3306u16),
        ("mongo"@, "mongo"@, 27017u16),
        ("mongodb"@, "mongo"@, 27017u16),
        ("rabbitmq"@, "rabbitmq"@, 5672u16),
        ("memcached"@, "memcached"@, 11211u16),
        ("elasticsearch"@, "elasticsearch"@, 9200u16),
        ("minio"@, "minio"@, 9000u16),
        ("mailpit"@, "mailpit"@, 1025u16),
    ]
}

pub open spec fn compose_fold(
    content: Seq<char>,
    entries: Seq<(Seq<char>, Seq<char>, u16)>,
    acc: Seq<(Seq<char>, u16)>,
) -> Seq<(Seq<char>, u16)>
    decreases entries.len(),
{
    if entries.len() == 0 {
        acc
    } else {
        compose_fold(
            content,
            entries.skip(1),
            compose_step(content, entries[0].0, entries[0].1, entries[0].2, acc),
        )
    }
}

/// The services a compose file's text yields, in table order.
pub open spec fn compose_services_spec(content: Seq<char>) -> Seq<(Seq<char>, u16)> {
    compose_fold(content, known_services(), Seq::<(Seq<char>, u16)>::empty())
}

pub open spec fn ports_of(s: Seq<ServiceReq>) -> Seq<u16> {
    Seq::new(s.len(), |i: int| s[i].port)
}

fn svc_has_name(v: &Vec<ServiceReq>, name: &str) -> (r: bool)
    ensures
        r == acc_has_name(svc_pairs(v@), name@),
{
    let mut i: usize = 0;
    while i < v.len()
        invariant
            0 <= i <= v@.len(),
            forall|k: int| 0 <= k < i ==> (#[trigger] v@[k]).name@ != name@,
        decreases v.len() - i,
    {
        if crate::text::str_eq(v[i].name.as_str(), name) {
            proof {
                assert(svc_pairs(v@)[i as int].0 == name@);
            }
            return true;
        }
        i = i + 1;
    }
    proof {
        assert(forall|k: int|
            0 <= k < svc_pairs(v@).len() ==> (#[trigger] svc_pairs(v@)[k]).0 == v@[k].name@);
    }
    false
}

fn try_service(
    services: &mut Vec<ServiceReq>,
    ports: &mut Vec<u16>,
    content: &str,
    pattern: &str,
    canonical: &str,
    dport: u16,
)
    ensures
        svc_pairs(final(services)@) == compose_step(
            content@,
            pattern@,
            canonical@,
            dport,
            svc_pairs(old(services)@),
        ),
        forall|k: int|
            0 <= k < old(services)@.len() ==> final(services)@[k] == old(services)@[k],
        old(services)@.len() <= final(services)@.len() <= old(services)@.len() + 1,
        forall|k: int|
            old(services)@.len() <= k < final(services)@.len()
                ==> (#[trigger] final(services)@[k].host)@ == "localhost"@,
        old(ports)@ == ports_of(old(services)@) ==> final(ports)@ == ports_of(final(services)@),
{
    let hit = crate::text::contains_ci(content, pattern);
    if hit && !svc_has_name(services, canonical) {
        let port = compose_port_exec(content, dport);
        services.push(
            ServiceReq {
                name: String::from_str(canonical),
                host: String::from_str("localhost"),
                port,
            },
        );
        ports.push(port);
        proof {
            assert(svc_pairs(services@) =~= svc_pairs(old(services)@).push(
                (canonical@, port),
            ));
            assert(ports_of(services@) =~= ports_of(old(services)@).push(port));
        }
    } else {
        proof {
            assert(svc_pairs(services@) =~= svc_pairs(old(services)@));
            assert(ports_of(services@) =~= ports_of(old(services)@));
        }
    }
}

/// Scan a compose file's text for known service keywords, appending one
/// `ServiceReq` per canonical name found, and its host port to `ports`.
pub fn parse_compose_services(
    services: &mut Vec<ServiceReq>,
    ports: &mut Vec<u16>,
    content: &str,
)
    ensures
        svc_pairs(final(services)@) == compose_fold(
            content@,
            known_services(),
            svc_pairs(old(services)@),
        ),
        forall|k: int|
            0 <= k < old(services)@.len() ==> final(services)@[k] == old(services)@[k],
        old(services)@.len() <= final(services)@.len(),
        forall|k: int|
            old(services)@.len() <= k < final(services)@.len()
                ==> (#[trigger] final(services)@[k].host)@ == "localhost"@,
        old(ports)@ == ports_of(old(services)@) ==> final(ports)@ == ports_of(final(services)@),
{
    let ghost ks = known_services();
    let ghost acc0 = svc_pairs(services@);
    proof {
        assert(ks.skip(0) =~= ks);
    }
    let ghost acc0 = svc_pairs(services@);
    try_service(services, ports, content, "redis", "redis", 6379);
    proof {
        assert(ks[0] == ("redis"@, "redis"@, 6379u16));
        assert(ks.skip(0)[0] == ks[0]);
        assert(ks.skip(0).skip(1) =~= ks.skip(1));
        assert(compose_fold(content@, ks.skip(0), acc0) == compose_fold(
            content@,
            ks.skip(1),
            svc_pairs(services@),
        ));
    }
    let ghost acc1 = svc_pairs(services@);
    try_service(services, ports, content, "postgres", "postgres", 5432);
    proof {
        assert(ks[1] == ("postgres"@, "postgres"@, 5432u16));
        assert(ks.skip(1)[0] == ks[1]);
        assert(ks.skip(1).skip(1) =~= ks.skip(2));
        assert(compose_fold(content@, ks.skip(1), acc1) == compose_fold(
            content@,
            ks.skip(2),
            svc_pairs(services@),
        ));
    }
    let ghost acc2 = svc_pairs(services@);
    try_service(services, ports, content, "postgresql", "postgres", 5432);
    proof {
        assert(ks[2] == ("postgresql"@, "postgres"@, 5432u16));
        assert(ks.skip(2)[0] == ks[2]);
        assert(ks.skip(2).skip(1) =~= ks.skip(3));
        assert(compose_fold(content@, ks.skip(2), acc2) == compose_fold(
            content@,
            ks.skip(3),
            svc_pairs(services@),
        ));
    }
    let ghost acc3 = svc_pairs(services@);
    try_service(services, ports, content, "mysql", "mysql", 3306);
    proof {
        assert(ks[3] == ("mysql"@, "mysql"@, 3306u16));
        assert(ks.skip(3)[0] == ks[3]);
        assert(ks.skip(3).skip(1) =~= ks.skip(4));
        assert(compose_fold(content@, ks.skip(3), acc3) == compose_fold(
            content@,
            ks.skip(4),
            svc_pairs(services@),
        ));
    }
    let ghost acc4 = svc_pairs(services@);
    try_service(services, ports, content, "mariadb", "mysql", 3306);
    proof {
        assert(ks[4] == ("mariadb"@, "mysql"@, 3306u16));
        assert(ks.skip(4)[0] == ks[4]);
        assert(ks.skip(4).skip(1) =~= ks.skip(5));
        assert(compose_fold(content@, ks.skip(4), acc4) == compose_fold(
            content@,
            ks.skip(5),
            svc_pairs(services@),
        ));
    }
    let ghost acc5 = svc_pairs(services@);
    try_service(services, ports, content, "mongo", "mongo", 27017);
    proof {
        assert(ks[5] == ("mongo"@, "mongo"@, 27017u16));
        assert(ks.skip(5)[0] == ks[5]);
        assert(ks.skip(5).skip(1) =~= ks.skip(6));
        assert(compose_fold(content@, ks.skip(5), acc5) == compose_fold(
            content@,
            ks.skip(6),
            svc_pairs(services@),
        ));
    }
    let ghost acc6 = svc_pairs(services@);
    try_service(services, ports, content, "mongodb", "mongo", 27017);
    proof {
        assert(ks[6] == ("mongodb"@, "mongo"@, 27017u16));
        assert(ks.skip(6)[0] == ks[6]);
        assert(ks.skip(6).skip(1) =~= ks.skip(7));
        assert(compose_fold(content@, ks.skip(6), acc6) == compose_fold(
            content@,
            ks.skip(7),
            svc_pairs(services@),
        ));
    }
    let ghost acc7 = svc_pairs(services@);
    try_service(services, ports, content, "rabbitmq", "rabbitmq", 5672);
    proof {
        assert(ks[7] == ("rabbitmq"@, "rabbitmq"@, 5672u16));
        assert(ks.skip(7)[0] == ks[7]);
        assert(ks.skip(7).skip(1) =~= ks.skip(8));
        assert(compose_fold(content@, ks.skip(7), acc7) == compose_fold(
            content@,
            ks.skip(8),
            svc_pairs(services@),
        ));
    }
    let ghost acc8 = svc_pairs(services@);
    try_service(services, ports, content, "memcached", "memcached", 11211);
    proof {
        assert(ks[8] == ("memcached"@, "memcached"@, 11211u16));
        assert(ks.skip(8)[0] == ks[8]);
        assert(ks.skip(8).skip(1) =~= ks.skip(9));
        assert(compose_fold(content@, ks.skip(8), acc8) == compose_fold(
            content@,
            ks.skip(9),
            svc_pairs(services@),
        ));
    }
    let ghost acc9 = svc_pairs(services@);
    try_service(services, ports, content, "elasticsearch", "elasticsearch", 9200);
    proof {
        assert(ks[9] == ("elasticsearch"@, "elasticsearch"@, 9200u16));
        assert(ks.skip(9)[0] == ks[9]);
        assert(ks.skip(9).skip(1) =~= ks.skip(10));
        assert(compose_fold(content@, ks.skip(9), acc9) == compose_fold(
            content@,
            ks.skip(10),
            svc_pairs(services@),
        ));
    }
    let ghost acc10 = svc_pairs(services@);
    try_service(services, ports, content, "minio", "minio", 9000);
    proof {
        assert(ks[10] == ("minio"@, "minio"@, 9000u16));
        assert(ks.skip(10)[0] == ks[10]);
        assert(ks.skip(10).skip(1) =~= ks.skip(11));
        assert(compose_fold(content@, ks.skip(10), acc10) == compose_fold(
            content@,
            ks.skip(11),
            svc_pairs(services@),
        ));
    }
    let ghost acc11 = svc_pairs(services@);
    try_service(services, ports, content, "mailpit", "mailpit", 1025);
    proof {
        assert(ks[11] == ("mailpit"@, "mailpit"@, 1025u16));
        assert(ks.skip(11)[0] == ks[11]);
        assert(ks.skip(11).skip(1) =~= ks.skip(12));
        assert(compose_fold(content@, ks.skip(11), acc11) == compose_fold(
            content@,
            ks.skip(12),
            svc_pairs(services@),
        ));
    }
    proof {
        assert(ks.skip(12) =~= Seq::<(Seq<char>, Seq<char>, u16)>::empty());
        assert(compose_fold(content@, ks.skip(12), svc_pairs(services@)) == svc_pairs(services@));
    }
}

// ── Environment files ───────────────────────────────────────────────────────

/// The key a `KEY=VALUE` line contributes: blanks and `#` comments none, an
/// `export ` prefix stripped, the part before the first `=` trimmed.
pub open spec fn env_key_of_line(l: Seq<char>) -> Option<Seq<char>> {
    let t = trim_seq(l);
    if t.len() == 0 || t[0] == '#' {
        None
    } else {
        let u = if has_prefix(t, "export "@) {
            t.skip(7)
        } else {
            t
        };
        let k = trim_seq(split_char(u, '=')[0]);
        if k.len() == 0 {
            None
        } else {
            Some(k)
        }
    }
}

pub open spec fn env_keys_acc(lines: Seq<Seq<char>>, acc: Seq<Seq<char>>) -> Seq<Seq<char>>
    decreases lines.len(),
{
    if lines.len() == 0 {
        acc
    } else {
        let acc2 = match env_key_of_line(lines[0]) {
            Some(k) => if acc.contains(k) {
                acc
            } else {
                acc.push(k)
            },
            None => acc,
        };
        env_keys_acc(lines.skip(1), acc2)
    }
}

/// The keys of a line-oriented `KEY=VALUE` file, in encountered order,
/// first occurrence kept on duplicates.
pub open spec fn env_keys_spec(content: Seq<char>) -> Seq<Seq<char>> {
    env_keys_acc(lines_spec(content), Seq::<Seq<char>>::empty())
}

/// Extract the environment keys a dotenv-style text declares.
pub fn parse_env_keys(content: &str) -> (r: Vec<String>)
    ensures
        r.deep_view() == env_keys_spec(content@),
{
    let lines = lines_vec(content);
    let ghost all = lines_spec(content@);
    let mut r: Vec<String> = Vec::new();
    let mut i: usize = 0;
    proof {
        assert(all.skip(0) =~= all);
        assert(r.deep_view() =~= Seq::<Seq<char>>::empty());
    }
    while i < lines.len()
        invariant
            0 <= i <= lines.len(),
            lines.deep_view() == all,
            env_keys_spec(content@) == env_keys_acc(all.skip(i as int), r.deep_view()),
        decreases lines.len() - i,
    {
        let ghost old_dv = r.deep_view();
        proof {
            assert(all.skip(i as int)[0] == all[i as int]);
            assert(all.skip(i as int).skip(1) =~= all.skip(i + 1));
        }
        let t = trim(lines[i].as_str());
        let tn = t.unicode_len();
        if tn > 0 && t.get_char(0) != '#' {
            let u: &str = if starts_with(t, "export ") {
                proof {
                    reveal_strlit("export ");
                }
                str_skip(t, 7)
            } else {
                t
            };
            let parts = crate::text::split_str(u, '=');
            let k = trim(parts[0].as_str());
            if !k.is_empty() && !vec_contains_str(&r, k) {
                r.push(String::from_str(k));
                proof {
                    assert(r.deep_view() =~= old_dv.push(k@));
                }
            }
        }
        i = i + 1;
    }
    proof {
        assert(all.skip(lines.deep_view().len() as int) =~= Seq::<Seq<char>>::empty());
    }
    r
}

pub open spec fn env_example_name(ev: &DirEvidence) -> Option<Seq<char>> {
    match ev.env_example {
        Some(p) => Some(p.0@),
        None => None,
    }
}

pub open spec fn env_expected_spec(ev: &DirEvidence) -> Seq<Seq<char>> {
    match ev.env_example {
        Some(p) => env_keys_spec(p.1@),
        None => Seq::<Seq<char>>::empty(),
    }
}

pub open spec fn env_actual_spec(ev: &DirEvidence) -> Seq<Seq<char>> {
    match ev.env_file {
        Some(c) => env_keys_spec(c@),
        None => Seq::<Seq<char>>::empty(),
    }
}

fn detect_env(ev: &DirEvidence) -> (r: EnvContext)
    ensures
        opt_view(r.example_file) == env_example_name(ev),
        (r.env_file is Some) == (ev.env_file is Some),
        r.env_file matches Some(f) ==> f@ == ".env"@,
        r.expected_keys.deep_view() == env_expected_spec(ev),
        r.actual_keys.deep_view() == env_actual_spec(ev),
{
    let mut example_file: Option<String> = None;
    let mut expected_keys: Vec<String> = Vec::new();
    if let Some(p) = &ev.env_example {
        example_file = Some(p.0.clone());
        expected_keys = parse_env_keys(p.1.as_str());
    }
    let mut env_file: Option<String> = None;
    let mut actual_keys: Vec<String> = Vec::new();
    if let Some(c) = &ev.env_file {
        env_file = Some(String::from_str(".env"));
        actual_keys = parse_env_keys(c.as_str());
    }
    proof {
        if ev.env_example is None {
            assert(expected_keys.deep_view() =~= Seq::<Seq<char>>::empty());
        }
        if ev.env_file is None {
            assert(actual_keys.deep_view() =~= Seq::<Seq<char>>::empty());
        }
    }
    EnvContext { example_file, env_file, expected_keys, actual_keys }
}

// ── The scan itself ─────────────────────────────────────────────────────────

pub open spec fn runtimes_spec(ev: &DirEvidence) -> Seq<(Seq<char>, Option<Seq<char>>, Seq<char>)> {
    (if ev.package_json_exists {
        seq![node_entry(ev)]
    } else {
        Seq::<(Seq<char>, Option<Seq<char>>, Seq<char>)>::empty()
    }) + (if python_present(ev) {
        seq![python_entry(ev)]
    } else {
        Seq::<(Seq<char>, Option<Seq<char>>, Seq<char>)>::empty()
    }) + (if ev.cargo_toml_exists {
        seq![rust_entry(ev)]
    } else {
        Seq::<(Seq<char>, Option<Seq<char>>, Seq<char>)>::empty()
    }) + (if ev.go_mod_exists {
        seq![go_entry(ev)]
    } else {
        Seq::<(Seq<char>, Option<Seq<char>>, Seq<char>)>::empty()
    }) + (if ev.gemfile {
        seq![ruby_entry(ev)]
    } else {
        Seq::<(Seq<char>, Option<Seq<char>>, Seq<char>)>::empty()
    }) + (if java_present(ev) {
        seq![java_entry(ev)]
    } else {
        Seq::<(Seq<char>, Option<Seq<char>>, Seq<char>)>::empty()
    })
}

pub open spec fn deps_spec(ev: &DirEvidence) -> Seq<(Seq<char>, Seq<char>, bool, Seq<char>)> {
    (if ev.package_json_exists {
        seq![node_dep(ev)]
    } else {
        Seq::<(Seq<char>, Seq<char>, bool, Seq<char>)>::empty()
    }) + (if python_present(ev) {
        seq![python_dep(ev)]
    } else {
        Seq::<(Seq<char>, Seq<char>, bool, Seq<char>)>::empty()
    })
}

pub open spec fn services_spec(ev: &DirEvidence) -> Seq<(Seq<char>, u16)> {
    match ev.compose {
        Some(c) => compose_services_spec(c@),
        None => Seq::<(Seq<char>, u16)>::empty(),
    }
}

pub open spec fn docker_spec(ev: &DirEvidence) -> bool {
    ev.dockerfile || ev.compose is Some
}

/// Scan the observed evidence of a project directory and infer everything
/// the checks will need: runtimes with their constraints and provenance,
/// dependency state, services with ports, environment keys, and whether the
/// project is containerized. Absence of any file never fails the scan.
#[verifier::rlimit(100)]
pub fn scan(ev: &DirEvidence) -> (r: ProjectContext)
    ensures
        r.dir@ == ev.dir@,
        rt_view(r.runtimes@) == runtimes_spec(ev),
        deps_view(r.deps@) == deps_spec(ev),
        svc_pairs(r.services@) == services_spec(ev),
        all_localhost(r.services@),
        r.ports@ == ports_of(r.services@),
        opt_view(r.env.example_file) == env_example_name(ev),
        (r.env.env_file is Some) == (ev.env_file is Some),
        r.env.expected_keys.deep_view() == env_expected_spec(ev),
        r.env.actual_keys.deep_view() == env_actual_spec(ev),
        r.has_docker == docker_spec(ev),
{
    let mut runtimes: Vec<RuntimeReq> = Vec::new();
    let mut deps: Vec<DepsInfo> = Vec::new();
    if let Some(t) = detect_node(ev) {
        runtimes.push(t.0);
        deps.push(t.1);
    }
    if let Some(t) = detect_python(ev) {
        runtimes.push(t.0);
        deps.push(t.1);
    }
    if let Some(rt) = detect_rust(ev) {
        runtimes.push(rt);
    }
    if let Some(rt) = detect_go(ev) {
        runtimes.push(rt);
    }
    if let Some(rt) = detect_ruby(ev) {
        runtimes.push(rt);
    }
    if let Some(rt) = detect_java(ev) {
        runtimes.push(rt);
    }
    proof {
        assert(rt_view(runtimes@) =~= runtimes_spec(ev));
        assert(deps_view(deps@) =~= deps_spec(ev));
    }
    let mut services: Vec<ServiceReq> = Vec::new();
    let mut ports: Vec<u16> = Vec::new();
    proof {
        assert(svc_pairs(services@) =~= Seq::<(Seq<char>, u16)>::empty());
        assert(ports@ =~= ports_of(services@));
    }
    if let Some(c) = &ev.compose {
        parse_compose_services(&mut services, &mut ports, c.as_str());
    }
    let env = detect_env(ev);
    let has_docker = ev.dockerfile || ev.compose.is_some();
    ProjectContext {
        dir: ev.dir.clone(),
        runtimes,
        deps,
        services,
        ports,
        env,
        has_docker,
    }
}

// ── Laws of the scanner ─────────────────────────────────────────────────────

/// Precedence law: when a pinned-version file yields a Node constraint, it
/// wins over any manifest-embedded constraint, and its provenance tag is
/// the one reported — never the manifest's.
pub proof fn lemma_pin_precedence(ev: &DirEvidence)
    requires
        ev.nvmrc matches Some(c) && pin_node_spec(c@) is Some,
    ensures
        node_req_spec(ev) == pin_node_spec(ev.nvmrc.unwrap()@),
        node_src_spec(ev) == ".nvmrc"@,
{
}

pub open spec fn distinct_names(acc: Seq<(Seq<char>, u16)>) -> bool {
    forall|i: int, j: int|
        0 <= i < j < acc.len() ==> (#[trigger] acc[i]).0 != (#[trigger] acc[j]).0
}

pub open spec fn name_count(acc: Seq<(Seq<char>, u16)>, name: Seq<char>) -> nat
    decreases acc.len(),
{
    if acc.len() == 0 {
        0
    } else {
        name_count(acc.drop_last(), name) + if acc.last().0 == name {
            1nat
        } else {
            0nat
        }
    }
}

proof fn lemma_count_of_distinct(acc: Seq<(Seq<char>, u16)>, name: Seq<char>)
    requires
        distinct_names(acc),
    ensures
        acc_has_name(acc, name) ==> name_count(acc, name) == 1,
        !acc_has_name(acc, name) ==> name_count(acc, name) == 0,
    decreases acc.len(),
{
    if acc.len() > 0 {
        let front = acc.drop_last();
        assert(distinct_names(front));
        lemma_count_of_distinct(front, name);
        if acc.last().0 == name {
            assert(!acc_has_name(front, name)) by {
                assert(forall|i: int|
                    0 <= i < front.len() ==> (#[trigger] front[i]) == acc[i]);
            }
        } else {
            assert(acc_has_name(acc, name) ==> acc_has_name(front, name)) by {
                if acc_has_name(acc, name) {
                    let w = choose|i: int|
                        0 <= i < acc.len() && (#[trigger] acc[i]).0 == name;
                    assert(w < front.len() && front[w] == acc[w]);
                }
            }
            assert(acc_has_name(front, name) ==> acc_has_name(acc, name)) by {
                if acc_has_name(front, name) {
                    let w = choose|i: int|
                        0 <= i < front.len() && (#[trigger] front[i]).0 == name;
                    assert(acc[w] == front[w]);
                }
            }
        }
    }
}

proof fn lemma_fold_distinct(
    content: Seq<char>,
    entries: Seq<(Seq<char>, Seq<char>, u16)>,
    acc: Seq<(Seq<char>, u16)>,
)
    requires
        distinct_names(acc),
    ensures
        distinct_names(compose_fold(content, entries, acc)),
    decreases entries.len(),
{
    if entries.len() > 0 {
        let acc2 = compose_step(content, entries[0].0, entries[0].1, entries[0].2, acc);
        assert(distinct_names(acc2)) by {
            if has_sub_ci(content, entries[0].0) && !acc_has_name(acc, entries[0].1) {
                assert(forall|i: int|
                    0 <= i < acc.len() ==> (#[trigger] acc2[i]) == acc[i]);
                assert(forall|i: int|
                    0 <= i < acc.len() ==> (#[trigger] acc[i]).0 != entries[0].1);
            }
        }
        lemma_fold_distinct(content, entries.skip(1), acc2);
    }
}

proof fn lemma_fold_keeps(
    content: Seq<char>,
    entries: Seq<(Seq<char>, Seq<char>, u16)>,
    acc: Seq<(Seq<char>, u16)>,
    name: Seq<char>,
)
    requires
        acc_has_name(acc, name),
    ensures
        acc_has_name(compose_fold(content, entries, acc), name),
    decreases entries.len(),
{
    if entries.len() > 0 {
        let acc2 = compose_step(content, entries[0].0, entries[0].1, entries[0].2, acc);
        assert(acc_has_name(acc2, name)) by {
            let w = choose|i: int| 0 <= i < acc.len() && (#[trigger] acc[i]).0 == name;
            assert(acc2[w].0 == name);
        }
        lemma_fold_keeps(content, entries.skip(1), acc2, name);
    }
}

proof fn lemma_fold_adds(
    content: Seq<char>,
    entries: Seq<(Seq<char>, Seq<char>, u16)>,
    acc: Seq<(Seq<char>, u16)>,
    k: int,
)
    requires
        0 <= k < entries.len(),
        has_sub_ci(content, entries[k].0),
    ensures
        acc_has_name(compose_fold(content, entries, acc), entries[k].1),
    decreases entries.len(),
{
    let acc2 = compose_step(content, entries[0].0, entries[0].1, entries[0].2, acc);
    if k == 0 {
        if acc_has_name(acc, entries[0].1) {
            assert(acc_has_name(acc2, entries[0].1)) by {
                let w = choose|i: int|
                    0 <= i < acc.len() && (#[trigger] acc[i]).0 == entries[0].1;
                assert(acc2[w].0 == entries[0].1);
            }
            lemma_fold_keeps(content, entries.skip(1), acc2, entries[0].1);
        } else {
            assert(acc2.last().0 == entries[0].1);
            assert(acc_has_name(acc2, entries[0].1));
            lemma_fold_keeps(content, entries.skip(1), acc2, entries[0].1);
        }
    } else {
        assert(entries.skip(1)[k - 1] == entries[k]);
        lemma_fold_adds(content, entries.skip(1), acc2, k - 1);
    }
}

/// Service alias collapse law: a compose file whose text mentions the
/// `postgres` keyword — as happens both for "postgres" and for
/// "postgresql", which contains it — yields exactly one service named
/// `postgres`, never two.
pub proof fn lemma_service_alias_collapse(content: Seq<char>)
    requires
        has_sub_ci(content, "postgres"@),
    ensures
        name_count(compose_services_spec(content), "postgres"@) == 1,
{
    let ks = known_services();
    let acc0 = Seq::<(Seq<char>, u16)>::empty();
    assert(distinct_names(acc0));
    lemma_fold_distinct(content, ks, acc0);
    assert(ks[1] == ("postgres"@, "postgres"@, 5432u16));
    lemma_fold_adds(content, ks, acc0, 1);
    lemma_count_of_distinct(compose_services_spec(content), "postgres"@);
}

} // verus!
