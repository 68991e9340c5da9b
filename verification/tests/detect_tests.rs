use vitals::detect::{scan, DirEvidence};

fn empty_evidence() -> DirEvidence {
    DirEvidence {
        dir: "/tmp/project".to_string(),
        package_json_exists: false,
        package_json: None,
        nvmrc: None,
        node_version_file: None,
        yarn_lock: false,
        pnpm_lock: false,
        bun_lockb: false,
        bun_lock: false,
        node_modules: false,
        pyproject_exists: false,
        pyproject: None,
        requirements_txt: false,
        setup_py: false,
        pipfile: false,
        python_version_file: None,
        venv_present: false,
        cargo_toml_exists: false,
        cargo_toml: None,
        rust_toolchain: None,
        go_mod_exists: false,
        go_mod: None,
        gemfile: false,
        ruby_version_file: None,
        pom_xml: false,
        build_gradle: false,
        build_gradle_kts: false,
        dockerfile: false,
        compose: None,
        env_example: None,
        env_file: None,
    }
}

#[test]
fn test_empty_directory_scan() {
    let ctx = scan(&empty_evidence());
    assert_eq!(ctx.runtimes.len(), 0);
    assert_eq!(ctx.deps.len(), 0);
    assert_eq!(ctx.services.len(), 0);
    assert_eq!(ctx.ports.len(), 0);
    assert_eq!(ctx.env.expected_keys.len(), 0);
    assert_eq!(ctx.env.actual_keys.len(), 0);
    assert!(!ctx.has_docker);
}

#[test]
fn test_node_engines_from_manifest() {
    let mut ev = empty_evidence();
    ev.package_json_exists = true;
    ev.package_json = Some(r#"{"name":"x","engines":{"node":">=18"}}"#.to_string());
    let ctx = scan(&ev);
    assert_eq!(ctx.runtimes.len(), 1);
    assert_eq!(ctx.runtimes[0].name, "node");
    assert_eq!(ctx.runtimes[0].version_req, Some(">=18".to_string()));
    assert_eq!(ctx.runtimes[0].source, "package.json engines");
}

#[test]
fn test_pin_file_beats_manifest() {
    // The pinned-version file wins and its provenance tag is reported.
    let mut ev = empty_evidence();
    ev.package_json_exists = true;
    ev.package_json = Some(r#"{"engines":{"node":">=18"}}"#.to_string());
    ev.nvmrc = Some("v20.5.0\n".to_string());
    let ctx = scan(&ev);
    assert_eq!(ctx.runtimes[0].version_req, Some("20.5.0".to_string()));
    assert_eq!(ctx.runtimes[0].source, ".nvmrc");
}

#[test]
fn test_node_version_file_fallback() {
    let mut ev = empty_evidence();
    ev.package_json_exists = true;
    ev.nvmrc = Some("lts/iron\n".to_string());
    ev.node_version_file = Some("20.11.1\n".to_string());
    let ctx = scan(&ev);
    assert_eq!(ctx.runtimes[0].version_req, Some("20.11.1".to_string()));
    assert_eq!(ctx.runtimes[0].source, ".node-version");
}

#[test]
fn test_node_lockfile_priority() {
    let mut ev = empty_evidence();
    ev.package_json_exists = true;
    ev.pnpm_lock = true;
    let ctx = scan(&ev);
    assert_eq!(ctx.deps.len(), 1);
    assert_eq!(ctx.deps[0].name, "node_modules");
    assert_eq!(ctx.deps[0].install_cmd, "pnpm install");
    assert!(!ctx.deps[0].exists);
}

#[test]
fn test_python_requires_from_pyproject() {
    let mut ev = empty_evidence();
    ev.pyproject_exists = true;
    ev.pyproject = Some("[project]\nname = \"x\"\nrequires-python = \">=3.11\"\n".to_string());
    let ctx = scan(&ev);
    assert_eq!(ctx.runtimes.len(), 1);
    assert_eq!(ctx.runtimes[0].name, "python");
    assert_eq!(ctx.runtimes[0].version_req, Some(">=3.11".to_string()));
    assert_eq!(ctx.runtimes[0].source, "pyproject.toml");
}

#[test]
fn test_python_poetry_install_command() {
    let mut ev = empty_evidence();
    ev.pyproject_exists = true;
    ev.pyproject = Some("[tool.poetry]\nname = \"x\"\n".to_string());
    let ctx = scan(&ev);
    assert_eq!(ctx.deps[0].install_cmd, "poetry install");
}

#[test]
fn test_rust_toolchain_pin() {
    let mut ev = empty_evidence();
    ev.cargo_toml_exists = true;
    ev.rust_toolchain = Some("[toolchain]\nchannel = \"1.75.0\"\n".to_string());
    let ctx = scan(&ev);
    assert_eq!(ctx.runtimes[0].name, "rust");
    assert_eq!(ctx.runtimes[0].version_req, Some(">=1.75.0".to_string()));
    assert_eq!(ctx.runtimes[0].source, "rust-toolchain.toml");
}

#[test]
fn test_rust_toolchain_named_channel_ignored() {
    // A channel like "stable" does not begin with a digit and yields no pin.
    let mut ev = empty_evidence();
    ev.cargo_toml_exists = true;
    ev.rust_toolchain = Some("[toolchain]\nchannel = \"stable\"\n".to_string());
    ev.cargo_toml = Some("[package]\nname = \"x\"\nrust-version = \"1.70\"\n".to_string());
    let ctx = scan(&ev);
    assert_eq!(ctx.runtimes[0].version_req, Some(">=1.70".to_string()));
    assert_eq!(ctx.runtimes[0].source, "Cargo.toml rust-version");
}

#[test]
fn test_go_directive() {
    let mut ev = empty_evidence();
    ev.go_mod_exists = true;
    ev.go_mod = Some("module example.com/m\n\ngo 1.21\n".to_string());
    let ctx = scan(&ev);
    assert_eq!(ctx.runtimes[0].name, "go");
    assert_eq!(ctx.runtimes[0].version_req, Some(">=1.21".to_string()));
    assert_eq!(ctx.runtimes[0].source, "go.mod");
}

#[test]
fn test_ruby_and_java_presence() {
    let mut ev = empty_evidence();
    ev.gemfile = true;
    ev.ruby_version_file = Some("3.2.2\n".to_string());
    ev.pom_xml = true;
    let ctx = scan(&ev);
    assert_eq!(ctx.runtimes.len(), 2);
    assert_eq!(ctx.runtimes[0].name, "ruby");
    assert_eq!(ctx.runtimes[0].version_req, Some("3.2.2".to_string()));
    assert_eq!(ctx.runtimes[0].source, ".ruby-version");
    assert_eq!(ctx.runtimes[1].name, "java");
    assert_eq!(ctx.runtimes[1].version_req, None);
    assert_eq!(ctx.runtimes[1].source, "pom.xml");
}

#[test]
fn test_service_alias_collapse() {
    // Both keywords collapse to a single canonical "postgres" entry.
    let mut ev = empty_evidence();
    ev.compose = Some(
        "services:\n  postgres:\n    image: postgresql:16\n    ports:\n      - \"5432:5432\"\n"
            .to_string(),
    );
    let ctx = scan(&ev);
    let pg: Vec<_> = ctx.services.iter().filter(|s| s.name == "postgres").collect();
    assert_eq!(pg.len(), 1);
    assert_eq!(pg[0].port, 5432);
    assert!(ctx.has_docker);
}

#[test]
fn test_compose_port_mapping() {
    let mut ev = empty_evidence();
    ev.compose = Some("services:\n  redis:\n    ports:\n      - \"6380:6379\"\n".to_string());
    let ctx = scan(&ev);
    assert_eq!(ctx.services.len(), 1);
    assert_eq!(ctx.services[0].name, "redis");
    assert_eq!(ctx.services[0].host, "localhost");
    assert_eq!(ctx.services[0].port, 6380);
    assert_eq!(ctx.ports, vec![6380]);
}

#[test]
fn test_compose_default_port_when_unmapped() {
    let mut ev = empty_evidence();
    ev.compose = Some("services:\n  Redis:\n    image: redis:7\n".to_string());
    let ctx = scan(&ev);
    assert_eq!(ctx.services[0].name, "redis");
    assert_eq!(ctx.services[0].port, 6379);
}

#[test]
fn test_env_keys_parsed_and_deduplicated() {
    let mut ev = empty_evidence();
    ev.env_example = Some((
        ".env.example".to_string(),
        "# comment\nexport DATABASE_URL=postgres://x\nAPI_KEY=abc\n\nAPI_KEY=dup\n".to_string(),
    ));
    ev.env_file = Some("DATABASE_URL=real\n".to_string());
    let ctx = scan(&ev);
    assert_eq!(ctx.env.expected_keys, vec!["DATABASE_URL", "API_KEY"]);
    assert_eq!(ctx.env.actual_keys, vec!["DATABASE_URL"]);
    assert_eq!(ctx.env.example_file, Some(".env.example".to_string()));
    assert_eq!(ctx.env.env_file, Some(".env".to_string()));
}
