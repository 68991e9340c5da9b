use vitals::check::Status;
use vitals::checks::custom::CmdOutcome;
use vitals::checks::port::PortProbe;
use vitals::checks::service::DockerProbe;
use vitals::checks::{custom, deps, port, runtime, service, HostObservations};
use vitals::config::{ServiceDetail, VitalsConfig};
use vitals::detect::{scan, DirEvidence, ServiceReq};
use vitals::platform::Platform;

fn empty_evidence() -> DirEvidence {
    DirEvidence {
        dir: "/tmp/project".to_string(),
        package_json_exists: false,
        package_json: None,
        nvmrc: None,
        node_version_file: None,
        yarn_lock: false,
        pnpm_lock: false,
        bun_lockb: false,
        bun_lock: false,
        node_modules: false,
        pyproject_exists: false,
        pyproject: None,
        requirements_txt: false,
        setup_py: false,
        pipfile: false,
        python_version_file: None,
        venv_present: false,
        cargo_toml_exists: false,
        cargo_toml: None,
        rust_toolchain: None,
        go_mod_exists: false,
        go_mod: None,
        gemfile: false,
        ruby_version_file: None,
        pom_xml: false,
        build_gradle: false,
        build_gradle_kts: false,
        dockerfile: false,
        compose: None,
        env_example: None,
        env_file: None,
    }
}

fn no_docker() -> DockerProbe {
    DockerProbe { info: None, version_output: None }
}

#[test]
fn test_scenario_engines_node_too_old() {
    // A manifest demanding >=18 against an installed node 16.2.0 fails.
    let mut ev = empty_evidence();
    ev.package_json_exists = true;
    ev.package_json = Some(r#"{"engines":{"node":">=18"}}"#.to_string());
    let ctx = scan(&ev);
    let config = VitalsConfig::default();
    let found = vec![Some("node v16.2.0".to_string())];
    let version = runtime::first_version(&found);
    assert_eq!(version, Some("16.2.0".to_string()));
    let results = runtime::check(&ctx, &config, &Platform::Linux, &vec![version]);
    assert_eq!(results.len(), 1);
    assert_eq!(results[0].status, Status::Fail);
    assert_eq!(results[0].found, "v16.2.0");
    assert_eq!(results[0].expected, ">=18 (package.json engines)");
}

#[test]
fn test_scenario_redis_not_reachable() {
    // A compose file maps redis; nothing listens, so the service fails.
    let mut ev = empty_evidence();
    ev.compose = Some("services:\n  redis:\n    ports:\n      - \"6379:6379\"\n".to_string());
    let ctx = scan(&ev);
    let config = VitalsConfig::default();
    let services = service::effective_services(&ctx, &config);
    assert_eq!(services.len(), 1);
    let results = service::check(
        &ctx,
        &config,
        &Platform::Linux,
        &no_docker(),
        &services,
        &vec![false],
    );
    // First outcome is docker (the compose file sets the container flag).
    let redis = &results[1];
    assert_eq!(redis.name, "redis");
    assert_eq!(redis.status, Status::Fail);
    assert_eq!(redis.found, "not reachable on :6379");
    assert_eq!(redis.fix, Some("docker compose up -d redis".to_string()));
}

#[test]
fn test_scenario_empty_project_yields_nothing() {
    // No manifests of any kind: zero outcomes, not an error.
    let ctx = scan(&empty_evidence());
    let config = VitalsConfig::default();
    let obs = HostObservations {
        runtime_versions: Vec::new(),
        docker: no_docker(),
        services: Vec::new(),
        service_reachable: Vec::new(),
        port_probes: Vec::new(),
        command_outcomes: Vec::new(),
    };
    let results =
        vitals::checks::run_all(&ctx, &config, &Platform::Linux, &Vec::new(), &obs);
    assert_eq!(results.len(), 0);
}

#[test]
fn test_env_diff_names_missing_key() {
    // Expected {A,B,C}, actual {A,C}: exactly one detail line naming B.
    let mut ev = empty_evidence();
    ev.env_example = Some((".env.example".to_string(), "A=1\nB=2\nC=3\n".to_string()));
    ev.env_file = Some("A=x\nC=z\n".to_string());
    let ctx = scan(&ev);
    let config = VitalsConfig::default();
    let results = vitals::checks::env::check(&ctx, &config);
    assert_eq!(results.len(), 1);
    assert_eq!(results[0].status, Status::Fail);
    assert_eq!(results[0].found, "missing 1 key");
    assert_eq!(results[0].expected, "3 required keys");
    assert_eq!(results[0].details, vec!["B — missing"]);
}

#[test]
fn test_env_missing_file() {
    let mut ev = empty_evidence();
    ev.env_example = Some((".env.sample".to_string(), "A=1\n".to_string()));
    let ctx = scan(&ev);
    let results = vitals::checks::env::check(&ctx, &VitalsConfig::default());
    assert_eq!(results.len(), 1);
    assert_eq!(results[0].status, Status::Fail);
    assert_eq!(results[0].found, "missing");
    assert_eq!(results[0].fix, Some("cp .env.sample .env".to_string()));
}

#[test]
fn test_env_all_keys_present() {
    let mut ev = empty_evidence();
    ev.env_example = Some((".env.example".to_string(), "A=1\nB=2\n".to_string()));
    ev.env_file = Some("A=x\nB=y\nEXTRA=1\n".to_string());
    let ctx = scan(&ev);
    let results = vitals::checks::env::check(&ctx, &VitalsConfig::default());
    assert_eq!(results.len(), 1);
    assert_eq!(results[0].status, Status::Pass);
    assert_eq!(results[0].found, "3 keys");
    assert_eq!(results[0].expected, "2 required keys");
}

#[test]
fn test_config_required_keys_merge() {
    let mut ev = empty_evidence();
    ev.env_example = Some((".env.example".to_string(), "A=1\n".to_string()));
    ev.env_file = Some("A=x\n".to_string());
    let ctx = scan(&ev);
    let mut config = VitalsConfig::default();
    config.env.required = vec!["A".to_string(), "TOKEN".to_string()];
    let results = vitals::checks::env::check(&ctx, &config);
    assert_eq!(results[0].status, Status::Fail);
    assert_eq!(results[0].details, vec!["TOKEN — missing"]);
}

#[test]
fn test_deps_outcomes() {
    let mut ev = empty_evidence();
    ev.package_json_exists = true;
    ev.yarn_lock = true;
    let ctx = scan(&ev);
    let results = deps::check(&ctx);
    assert_eq!(results.len(), 1);
    assert_eq!(results[0].name, "node_modules");
    assert_eq!(results[0].status, Status::Fail);
    assert_eq!(results[0].fix, Some("yarn install".to_string()));
}

#[test]
fn test_runtime_not_found() {
    let mut ev = empty_evidence();
    ev.go_mod_exists = true;
    ev.go_mod = Some("go 1.21\n".to_string());
    let ctx = scan(&ev);
    let results = runtime::check(&ctx, &VitalsConfig::default(), &Platform::Debian, &vec![None]);
    assert_eq!(results[0].status, Status::Fail);
    assert_eq!(results[0].found, "not found");
    assert_eq!(results[0].expected, ">=1.21 (go.mod)");
    assert_eq!(results[0].fix, Some("sudo apt install -y golang-go".to_string()));
}

#[test]
fn test_runtime_config_overrides_detection() {
    let mut ev = empty_evidence();
    ev.package_json_exists = true;
    ev.package_json = Some(r#"{"engines":{"node":">=14"}}"#.to_string());
    let ctx = scan(&ev);
    let mut config = VitalsConfig::default();
    config.require.node = Some(">=20".to_string());
    let results = runtime::check(
        &ctx,
        &config,
        &Platform::Linux,
        &vec![Some("18.0.0".to_string())],
    );
    // The configured >=20 overrides the detected >=14, so 18.0.0 fails.
    assert_eq!(results[0].status, Status::Fail);
    assert_eq!(results[0].expected, ">=20 (package.json engines)");
    assert_eq!(
        results[0].fix,
        Some("nvm install >=20 (or update Node.js)".to_string())
    );
}

#[test]
fn test_ports_to_check_dedup_sort_and_service_removal() {
    let mut ev = empty_evidence();
    ev.compose = Some("services:\n  redis:\n    ports:\n      - \"6379:6379\"\n".to_string());
    let ctx = scan(&ev);
    let mut config = VitalsConfig::default();
    config.ports.check = vec![8080, 3000, 6379, 3000];
    let ports = port::ports_to_check(&ctx, &config);
    assert_eq!(ports, vec![3000, 8080]);
}

#[test]
fn test_port_outcomes() {
    let probes = vec![
        PortProbe { port: 3000, available: true, listing: None },
        PortProbe {
            port: 8080,
            available: false,
            listing: Some(
                "COMMAND  PID USER\nnode    1234 dev   22u  IPv4\n".to_string(),
            ),
        },
        PortProbe { port: 9999, available: false, listing: None },
    ];
    let results = port::check(&probes);
    assert_eq!(results.len(), 3);
    assert_eq!(results[0].status, Status::Pass);
    assert_eq!(results[0].name, ":3000");
    assert_eq!(results[1].status, Status::Fail);
    assert_eq!(results[1].found, "in use by node (PID 1234)");
    assert_eq!(results[1].fix, Some("kill 1234".to_string()));
    assert_eq!(results[2].found, "in use");
    assert_eq!(
        results[2].fix,
        Some("lsof -i :9999 to find the process".to_string())
    );
}

#[test]
fn test_find_process_on_port_parsing() {
    let out = "COMMAND  PID USER\npostgres 987 dba  7u IPv6\n";
    assert_eq!(
        port::find_process_on_port(out),
        Some("postgres (PID 987)".to_string())
    );
    assert_eq!(port::find_process_on_port("COMMAND PID\n"), None);
    assert_eq!(port::find_process_on_port(""), None);
}

#[test]
fn test_custom_command_outcomes() {
    let mut config = VitalsConfig::default();
    config.commands = vec![
        vitals::config::CommandConfig {
            name: "ok".to_string(),
            run: "true".to_string(),
        },
        vitals::config::CommandConfig {
            name: "bad".to_string(),
            run: "false".to_string(),
        },
        vitals::config::CommandConfig {
            name: "gone".to_string(),
            run: "nosuch".to_string(),
        },
    ];
    let obs = vec![
        CmdOutcome {
            executed: true,
            success: true,
            code: Some(0),
            stdout: String::new(),
            stderr: String::new(),
        },
        CmdOutcome {
            executed: true,
            success: false,
            code: Some(2),
            stdout: String::new(),
            stderr: "line one\nline two\nline three\nline four\n".to_string(),
        },
        CmdOutcome {
            executed: false,
            success: false,
            code: None,
            stdout: String::new(),
            stderr: String::new(),
        },
    ];
    let results = custom::check(&config, &obs);
    assert_eq!(results.len(), 3);
    assert_eq!(results[0].status, Status::Pass);
    assert_eq!(results[0].found, "passed");
    assert_eq!(results[1].status, Status::Fail);
    assert_eq!(results[1].found, "exit 2");
    assert_eq!(results[1].fix, Some("run: false".to_string()));
    assert_eq!(results[1].details, vec!["line one", "line two", "line three"]);
    assert_eq!(results[2].found, "failed to execute");
    assert_eq!(results[2].fix, Some("check command: nosuch".to_string()));
}

#[test]
fn test_config_service_fills_gaps_only() {
    let mut ev = empty_evidence();
    ev.compose = Some("services:\n  redis:\n    ports:\n      - \"7000:6379\"\n".to_string());
    let ctx = scan(&ev);
    let mut config = VitalsConfig::default();
    // redis is already detected with port 7000: config must not override it.
    config.services.redis = Some(ServiceDetail { host: None, port: Some(6379) });
    config.services.postgres = Some(ServiceDetail {
        host: Some("db.local".to_string()),
        port: None,
    });
    let services = service::effective_services(&ctx, &config);
    assert_eq!(services.len(), 2);
    assert_eq!(services[0].name, "redis");
    assert_eq!(services[0].port, 7000);
    assert_eq!(services[1].name, "postgres");
    assert_eq!(services[1].host, "db.local");
    assert_eq!(services[1].port, 5432);
}

#[test]
fn test_docker_outcome_not_running() {
    let ctx = {
        let mut ev = empty_evidence();
        ev.dockerfile = true;
        scan(&ev)
    };
    let config = VitalsConfig::default();
    let docker = DockerProbe {
        info: None,
        version_output: Some("Docker version 24.0.7, build afdd53b".to_string()),
    };
    let results = service::check(
        &ctx,
        &config,
        &Platform::MacOS,
        &docker,
        &Vec::<ServiceReq>::new(),
        &Vec::new(),
    );
    assert_eq!(results.len(), 1);
    assert_eq!(results[0].name, "docker");
    assert_eq!(results[0].status, Status::Fail);
    assert_eq!(results[0].found, "not running");
}

#[test]
fn test_docker_outcome_running() {
    let ctx = {
        let mut ev = empty_evidence();
        ev.dockerfile = true;
        scan(&ev)
    };
    let docker = DockerProbe {
        info: Some("Server Version: 24.0.7".to_string()),
        version_output: Some("Docker version 24.0.7, build afdd53b".to_string()),
    };
    let results = service::check(
        &ctx,
        &VitalsConfig::default(),
        &Platform::Linux,
        &docker,
        &Vec::<ServiceReq>::new(),
        &Vec::new(),
    );
    assert_eq!(results[0].status, Status::Pass);
    assert_eq!(results[0].found, "running (v24.0.7)");
}

#[test]
fn test_platform_hints() {
    assert_eq!(Platform::MacOS.install_hint("node"), "brew install node");
    assert_eq!(Platform::Debian.install_hint("node"), "sudo apt install -y nodejs");
    assert_eq!(
        Platform::MacOS.install_hint("docker"),
        "brew install --cask docker"
    );
    assert_eq!(Platform::Fedora.install_hint("go"), "sudo dnf install -y golang");
    assert_eq!(Platform::Arch.install_hint("unknown-tool"), "sudo pacman -S unknown-tool");
    assert_eq!(
        Platform::MacOS.service_hint("redis"),
        "brew services start redis"
    );
    assert_eq!(
        Platform::Debian.service_hint("postgres"),
        "sudo systemctl start postgres"
    );
    assert_eq!(
        Platform::Alpine.service_hint("redis"),
        "sudo rc-service redis start"
    );
}

#[test]
fn test_run_all_order_and_skip() {
    let mut ev = empty_evidence();
    ev.package_json_exists = true;
    ev.env_example = Some((".env.example".to_string(), "A=1\n".to_string()));
    let ctx = scan(&ev);
    let config = VitalsConfig::default();
    let obs = HostObservations {
        runtime_versions: vec![Some("20.0.0".to_string())],
        docker: no_docker(),
        services: Vec::new(),
        service_reachable: Vec::new(),
        port_probes: Vec::new(),
        command_outcomes: Vec::new(),
    };
    let all = vitals::checks::run_all(&ctx, &config, &Platform::Linux, &Vec::new(), &obs);
    // runtime (node), deps (node_modules), env (.env missing)
    assert_eq!(all.len(), 3);
    assert_eq!(all[0].category, "Runtime");
    assert_eq!(all[1].category, "Dependencies");
    assert_eq!(all[2].category, "Environment");

    let skipped = vitals::checks::run_all(
        &ctx,
        &config,
        &Platform::Linux,
        &vec!["runtime".to_string(), "env".to_string()],
        &obs,
    );
    assert_eq!(skipped.len(), 1);
    assert_eq!(skipped[0].category, "Dependencies");
}

#[test]
fn test_classify_os_release() {
    assert_eq!(
        vitals::platform::classify_os_release("NAME=\"Ubuntu\"\nID=ubuntu\n"),
        Platform::Debian
    );
    assert_eq!(vitals::platform::classify_os_release("ID=fedora\n"), Platform::Fedora);
    assert_eq!(vitals::platform::classify_os_release("ID=arch\n"), Platform::Arch);
    assert_eq!(vitals::platform::classify_os_release("ID=alpine\n"), Platform::Alpine);
    assert_eq!(vitals::platform::classify_os_release("ID=gentoo\n"), Platform::Linux);
}

#[test]
fn test_template_mentions_sections() {
    let t = vitals::config::template();
    assert!(t.contains("[require]"));
    assert!(t.contains("[ports]"));
    assert!(t.contains("[env]"));
}
