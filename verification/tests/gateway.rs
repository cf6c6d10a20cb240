use whispr::gateway::{endpoint, is_loopback};

#[test]
fn endpoint_parses_default_gateway_url() {
    assert_eq!(
        endpoint("ws://127.0.0.1:8765/v1/stream"),
        Some(("127.0.0.1".into(), 8765))
    );
}

#[test]
fn endpoint_parses_hosts_without_port_and_ipv6() {
    assert_eq!(
        endpoint("ws://localhost/v1/stream"),
        Some(("localhost".into(), 80))
    );
    assert_eq!(
        endpoint("ws://[::1]:8765/v1/stream"),
        Some(("::1".into(), 8765))
    );
    assert_eq!(endpoint("not a url"), None);
}

#[test]
fn loopback_detection() {
    assert!(is_loopback("127.0.0.1"));
    assert!(is_loopback("localhost"));
    assert!(is_loopback("::1"));
    assert!(!is_loopback("192.168.1.20"));
    assert!(!is_loopback("example.com"));
}

use whispr::config::AppConfig;
use whispr::gateway::{
    gateway_command, gateway_env, gateway_plan, healthz_ok, healthz_request, powershell_literal,
    ChildStatus, GatewayPlan, Launch, ProbeOutcome, ReadyWait, WaitStep, WorkDir,
    READY_TIMEOUT_S,
};

#[test]
fn endpoint_edge_cases() {
    assert_eq!(endpoint("http://example.com:8080"), Some(("example.com".into(), 8080)));
    assert_eq!(endpoint("ws://host:/x"), None);
    assert_eq!(endpoint("ws://host:70000/x"), None);
    assert_eq!(endpoint("ws://host:065535/x"), Some(("host".into(), 65535)));
    assert_eq!(endpoint("ws:///v1"), None);
    assert_eq!(endpoint("ws://"), None);
    assert_eq!(endpoint("ws://a://b"), Some(("a".into(), 80)));
    assert_eq!(endpoint("ws://[::1]/x"), Some(("::1".into(), 80)));
    assert_eq!(endpoint("ws://h:8a/x"), Some(("h:8a".into(), 80)));
}

#[test]
fn describe_launches() {
    assert_eq!(
        Launch::Binary("/opt/whispr/whispr-gateway".into()).describe(),
        "bundled gateway /opt/whispr/whispr-gateway"
    );
    assert_eq!(
        Launch::Uvicorn { python: "/r/.venv/bin/python".into(), gateway_dir: "/r/server/gateway".into() }
            .describe(),
        "/r/.venv/bin/python -m uvicorn in /r/server/gateway"
    );
}

#[test]
fn powershell_literals_double_quotes() {
    assert_eq!(powershell_literal("C:\\a b\\x.exe"), "'C:\\a b\\x.exe'");
    assert_eq!(powershell_literal("it's"), "'it''s'");
    assert_eq!(powershell_literal(""), "''");
}

#[test]
fn commands_per_platform() {
    let bin = Launch::Binary("/app/whispr-gateway".into());
    let c = gateway_command(&bin, "127.0.0.1", 8765, false);
    assert_eq!(c.program, "/app/whispr-gateway");
    assert_eq!(c.args, vec!["--host", "127.0.0.1", "--port", "8765"]);
    assert!(matches!(c.workdir, WorkDir::Inherit));

    let uv = Launch::Uvicorn { python: "python3".into(), gateway_dir: "/r/server/gateway".into() };
    let c = gateway_command(&uv, "localhost", 80, false);
    assert_eq!(c.program, "python3");
    assert_eq!(
        c.args,
        vec!["-m", "uvicorn", "app.main:app", "--host", "localhost", "--port", "80", "--log-level", "info"]
    );
    assert!(matches!(c.workdir, WorkDir::Dir(ref d) if d == "/r/server/gateway"));

    let wbin = Launch::Binary("C:\\Whispr\\whispr-gateway.exe".into());
    let c = gateway_command(&wbin, "::1", 8765, true);
    assert_eq!(c.program, "powershell.exe");
    assert_eq!(
        c.args,
        vec![
            "-NoLogo",
            "-NoProfile",
            "-NonInteractive",
            "-ExecutionPolicy",
            "Bypass",
            "-Command",
            "& 'C:\\Whispr\\whispr-gateway.exe' --host '::1' --port '8765'"
        ]
    );
    assert!(matches!(c.workdir, WorkDir::ParentOf(ref p) if p == "C:\\Whispr\\whispr-gateway.exe"));

    let wuv = Launch::Uvicorn { python: "python".into(), gateway_dir: "D:\\g".into() };
    let c = gateway_command(&wuv, "127.0.0.1", 8765, true);
    assert_eq!(
        c.args.last().unwrap(),
        "& 'python' -m uvicorn app.main:app --host '127.0.0.1' --port '8765' --log-level info"
    );
}

#[test]
fn environment_for_the_gateway() {
    let env = gateway_env(&AppConfig::default());
    let pairs: Vec<(&str, &str)> = env.iter().map(|(k, v)| (k.as_str(), v.as_str())).collect();
    assert_eq!(
        pairs,
        vec![
            ("HF_HUB_DISABLE_XET", "1"),
            ("WHISPR_WHISPER_MODEL", "large-v3"),
            ("WHISPR_WHISPER_DEVICE", "auto"),
            ("WHISPR_WHISPER_COMPUTE", "default"),
        ]
    );
    let cfg = AppConfig {
        stt_provider: "mock".into(),
        whisper_model: String::new(),
        whisper_device: "cpu".into(),
        whisper_compute: String::new(),
        ..AppConfig::default()
    };
    let env = gateway_env(&cfg);
    let pairs: Vec<(&str, &str)> = env.iter().map(|(k, v)| (k.as_str(), v.as_str())).collect();
    assert_eq!(
        pairs,
        vec![("HF_HUB_DISABLE_XET", "1"), ("WHISPR_STT_PROVIDER", "mock"), ("WHISPR_WHISPER_DEVICE", "cpu")]
    );
}

#[test]
fn only_loopback_gateways_are_managed() {
    assert_eq!(
        gateway_plan(&AppConfig::default()),
        GatewayPlan::Manage { host: "127.0.0.1".into(), port: 8765 }
    );
    assert_eq!(
        gateway_plan(&AppConfig { manage_gateway: false, ..AppConfig::default() }),
        GatewayPlan::Off
    );
    assert_eq!(
        gateway_plan(&AppConfig { gateway_url: "not a url".into(), ..AppConfig::default() }),
        GatewayPlan::BadUrl
    );
    assert_eq!(
        gateway_plan(&AppConfig { gateway_url: "wss://stt.example.com/v1/stream".into(), ..AppConfig::default() }),
        GatewayPlan::NotLoopback("stt.example.com".into())
    );
}

#[test]
fn healthz_probe_text_and_answer() {
    let (addr, req) = healthz_request("127.0.0.1", 8765);
    assert_eq!(addr, "127.0.0.1:8765");
    assert_eq!(req, "GET /healthz HTTP/1.1\r\nHost: 127.0.0.1:8765\r\nConnection: close\r\n\r\n");
    let (addr, _) = healthz_request("::1", 80);
    assert_eq!(addr, "[::1]:80");
    assert!(healthz_ok(b"HTTP/1.1 200 OK\r\n\r\n{}"));
    assert!(healthz_ok(b"HTTP/1.0 200 OK"));
    assert!(!healthz_ok(b"HTTP/1.1 503 Service Unavailable"));
    assert!(!healthz_ok(b""));
    assert!(!healthz_ok(b"HTTP/1.1 20"));
}

#[test]
fn ready_wait_gives_up_after_the_timeout() {
    let mut w = ReadyWait::new();
    let mut notices = 0;
    let mut outcome = None;
    while w.elapsed() < READY_TIMEOUT_S {
        assert_eq!(w.tick(ChildStatus::Running), WaitStep::Probe);
        match w.after_probe(false) {
            ProbeOutcome::StillStarting => {
                assert_eq!(w.elapsed(), 20);
                notices += 1;
            }
            ProbeOutcome::KeepWaiting => {}
            other => {
                outcome = Some(other);
                break;
            }
        }
    }
    assert_eq!(notices, 1);
    assert_eq!(outcome, Some(ProbeOutcome::TimedOut));
    assert_eq!(w.elapsed(), 600);

    let mut w = ReadyWait::new();
    assert_eq!(w.tick(ChildStatus::Running), WaitStep::Probe);
    assert_eq!(w.after_probe(true), ProbeOutcome::Ready);
    assert_eq!(w.tick(ChildStatus::Exited("exit status: 1".into())), WaitStep::Exited("exit status: 1".into()));
    assert_eq!(w.tick(ChildStatus::Gone), WaitStep::Abandon);
}

use whispr::gateway::{
    gateway_binary_candidates, launch_step, python_for, venv_python, LaunchFound, LaunchProbe,
    ProbeAnswer, PythonPick, SearchStep, REPO_SEARCH_DEPTH,
};

fn strings(parts: &[&str]) -> Vec<String> {
    parts.iter().map(|p| p.to_string()).collect()
}

#[test]
fn bundled_gateway_candidates() {
    assert_eq!(
        gateway_binary_candidates(false),
        vec![
            strings(&["whispr-gateway"]),
            strings(&["whispr-gateway", "whispr-gateway"]),
            strings(&["gateway", "whispr-gateway"]),
            strings(&["gateway", "whispr-gateway", "whispr-gateway"]),
        ]
    );
    assert_eq!(
        gateway_binary_candidates(true),
        vec![
            strings(&["whispr-gateway.exe"]),
            strings(&["whispr-gateway", "whispr-gateway.exe"]),
            strings(&["gateway", "whispr-gateway.exe"]),
            strings(&["gateway", "whispr-gateway", "whispr-gateway.exe"]),
        ]
    );
}

#[test]
fn python_prefers_the_checkout_venv() {
    assert_eq!(venv_python(false), strings(&[".venv", "bin", "python"]));
    assert_eq!(venv_python(true), strings(&[".venv", "Scripts", "python.exe"]));
    assert!(matches!(python_for(true, false), PythonPick::Venv(p) if p == strings(&[".venv", "bin", "python"])));
    assert!(matches!(python_for(true, true), PythonPick::Venv(p) if p == strings(&[".venv", "Scripts", "python.exe"])));
    assert!(matches!(python_for(false, false), PythonPick::OnPath(n) if n == "python3"));
    assert!(matches!(python_for(false, true), PythonPick::OnPath(n) if n == "python"));
}

/// Runs the launch search against a table of answers; returns the probes
/// asked and the result.
fn run_search(
    n_roots: usize,
    n_starts: usize,
    answer: impl Fn(LaunchProbe) -> ProbeAnswer,
) -> (Vec<LaunchProbe>, Option<LaunchFound>) {
    let mut asked = Vec::new();
    let mut probe = LaunchProbe::Override;
    loop {
        asked.push(probe);
        match launch_step(n_roots, n_starts, probe, answer(probe)) {
            SearchStep::Ask(next) => probe = next,
            SearchStep::Done(found) => return (asked, found),
        }
    }
}

#[test]
fn launch_override_wins() {
    let (asked, found) = run_search(2, 3, |_| ProbeAnswer::File(true));
    assert_eq!(asked, vec![LaunchProbe::Override]);
    assert_eq!(found, Some(LaunchFound::Override));
}

#[test]
fn launch_bundled_candidates_in_order() {
    let (asked, found) = run_search(2, 3, |p| {
        ProbeAnswer::File(p == LaunchProbe::Bundled { root: 1, which: 2 })
    });
    assert_eq!(
        asked,
        vec![
            LaunchProbe::Override,
            LaunchProbe::Bundled { root: 0, which: 0 },
            LaunchProbe::Bundled { root: 0, which: 1 },
            LaunchProbe::Bundled { root: 0, which: 2 },
            LaunchProbe::Bundled { root: 0, which: 3 },
            LaunchProbe::Bundled { root: 1, which: 0 },
            LaunchProbe::Bundled { root: 1, which: 1 },
            LaunchProbe::Bundled { root: 1, which: 2 },
        ]
    );
    assert_eq!(found, Some(LaunchFound::Bundled { root: 1, which: 2 }));
}

#[test]
fn launch_repo_checkout_walks_up() {
    let (asked, found) = run_search(1, 2, |p| match p {
        LaunchProbe::Repo { start: 1, up: 3 } => ProbeAnswer::File(true),
        LaunchProbe::Venv { .. } => ProbeAnswer::File(false),
        _ => ProbeAnswer::File(false),
    });
    // override, 4 candidates, 8 levels of start 0, 4 levels of start 1, venv
    assert_eq!(asked.len(), 1 + 4 + 8 + 4 + 1);
    assert_eq!(asked[5], LaunchProbe::Repo { start: 0, up: 0 });
    assert_eq!(asked[12], LaunchProbe::Repo { start: 0, up: REPO_SEARCH_DEPTH - 1 });
    assert_eq!(asked[13], LaunchProbe::Repo { start: 1, up: 0 });
    assert_eq!(asked[17], LaunchProbe::Venv { start: 1, up: 3 });
    assert_eq!(found, Some(LaunchFound::Repo { start: 1, up: 3, venv: false }));

    let (_, found) = run_search(0, 1, |p| match p {
        LaunchProbe::Repo { start: 0, up: 0 } | LaunchProbe::Venv { .. } => ProbeAnswer::File(true),
        _ => ProbeAnswer::File(false),
    });
    assert_eq!(found, Some(LaunchFound::Repo { start: 0, up: 0, venv: true }));
}

#[test]
fn launch_walk_past_the_root_ends_the_search() {
    // Start 0 has only two directories above it; start 1 would have a checkout.
    let (asked, found) = run_search(0, 2, |p| match p {
        LaunchProbe::Repo { start: 0, up } if up > 2 => ProbeAnswer::NoDir,
        LaunchProbe::Repo { start: 1, .. } => ProbeAnswer::File(true),
        _ => ProbeAnswer::File(false),
    });
    assert_eq!(asked.last(), Some(&LaunchProbe::Repo { start: 0, up: 3 }));
    assert_eq!(found, None);
}

#[test]
fn launch_search_without_anything_found_is_bounded() {
    for n_roots in 0..3usize {
        for extra in 0..2usize {
            let n_starts = n_roots + extra;
            let (asked, found) = run_search(n_roots, n_starts, |_| ProbeAnswer::File(false));
            assert_eq!(found, None);
            assert_eq!(asked.len(), 1 + 4 * n_roots + 8 * n_starts);
            assert!(asked.len() <= 1 + 4 * n_roots + 9 * n_starts);
        }
    }
}

use whispr::gateway::{after_port_probe, ensure_start, EnsureStart, OwnedGateway, PortProbe};

#[test]
fn an_external_gateway_is_used_and_left_alone() {
    assert_eq!(ensure_start(OwnedGateway::Running), EnsureStart::KeepOwned);
    assert_eq!(ensure_start(OwnedGateway::Ended), EnsureStart::ProbePort { forget_ended: true });
    assert_eq!(ensure_start(OwnedGateway::NoProcess), EnsureStart::ProbePort { forget_ended: false });
    assert_eq!(after_port_probe(true), PortProbe::UseExternal);
    assert_eq!(after_port_probe(false), PortProbe::LaunchOwn);
}
