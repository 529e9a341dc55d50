use kubeterm::commands::kubeconfig::{ContextEntry, KubeconfigFile};
use kubeterm::commands::proxy::{
    build_proxy_args, client_failure, conclude_start, failure_report, find_kubeconfig_for_context,
    install_proxy, kubectl_binary, needs_search, probe_ready, spawn_failure, start_kubectl_proxy,
    stop_kubectl_proxy, windows_home_in_wsl, DiagnosticLog, HealthCheck, Poll, Probe, Readiness,
    DIAGNOSTIC_LIMIT, KUBECTL_USR_BIN, KUBECTL_USR_LOCAL_BIN, MAX_ATTEMPTS, POLL_INTERVAL_MS,
    PROBE_TIMEOUT_MS, PROBE_URL, PROXY_ADDRESS,
};
use kubeterm::KubectlProxy;

fn file(path: &str, contexts: &[&str]) -> KubeconfigFile {
    KubeconfigFile {
        path: path.to_string(),
        current_context: None,
        clusters: Vec::new(),
        contexts: contexts
            .iter()
            .map(|name| ContextEntry { name: name.to_string(), context: None })
            .collect(),
    }
}

/// Drives a readiness check with a prober, the way the supervisor does, and
/// counts the probes.
fn run_check(prober: &mut dyn FnMut(u32) -> Probe, captured: &str) -> (Result<(), String>, u32) {
    let mut check = HealthCheck::new();
    let mut probes = 0;
    let mut poll = check.poll();
    loop {
        match poll {
            Poll::Probe { attempt, wait_ms, timeout_ms } => {
                assert_eq!(attempt, probes + 1);
                assert_eq!(wait_ms, 500);
                assert_eq!(timeout_ms, 400);
                probes += 1;
                poll = check.on_probe(prober(attempt));
            }
            Poll::Ready { attempts } => {
                assert_eq!(attempts, probes);
                assert_eq!(check.readiness(), Readiness::Ready);
                break;
            }
            Poll::Exhausted => {
                assert_eq!(check.readiness(), Readiness::Failed);
                break;
            }
        }
    }
    match conclude_start(&check, captured) {
        Some(result) => (result, probes),
        None => panic!("the check ended without a result"),
    }
}

#[test]
fn kubectl_binary_prefers_explicit_paths() {
    assert_eq!(kubectl_binary(true, true, true), "kubectl.exe");
    assert_eq!(kubectl_binary(true, false, false), "kubectl.exe");
    assert_eq!(kubectl_binary(false, true, true), "/usr/bin/kubectl");
    assert_eq!(kubectl_binary(false, true, false), "/usr/bin/kubectl");
    assert_eq!(kubectl_binary(false, false, true), "/usr/local/bin/kubectl");
    assert_eq!(kubectl_binary(false, false, false), "kubectl");
    assert_eq!(KUBECTL_USR_BIN, "/usr/bin/kubectl");
    assert_eq!(KUBECTL_USR_LOCAL_BIN, "/usr/local/bin/kubectl");
}

#[test]
fn windows_profile_becomes_mnt_path() {
    assert_eq!(windows_home_in_wsl("C:\\Users\\7va"), Some("/mnt/c/Users/7va".to_string()));
    assert_eq!(windows_home_in_wsl("  D:\\work dir\\me \r\n"), Some("/mnt/d/work dir/me".to_string()));
    assert_eq!(windows_home_in_wsl("c:"), Some("/mnt/c".to_string()));
    assert_eq!(windows_home_in_wsl("E:/already/forward"), Some("/mnt/e/already/forward".to_string()));
    assert_eq!(windows_home_in_wsl("1:\\x"), Some("/mnt/1/x".to_string()));
}

#[test]
fn text_that_is_no_windows_path_gives_nothing() {
    assert_eq!(windows_home_in_wsl(""), None);
    assert_eq!(windows_home_in_wsl("   "), None);
    assert_eq!(windows_home_in_wsl("C"), None);
    assert_eq!(windows_home_in_wsl("/home/user"), None);
    assert_eq!(windows_home_in_wsl("CC:\\Users"), None);
    assert_eq!(windows_home_in_wsl(":C\\Users"), None);
}

#[test]
fn search_finds_the_first_file_that_names_the_context() {
    let files = vec![
        file("/h/.kube/config", &["local", "dev"]),
        file("/h/.kube/config.prod", &["prod", "dev"]),
        file("/h/.kube/config.z", &[]),
    ];
    assert_eq!(find_kubeconfig_for_context("dev", &files), Some("/h/.kube/config".to_string()));
    assert_eq!(
        find_kubeconfig_for_context("prod", &files),
        Some("/h/.kube/config.prod".to_string())
    );
    assert_eq!(find_kubeconfig_for_context("missing", &files), None);
    assert_eq!(find_kubeconfig_for_context("dev", &Vec::new()), None);
    assert_eq!(find_kubeconfig_for_context("", &files), None);
}

#[test]
fn search_is_needed_only_without_a_named_file() {
    let ctx = Some("dev".to_string());
    assert!(needs_search(&ctx, &None));
    assert!(needs_search(&ctx, &Some(String::new())));
    assert!(!needs_search(&ctx, &Some("/k/config".to_string())));
    assert!(!needs_search(&None, &None));
    assert!(!needs_search(&None, &Some(String::new())));
}

#[test]
fn proxy_args_without_context() {
    let files = vec![file("/h/.kube/config", &["dev"])];
    let args = build_proxy_args(&None, &Some("/k/config".to_string()), &files);
    assert_eq!(args, vec!["proxy", "--port=8001", "--disable-filter=true"]);
}

#[test]
fn proxy_args_with_named_file() {
    let files = vec![file("/h/.kube/config", &["dev"])];
    let args = build_proxy_args(&Some("dev".to_string()), &Some("/k/config.dev".to_string()), &files);
    assert_eq!(
        args,
        vec![
            "proxy",
            "--port=8001",
            "--disable-filter=true",
            "--context=dev",
            "--kubeconfig=/k/config.dev",
        ]
    );
}

#[test]
fn proxy_args_fall_back_on_search() {
    let files = vec![file("/h/.kube/config", &["local"]), file("/h/.kube/config.dev", &["dev"])];
    let by_search = build_proxy_args(&Some("dev".to_string()), &None, &files);
    assert_eq!(by_search[3], "--context=dev");
    assert_eq!(by_search[4], "--kubeconfig=/h/.kube/config.dev");
    assert_eq!(by_search.len(), 5);
    let empty_name = build_proxy_args(&Some("dev".to_string()), &Some(String::new()), &files);
    assert_eq!(empty_name, by_search);
    let nowhere = build_proxy_args(&Some("ghost".to_string()), &None, &files);
    assert_eq!(
        nowhere,
        vec!["proxy", "--port=8001", "--disable-filter=true", "--context=ghost"]
    );
}

#[test]
fn start_evicts_before_spawn_and_stop_clears() {
    let mut state: KubectlProxy<u32> = KubectlProxy::new();
    let first = start_kubectl_proxy(None, None, &Vec::new(), "kubectl".to_string(), &mut state);
    assert_eq!(first.kill, None);
    assert_eq!(first.program, "kubectl");
    assert_eq!(first.args, vec!["proxy", "--port=8001", "--disable-filter=true"]);
    assert_eq!(install_proxy(&mut state, 100), None);
    let second = start_kubectl_proxy(
        Some("dev".to_string()),
        Some("/k/c".to_string()),
        &Vec::new(),
        "/usr/bin/kubectl".to_string(),
        &mut state,
    );
    assert_eq!(second.kill, Some(100));
    assert_eq!(second.program, "/usr/bin/kubectl");
    assert_eq!(second.args.len(), 5);
    assert_eq!(stop_kubectl_proxy(&mut state), None);
    assert_eq!(install_proxy(&mut state, 200), None);
    assert_eq!(install_proxy(&mut state, 300), Some(200));
    assert_eq!(stop_kubectl_proxy(&mut state), Some(300));
    assert_eq!(stop_kubectl_proxy(&mut state), None);
}

#[test]
fn failure_messages() {
    assert_eq!(
        spawn_failure("/usr/bin/kubectl", "No such file or directory (os error 2)"),
        "failed to spawn kubectl proxy (/usr/bin/kubectl): No such file or directory (os error 2)"
    );
    assert_eq!(client_failure("tls"), "failed to build HTTP client: tls");
}

#[test]
fn readiness_policy() {
    assert!(probe_ready(Probe::Status(200)));
    assert!(probe_ready(Probe::Status(204)));
    assert!(probe_ready(Probe::Status(299)));
    assert!(probe_ready(Probe::Status(403)));
    assert!(!probe_ready(Probe::Status(199)));
    assert!(!probe_ready(Probe::Status(300)));
    assert!(!probe_ready(Probe::Status(401)));
    assert!(!probe_ready(Probe::Status(404)));
    assert!(!probe_ready(Probe::Status(500)));
    assert!(!probe_ready(Probe::Status(0)));
    assert!(!probe_ready(Probe::Unreachable));
}

#[test]
fn polling_constants() {
    assert_eq!(MAX_ATTEMPTS, 10);
    assert_eq!(POLL_INTERVAL_MS, 500);
    assert_eq!(PROBE_TIMEOUT_MS, 400);
    assert!(PROBE_TIMEOUT_MS < POLL_INTERVAL_MS);
    assert_eq!(MAX_ATTEMPTS as u64 * POLL_INTERVAL_MS, 5000);
    assert_eq!(PROBE_URL, "http://127.0.0.1:8001/api");
    assert_eq!(PROXY_ADDRESS, "http://127.0.0.1:8001");
}

#[test]
fn ready_on_the_tenth_probe_succeeds() {
    let mut prober = |attempt: u32| {
        if attempt < 10 {
            Probe::Unreachable
        } else {
            Probe::Status(200)
        }
    };
    let (result, probes) = run_check(&mut prober, "some noise\n");
    assert_eq!(result, Ok(()));
    assert_eq!(probes, 10);
}

#[test]
fn never_ready_fails_with_the_captured_text() {
    let mut calls = 0;
    let mut prober = |_attempt: u32| {
        calls += 1;
        Probe::Status(503)
    };
    let captured = "error: unable to listen on port 8001\nbind: address already in use\n";
    let (result, probes) = run_check(&mut prober, captured);
    assert_eq!(probes, 10);
    assert_eq!(calls, 10);
    assert_eq!(
        result,
        Err(format!(
            "kubectl proxy did not become ready after 10 attempts (5 s).\nProxy output:\n{captured}"
        ))
    );
}

#[test]
fn ready_at_once_and_forbidden_counts() {
    let mut first = |_attempt: u32| Probe::Status(403);
    let (result, probes) = run_check(&mut first, "");
    assert_eq!(result, Ok(()));
    assert_eq!(probes, 1);
    let mut third = |attempt: u32| {
        if attempt == 3 {
            Probe::Status(200)
        } else {
            Probe::Status(404)
        }
    };
    let (result, probes) = run_check(&mut third, "");
    assert_eq!(result, Ok(()));
    assert_eq!(probes, 3);
}

#[test]
fn a_decided_check_takes_no_more_probes() {
    let mut check = HealthCheck::new();
    assert_eq!(check.readiness(), Readiness::Starting);
    assert_eq!(conclude_start(&check, "x"), None);
    assert_eq!(check.on_probe(Probe::Status(200)), Poll::Ready { attempts: 1 });
    assert_eq!(check.on_probe(Probe::Unreachable), Poll::Ready { attempts: 1 });
    assert_eq!(check.poll(), Poll::Ready { attempts: 1 });
    let mut spent = HealthCheck::new();
    let mut n = 0;
    while n < 10 {
        spent.on_probe(Probe::Unreachable);
        n += 1;
    }
    assert_eq!(spent.poll(), Poll::Exhausted);
    assert_eq!(spent.on_probe(Probe::Status(200)), Poll::Exhausted);
    assert_eq!(spent.readiness(), Readiness::Failed);
}

#[test]
fn failure_report_notes_missing_output() {
    let head = "kubectl proxy did not become ready after 10 attempts (5 s).\nProxy output:\n";
    assert_eq!(failure_report(""), format!("{head}no output captured from kubectl proxy"));
    assert_eq!(failure_report(" \n\t"), format!("{head}no output captured from kubectl proxy"));
    assert_eq!(failure_report("boom\n"), format!("{head}boom\n"));
    assert_eq!(failure_report("  padded  "), format!("{head}  padded  "));
}

#[test]
fn diagnostic_log_collects_lines() {
    let mut log = DiagnosticLog::new();
    assert_eq!(log.captured(), "");
    log.push_line("first");
    log.push_line("");
    log.push_line("third ✓");
    assert_eq!(log.captured(), "first\n\nthird ✓\n");
}

#[test]
fn diagnostic_log_is_bounded() {
    assert_eq!(DIAGNOSTIC_LIMIT, 65_536);
    let mut log = DiagnosticLog::new();
    let line = "x".repeat(1023);
    let mut n = 0;
    while n < 64 {
        log.push_line(&line);
        n += 1;
    }
    assert_eq!(log.captured().chars().count(), 65_536);
    log.push_line("");
    assert_eq!(log.captured().chars().count(), 65_536);
    let mut other = DiagnosticLog::new();
    other.push_line("kept");
    other.push_line(&"y".repeat(65_536));
    other.push_line("dropped, the buffer is closed");
    assert_eq!(other.captured(), "kept\n");
}
