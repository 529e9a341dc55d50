use kubeterm::commands::kubeconfig::{
    build_contexts_from_files, check_cluster_health, context_fault_message, display_name,
    env_suffices, get_kubeconfig_contexts, has_context, health_url, kube_dirs_to_scan,
    kubeconfig_env_paths, load_files_from_paths, no_path_message, primary_kubeconfig_path,
    scan_kube_dir, set_active_context, ClusterEntry, ContextEntry, ContextFault, ContextTarget, DirEntry, DirProbe,
    KubeconfigFile, CURRENT_CONTEXT_KEY, HEALTH_TIMEOUT_SECS, NOT_A_MAPPING, SLOW_AFTER_NANOS,
};
use kubeterm::models::k8s::KubeContext;

fn cluster(name: &str, server: Option<&str>) -> ClusterEntry {
    ClusterEntry { name: name.to_string(), server: server.map(|s| s.to_string()) }
}

fn context(name: &str, cluster: &str, user: Option<&str>) -> ContextEntry {
    ContextEntry {
        name: name.to_string(),
        context: Some(ContextTarget {
            cluster: cluster.to_string(),
            user: user.map(|s| s.to_string()),
            namespace: None,
        }),
    }
}

fn nameless(name: &str) -> ContextEntry {
    ContextEntry { name: name.to_string(), context: None }
}

fn file(
    path: &str,
    current: Option<&str>,
    clusters: Vec<ClusterEntry>,
    contexts: Vec<ContextEntry>,
) -> KubeconfigFile {
    KubeconfigFile {
        path: path.to_string(),
        current_context: current.map(|s| s.to_string()),
        clusters,
        contexts,
    }
}

fn entry(path: &str, name: &str, is_dir: bool) -> DirEntry {
    DirEntry { path: path.to_string(), name: name.to_string(), is_dir }
}

#[test]
fn env_paths_are_split_trimmed_and_filtered() {
    assert_eq!(
        kubeconfig_env_paths("/a/config: /b/config.dev ::  :/c", false),
        vec!["/a/config", "/b/config.dev", "/c"]
    );
    assert_eq!(
        kubeconfig_env_paths("C:\\k\\config;D:\\k\\other", true),
        vec!["C:\\k\\config", "D:\\k\\other"]
    );
    assert_eq!(kubeconfig_env_paths("C:\\k\\config", false), vec!["C", "\\k\\config"]);
    assert!(kubeconfig_env_paths("", false).is_empty());
    assert!(kubeconfig_env_paths(" : ", false).is_empty());
    assert_eq!(kubeconfig_env_paths("one", true), vec!["one"]);
}

#[test]
fn primary_path_is_first_of_the_list_or_the_home_default() {
    assert_eq!(
        primary_kubeconfig_path(Some(" /a/config :/b".to_string()), false, Some("/h/.kube/config".to_string())),
        Some("/a/config".to_string())
    );
    assert_eq!(
        primary_kubeconfig_path(Some("C:\\a;C:\\b".to_string()), true, None),
        Some("C:\\a".to_string())
    );
    assert_eq!(primary_kubeconfig_path(Some(String::new()), false, None), Some(String::new()));
    assert_eq!(
        primary_kubeconfig_path(None, false, Some("/h/.kube/config".to_string())),
        Some("/h/.kube/config".to_string())
    );
    assert_eq!(primary_kubeconfig_path(None, true, None), None);
}

#[test]
fn only_existing_directories_are_scanned() {
    let home = DirProbe { path: "/home/u/.kube".to_string(), is_dir: true };
    let win = DirProbe { path: "/mnt/c/Users/u/.kube".to_string(), is_dir: true };
    assert_eq!(
        kube_dirs_to_scan(Some(home.clone()), Some(win.clone())),
        vec!["/home/u/.kube", "/mnt/c/Users/u/.kube"]
    );
    let gone = DirProbe { path: "/home/u/.kube".to_string(), is_dir: false };
    assert_eq!(kube_dirs_to_scan(Some(gone.clone()), Some(win)), vec!["/mnt/c/Users/u/.kube"]);
    assert_eq!(kube_dirs_to_scan(Some(home), None), vec!["/home/u/.kube"]);
    assert!(kube_dirs_to_scan(Some(gone), None).is_empty());
    assert!(kube_dirs_to_scan(None, None).is_empty());
}

#[test]
fn scan_keeps_config_files_sorted() {
    let entries = vec![
        entry("/k/config.zeta", "config.zeta", false),
        entry("/k/cache", "cache", true),
        entry("/k/config", "config", false),
        entry("/k/config.d", "config.d", true),
        entry("/k/kubectx", "kubectx", false),
        entry("/k/config-backup", "config-backup", false),
        entry("/k/Config", "Config", false),
        entry("/k/config.alpha", "config.alpha", false),
        entry("/k/odd", "", false),
    ];
    assert_eq!(
        scan_kube_dir(entries),
        vec!["/k/config", "/k/config-backup", "/k/config.alpha", "/k/config.zeta"]
    );
    assert!(scan_kube_dir(Vec::new()).is_empty());
}

#[test]
fn unreadable_files_are_skipped() {
    let a = file("/a", None, Vec::new(), Vec::new());
    let b = file("/b", Some("x"), Vec::new(), vec![nameless("x")]);
    let loaded = load_files_from_paths(vec![None, Some(a.clone()), None, Some(b.clone()), None]);
    assert_eq!(loaded, vec![a, b]);
    assert!(load_files_from_paths(vec![None]).is_empty());
    assert!(load_files_from_paths(Vec::new()).is_empty());
}

#[test]
fn display_name_comes_from_the_file_name() {
    assert_eq!(display_name("/home/u/.kube/config.eagle-i-orc", "local"), "eagle-i-orc");
    assert_eq!(display_name("/home/u/.kube/config", "local"), "local");
    assert_eq!(display_name("C:\\Users\\u\\.kube\\config.prod", "ctx"), "prod");
    assert_eq!(display_name("config.dev", "ctx"), "dev");
    assert_eq!(display_name("/k/config.", "ctx"), "ctx");
    assert_eq!(display_name("/k/config-dev", "ctx"), "ctx");
    assert_eq!(display_name("/k/other.yaml", "ctx"), "ctx");
    assert_eq!(display_name("/k/config.a.b", "ctx"), "a.b");
    assert_eq!(display_name("/config.dir/config", "ctx"), "ctx");
    assert_eq!(display_name("", "ctx"), "ctx");
    assert_eq!(display_name("/k/", "ctx"), "ctx");
}

#[test]
fn has_context_looks_at_names() {
    let f = file("/a", None, Vec::new(), vec![nameless("one"), context("two", "c", None)]);
    assert!(has_context(&f, "one"));
    assert!(has_context(&f, "two"));
    assert!(!has_context(&f, "three"));
    assert!(!has_context(&f, ""));
}

#[test]
fn contexts_keep_their_file_and_first_occurrence_wins() {
    let files = vec![
        file(
            "/k/config",
            None,
            vec![cluster("c1", Some("https://one:6443")), cluster("c2", None)],
            vec![context("local", "c1", Some("me")), nameless("ghost"), context("dev", "c2", None)],
        ),
        file(
            "/k/config.prod",
            Some("prod"),
            vec![cluster("c3", Some("https://three")), cluster("c1", Some("https://one-late"))],
            vec![
                context("prod", "c3", Some("admin")),
                context("local", "c3", Some("other")),
                context("ghost", "c3", None),
            ],
        ),
        file("/k/config.z", Some("local"), vec![cluster("c2", Some("https://two"))], Vec::new()),
    ];
    let contexts = build_contexts_from_files(&files);
    assert_eq!(
        contexts,
        vec![
            KubeContext {
                display_name: "local".to_string(),
                context_name: "local".to_string(),
                source_file: "/k/config".to_string(),
                cluster: "c1".to_string(),
                user: "me".to_string(),
                is_active: false,
                server_url: Some("https://one-late".to_string()),
            },
            KubeContext {
                display_name: "dev".to_string(),
                context_name: "dev".to_string(),
                source_file: "/k/config".to_string(),
                cluster: "c2".to_string(),
                user: String::new(),
                is_active: false,
                server_url: Some("https://two".to_string()),
            },
            KubeContext {
                display_name: "prod".to_string(),
                context_name: "prod".to_string(),
                source_file: "/k/config.prod".to_string(),
                cluster: "c3".to_string(),
                user: "admin".to_string(),
                is_active: true,
                server_url: Some("https://three".to_string()),
            },
        ]
    );
}

#[test]
fn contexts_without_known_cluster_have_no_server() {
    let files = vec![file(
        "/k/config.x",
        None,
        vec![cluster("known", None)],
        vec![context("", "known", None), context("b", "unknown", None)],
    )];
    let contexts = build_contexts_from_files(&files);
    assert_eq!(contexts.len(), 2);
    assert_eq!(contexts[0].server_url, None);
    assert_eq!(contexts[1].server_url, None);
    assert!(contexts[0].is_active);
    assert!(!contexts[1].is_active);
    assert_eq!(contexts[0].display_name, "x");
    assert!(build_contexts_from_files(&Vec::new()).is_empty());
}

#[test]
fn listing_prefers_the_path_list_when_it_holds_contexts() {
    let env_files = vec![file("/e/config", None, Vec::new(), vec![context("from-env", "c", None)])];
    let dir_files = vec![file("/d/config", None, Vec::new(), vec![context("from-dir", "c", None)])];
    assert!(env_suffices(&env_files));
    let listed = get_kubeconfig_contexts(&env_files, &dir_files);
    assert_eq!(listed.len(), 1);
    assert_eq!(listed[0].context_name, "from-env");
    assert_eq!(listed[0].source_file, "/e/config");
}

#[test]
fn listing_falls_back_on_the_directories() {
    let empty_env = vec![file("/e/config", Some("x"), Vec::new(), Vec::new())];
    let dir_files = vec![file("/d/config", None, Vec::new(), vec![context("from-dir", "c", None)])];
    assert!(!env_suffices(&empty_env));
    assert!(!env_suffices(&Vec::new()));
    let listed = get_kubeconfig_contexts(&empty_env, &dir_files);
    assert_eq!(listed.len(), 1);
    assert_eq!(listed[0].context_name, "from-dir");
    assert!(get_kubeconfig_contexts(&Vec::new(), &Vec::new()).is_empty());
    let only_nameless = vec![file("/e/config", None, Vec::new(), vec![nameless("n")])];
    assert!(env_suffices(&only_nameless));
    assert!(get_kubeconfig_contexts(&only_nameless, &dir_files).is_empty());
}

#[test]
fn context_faults() {
    assert_eq!(CURRENT_CONTEXT_KEY, "current-context");
    assert_eq!(no_path_message(), "Cannot determine kubeconfig path");
    assert_eq!(context_fault_message(ContextFault::Read, "gone"), "Failed to read kubeconfig: gone");
    assert_eq!(
        context_fault_message(ContextFault::Parse, "line 3"),
        "Failed to parse kubeconfig: line 3"
    );
    assert_eq!(
        context_fault_message(ContextFault::Serialize, "x"),
        "Failed to serialize kubeconfig: x"
    );
    assert_eq!(
        context_fault_message(ContextFault::Write, "read-only"),
        "Failed to write kubeconfig: read-only"
    );
}

#[test]
fn health_url_drops_trailing_slashes() {
    assert_eq!(health_url("https://k8s.example:6443"), "https://k8s.example:6443/healthz");
    assert_eq!(health_url("https://k8s.example:6443/"), "https://k8s.example:6443/healthz");
    assert_eq!(health_url("https://k8s.example///"), "https://k8s.example/healthz");
    assert_eq!(health_url(""), "/healthz");
    assert_eq!(health_url("/"), "/healthz");
    assert_eq!(health_url("http://a/b"), "http://a/b/healthz");
}

#[test]
fn health_by_response_time() {
    assert_eq!(SLOW_AFTER_NANOS, 1_500_000_000);
    assert_eq!(HEALTH_TIMEOUT_SECS, 5);
    assert_eq!(check_cluster_health(None), "unreachable");
    assert_eq!(check_cluster_health(Some(0)), "healthy");
    assert_eq!(check_cluster_health(Some(1_500_000_000)), "healthy");
    assert_eq!(check_cluster_health(Some(1_500_000_001)), "slow");
    assert_eq!(check_cluster_health(Some(4_999_999_999)), "slow");
    assert_eq!(check_cluster_health(Some(u128::MAX)), "slow");
}

#[test]
fn current_context_is_replaced_and_the_rest_kept() {
    let raw = "apiVersion: v1\nkind: Config\ncurrent-context: old\ncontexts:\n- name: old\n  context:\n    cluster: c1\n    user: u1\n- name: new\n  context:\n    cluster: c2\n    user: u2\n";
    let expected = "apiVersion: v1\nkind: Config\ncurrent-context: new\ncontexts:\n- name: old\n  context:\n    cluster: c1\n    user: u1\n- name: new\n  context:\n    cluster: c2\n    user: u2\n";
    assert_eq!(set_active_context(raw, "new"), Ok(expected.to_string()));
    let mut doc: serde_yaml::Value = serde_yaml::from_str(raw).unwrap();
    doc["current-context"] = serde_yaml::Value::String("other one".to_string());
    assert_eq!(set_active_context(raw, "other one"), Ok(serde_yaml::to_string(&doc).unwrap()));
}

#[test]
fn current_context_is_added_where_it_is_missing() {
    assert_eq!(set_active_context("a: 1\n", "dev"), Ok("a: 1\ncurrent-context: dev\n".to_string()));
    assert_eq!(set_active_context("", "dev"), Ok("current-context: dev\n".to_string()));
    assert_eq!(set_active_context("~\n", "dev"), Ok("current-context: dev\n".to_string()));
    assert_eq!(set_active_context("{}", ""), Ok("current-context: ''\n".to_string()));
}

#[test]
fn broken_documents_are_reported() {
    let unparsed = set_active_context("a: [1, 2\nb: 3\n", "dev");
    match unparsed {
        Err(message) => {
            assert!(message.starts_with("Failed to parse kubeconfig: "));
            assert!(message.len() > "Failed to parse kubeconfig: ".len());
            assert_ne!(message, format!("Failed to parse kubeconfig: {NOT_A_MAPPING}"));
        }
        Ok(text) => panic!("parsed into {text:?}"),
    }
}

#[test]
fn documents_without_keys_are_reported() {
    assert_eq!(NOT_A_MAPPING, "the document is not a mapping");
    let expected = Err("Failed to parse kubeconfig: the document is not a mapping".to_string());
    assert_eq!(set_active_context("- a\n- b\n", "dev"), expected);
    assert_eq!(set_active_context("just text", "dev"), expected);
    assert_eq!(set_active_context("42", "dev"), expected);
}
