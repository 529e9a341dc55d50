use kubeterm::commands::logs::{
    finish_pod_logs, get_pod_logs, no_stdout_message, DONE_EVENT, ERROR_EVENT, LINE_EVENT,
};

#[test]
fn log_event_names() {
    assert_eq!(LINE_EVENT, "pod-log-line");
    assert_eq!(ERROR_EVENT, "pod-log-error");
    assert_eq!(DONE_EVENT, "pod-log-done");
    assert_eq!(no_stdout_message(), "no stdout");
}

#[test]
fn plain_log_arguments() {
    assert_eq!(
        get_pod_logs("web-0".to_string(), "prod".to_string(), "/k/config", "ctx", None, false),
        vec!["logs", "web-0", "-n", "prod", "--kubeconfig=/k/config", "--context=ctx"]
    );
}

#[test]
fn tail_and_follow_are_appended_in_this_order() {
    assert_eq!(
        get_pod_logs("p".to_string(), "n".to_string(), "f", "c", Some(200), true),
        vec!["logs", "p", "-n", "n", "--kubeconfig=f", "--context=c", "--tail=200", "-f"]
    );
    assert_eq!(
        get_pod_logs("p".to_string(), "n".to_string(), "f", "c", Some(0), false),
        vec!["logs", "p", "-n", "n", "--kubeconfig=f", "--context=c", "--tail=0"]
    );
    assert_eq!(
        get_pod_logs("p".to_string(), "n".to_string(), "f", "c", None, true),
        vec!["logs", "p", "-n", "n", "--kubeconfig=f", "--context=c", "-f"]
    );
    let all = get_pod_logs("p".to_string(), "n".to_string(), "f", "c", Some(u32::MAX), false);
    assert_eq!(all[6], "--tail=4294967295");
}

#[test]
fn error_output_of_a_failed_command_is_published_trimmed() {
    assert_eq!(
        finish_pod_logs(false, &b"  error: container not found\n\n".to_vec()),
        Some("error: container not found".to_string())
    );
    assert_eq!(finish_pod_logs(false, &vec![b'x', 0xFF, b' ']), Some("x\u{FFFD}".to_string()));
}

#[test]
fn nothing_is_published_for_success_or_silence() {
    assert_eq!(finish_pod_logs(true, &b"noise".to_vec()), None);
    assert_eq!(finish_pod_logs(true, &Vec::new()), None);
    assert_eq!(finish_pod_logs(false, &Vec::new()), None);
    assert_eq!(finish_pod_logs(false, &b" \r\n\t".to_vec()), None);
}
