use kubeterm::commands::kubectl::{
    argument_part, complete_args, describe_args, describe_pod, kubectl_args, not_found_message,
    run_kubectl, CommandEvent, CommandOutput, DONE_EVENT, ERROR_EVENT, LINE_EVENT,
};

fn output(success: bool, stdout: &[u8], stderr: &[u8]) -> CommandOutput {
    CommandOutput { success, stdout: stdout.to_vec(), stderr: stderr.to_vec() }
}

fn line(text: &str) -> CommandEvent {
    CommandEvent::Line(text.to_string())
}

fn error(text: &str) -> CommandEvent {
    CommandEvent::Error(text.to_string())
}

#[test]
fn command_event_names() {
    assert_eq!(LINE_EVENT, "command-output-line");
    assert_eq!(ERROR_EVENT, "command-output-error");
    assert_eq!(DONE_EVENT, "command-output-done");
    assert_eq!(not_found_message("os error 2"), "kubectl not found: os error 2");
}

#[test]
fn describe_arguments() {
    assert_eq!(
        describe_args("web-0", "prod", "/k/config.prod", "admin"),
        vec![
            "describe",
            "pod",
            "web-0",
            "-n",
            "prod",
            "--kubeconfig=/k/config.prod",
            "--context=admin",
        ]
    );
}

#[test]
fn describe_gives_the_output_on_success() {
    let out = output(true, b"Name: web-0\nStatus: Running\n", b"warning: ignored");
    assert_eq!(describe_pod(&out), Ok("Name: web-0\nStatus: Running\n".to_string()));
    assert_eq!(describe_pod(&output(true, b"", b"")), Ok(String::new()));
    assert_eq!(describe_pod(&output(true, &[b'a', 0xFF], b"")), Ok("a\u{FFFD}".to_string()));
}

#[test]
fn describe_gives_the_trimmed_error_on_failure() {
    let out = output(false, b"partial", b"  Error from server (NotFound): pods \"x\" not found\n");
    assert_eq!(
        describe_pod(&out),
        Err("kubectl: Error from server (NotFound): pods \"x\" not found".to_string())
    );
    assert_eq!(describe_pod(&output(false, b"x", b"")), Err("kubectl: ".to_string()));
    assert_eq!(describe_pod(&output(false, b"", b" \n ")), Err("kubectl: ".to_string()));
}

#[test]
fn leading_program_name_is_optional() {
    assert_eq!(argument_part("kubectl get pods"), "get pods");
    assert_eq!(argument_part("get pods"), "get pods");
    assert_eq!(argument_part("  kubectl   get pods -A  "), "get pods -A");
    assert_eq!(argument_part("kubectl"), "");
    assert_eq!(argument_part(""), "");
    assert_eq!(argument_part("kubectlkubectl get"), "get");
    assert_eq!(argument_part("kubectl kubectl get"), "kubectl get");
    assert_eq!(argument_part("kubectlx get"), "x get");
    assert_eq!(argument_part("Kubectl get"), "Kubectl get");
    let samples = ["kubectl get pods", " kubectl\tdescribe pod x ", "top nodes", "kubectlkubectl"];
    for s in samples {
        assert_eq!(argument_part(s), s.trim().trim_start_matches("kubectl").trim_start());
    }
}

#[test]
fn typed_command_is_split_like_a_shell_and_completed() {
    assert_eq!(
        kubectl_args("kubectl get pods -l 'app=web server' -o \"json\"", "/k/config", "dev"),
        Ok(vec![
            "get".to_string(),
            "pods".to_string(),
            "-l".to_string(),
            "app=web server".to_string(),
            "-o".to_string(),
            "json".to_string(),
            "--kubeconfig=/k/config".to_string(),
            "--context=dev".to_string(),
        ])
    );
    assert_eq!(
        kubectl_args("logs a\\ b # trailing comment", "f", "c"),
        Ok(vec![
            "logs".to_string(),
            "a b".to_string(),
            "--kubeconfig=f".to_string(),
            "--context=c".to_string(),
        ])
    );
    assert_eq!(
        kubectl_args("", "f", "c"),
        Ok(vec!["--kubeconfig=f".to_string(), "--context=c".to_string()])
    );
}

#[test]
fn open_quote_is_reported() {
    assert_eq!(kubectl_args("get pods 'unclosed", "f", "c"), Err("missing closing quote".to_string()));
    assert_eq!(kubectl_args("kubectl exec \"x", "f", "c"), Err("missing closing quote".to_string()));
}

#[test]
fn complete_args_appends_the_target() {
    assert_eq!(
        complete_args(vec!["top".to_string(), "nodes".to_string()], "/k/c", "ctx"),
        vec!["top", "nodes", "--kubeconfig=/k/c", "--context=ctx"]
    );
    assert_eq!(complete_args(Vec::new(), "", ""), vec!["--kubeconfig=", "--context="]);
}

#[test]
fn output_becomes_line_events_then_errors_then_done() {
    let out = output(true, b"NAME READY\r\nweb-0 1/1\n\nlast", b"warn one\nwarn two\n");
    assert_eq!(
        run_kubectl(&out),
        vec![
            line("NAME READY"),
            line("web-0 1/1"),
            line(""),
            line("last"),
            error("warn one"),
            error("warn two"),
            CommandEvent::Done,
        ]
    );
}

#[test]
fn empty_output_is_only_done() {
    assert_eq!(run_kubectl(&output(false, b"", b"")), vec![CommandEvent::Done]);
    assert_eq!(run_kubectl(&output(true, b"", b"e")), vec![error("e"), CommandEvent::Done]);
    assert_eq!(
        run_kubectl(&output(true, &[0xC0, b'\n'], b"")),
        vec![line("\u{FFFD}"), CommandEvent::Done]
    );
}
