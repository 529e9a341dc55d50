//! Pod logs: the arguments of `kubectl logs`, and what to publish when the
//! command has ended.

use vstd::prelude::*;
use vstd::string::*;
use crate::text::{lossy_text, lossy_utf8};
use crate::text::{blank, join_two, decimal, is_blank, opt_view, push_decimal, trim, trimmed, views};

verus! {

/// The event that carries one line of the log.
pub const LINE_EVENT: &'static str = "pod-log-line";

/// The event that carries the error output of a command that failed.
pub const ERROR_EVENT: &'static str = "pod-log-error";

/// The event that says that the log has ended.
pub const DONE_EVENT: &'static str = "pod-log-done";

/// The arguments of `kubectl logs`: the pod, its namespace, the cluster to
/// ask; then the number of lines to begin with, where one is given; then the
/// request to follow the log, where it is made.
pub open spec fn log_args(
    name: Seq<char>,
    namespace: Seq<char>,
    source_file: Seq<char>,
    context_name: Seq<char>,
    tail: Option<u32>,
    follow: bool,
) -> Seq<Seq<char>> {
    let base = seq![
        "logs"@,
        name,
        "-n"@,
        namespace,
        "--kubeconfig="@ + source_file,
        "--context="@ + context_name,
    ];
    let with_tail = match tail {
        Some(n) => base.push("--tail="@ + decimal(n as nat)),
        None => base,
    };
    if follow {
        with_tail.push("-f"@)
    } else {
        with_tail
    }
}

/// The arguments to read the log of one pod with.
pub fn get_pod_logs(
    name: String,
    namespace: String,
    source_file: &str,
    context_name: &str,
    tail: Option<u32>,
    follow: bool,
) -> (args: Vec<String>)
    ensures
        views(args@) == log_args(name@, namespace@, source_file@, context_name@, tail, follow),
{
    let mut args: Vec<String> = Vec::new();
    let ghost name_view = name@;
    let ghost namespace_view = namespace@;
    args.push(String::from_str("logs"));
    args.push(name);
    args.push(String::from_str("-n"));
    args.push(namespace);
    args.push(join_two("--kubeconfig=", source_file));
    args.push(join_two("--context=", context_name));
    let ghost base = views(args@);
    assert(base =~= seq![
        "logs"@,
        name_view,
        "-n"@,
        namespace_view,
        "--kubeconfig="@ + source_file@,
        "--context="@ + context_name@,
    ]);
    match tail {
        Some(n) => {
            let mut flag = String::from_str("--tail=");
            push_decimal(&mut flag, n as u64);
            args.push(flag);
            assert(views(args@) =~= base.push("--tail="@ + decimal(n as nat)));
        },
        None => {},
    }
    let ghost with_tail = views(args@);
    if follow {
        args.push(String::from_str("-f"));
        assert(views(args@) =~= with_tail.push("-f"@));
    }
    args
}

/// The report of a log command without a standard output to read.
pub fn no_stdout_message() -> (message: String)
    ensures
        message@ == "no stdout"@,
{
    String::from_str("no stdout")
}

/// What to publish as the error of a log command that has ended: its error
/// output, trimmed, where the command failed and wrote any; else nothing.
pub open spec fn log_error(success: bool, stderr: Seq<u8>) -> Option<Seq<char>> {
    if success || is_blank(lossy_utf8(stderr)) {
        None
    } else {
        Some(trim(lossy_utf8(stderr)))
    }
}

/// What to publish as the error of a log command that has ended. The end of
/// the log is published after it in every case.
pub fn finish_pod_logs(success: bool, stderr: &Vec<u8>) -> (error: Option<String>)
    ensures
        opt_view(error) == log_error(success, stderr@),
{
    if success {
        return None;
    }
    let text = lossy_text(stderr);
    if blank(text.as_str()) {
        None
    } else {
        Some(trimmed(text.as_str()))
    }
}

} // verus!
