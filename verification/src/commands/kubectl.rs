//! One-shot `kubectl` commands: the arguments to run them with, and what
//! their output means.

use vstd::prelude::*;
use vstd::string::*;
use crate::text::{lossy_text, lossy_utf8};
use crate::text::{
    chars_of, join_two, lines, lines_of, skip_repeats, skip_spaces, string_of_range, strip_leading,
    text_result_view, trim, trim_start, trimmed, views,
};

verus! {

/// The event that carries one line of a command's output.
pub const LINE_EVENT: &'static str = "command-output-line";

/// The event that carries one line of a command's error output.
pub const ERROR_EVENT: &'static str = "command-output-error";

/// The event that says that a command's output is complete.
pub const DONE_EVENT: &'static str = "command-output-done";

/// The error of `shell_words::split`.
#[verifier::external_type_specification]
#[verifier::external_body]
pub struct ExParseError(shell_words::ParseError);

/// The words that `shell_words::split` makes of a command line, in the way
/// of a Unix shell: quotes removed, backslashes resolved, comments dropped.
/// There are none where a quote is left open.
pub uninterp spec fn shell_split(line: Seq<char>) -> Option<Seq<Seq<char>>>;

/// Splits a command line into words. Trusted: `shell_words::split`, whose
/// result depends on the line alone; it fails only on an unmatched quote.
/// The contract names the result and says no more.
#[verifier::external_body]
fn split_words(line: &str) -> (r: Result<Vec<String>, shell_words::ParseError>)
    ensures
        match r {
            Ok(words) => shell_split(line@) == Some(views(words@)),
            Err(_) => shell_split(line@) is None,
        },
{
    shell_words::split(line)
}

/// The text of a split error. Trusted: the `Display` of
/// `shell_words::ParseError`, which writes these words and nothing else.
#[verifier::external_body]
fn split_error_text(e: &shell_words::ParseError) -> (text: String)
    ensures
        text@ == "missing closing quote"@,
{
    e.to_string()
}

/// What a command left behind when it ended.
#[derive(Clone, Debug, PartialEq, Eq)]
pub struct CommandOutput {
    /// Whether the command reported success.
    pub success: bool,
    pub stdout: Vec<u8>,
    pub stderr: Vec<u8>,
}

/// One event of a command's output.
#[derive(Clone, Debug, PartialEq, Eq)]
pub enum CommandEvent {
    /// A line of standard output.
    Line(String),
    /// A line of error output.
    Error(String),
    /// The end of the output.
    Done,
}

/// An output event as the contracts see it.
pub enum CommandEventView {
    Line(Seq<char>),
    Error(Seq<char>),
    Done,
}

impl CommandEvent {
    pub open spec fn view(&self) -> CommandEventView {
        match self {
            CommandEvent::Line(text) => CommandEventView::Line(text@),
            CommandEvent::Error(text) => CommandEventView::Error(text@),
            CommandEvent::Done => CommandEventView::Done,
        }
    }
}

/// The views of a list of events, element by element.
pub open spec fn event_views(events: Seq<CommandEvent>) -> Seq<CommandEventView> {
    events.map_values(|e: CommandEvent| e@)
}

/// The report of a `kubectl` that could not be run.
pub fn not_found_message(detail: &str) -> (message: String)
    ensures
        message@ == "kubectl not found: "@ + detail@,
{
    join_two("kubectl not found: ", detail)
}

/// The two arguments that direct a command at one cluster.
pub open spec fn target_flags(source_file: Seq<char>, context_name: Seq<char>) -> Seq<Seq<char>> {
    seq!["--kubeconfig="@ + source_file, "--context="@ + context_name]
}

/// The arguments of `kubectl describe pod`.
pub open spec fn describe_args_of(
    name: Seq<char>,
    namespace: Seq<char>,
    source_file: Seq<char>,
    context_name: Seq<char>,
) -> Seq<Seq<char>> {
    seq!["describe"@, "pod"@, name, "-n"@, namespace] + target_flags(source_file, context_name)
}

/// The arguments of `kubectl describe pod` for one pod.
pub fn describe_args(name: &str, namespace: &str, source_file: &str, context_name: &str) -> (args:
    Vec<String>)
    ensures
        views(args@) == describe_args_of(name@, namespace@, source_file@, context_name@),
{
    let mut args: Vec<String> = Vec::new();
    args.push(String::from_str("describe"));
    args.push(String::from_str("pod"));
    args.push(String::from_str(name));
    args.push(String::from_str("-n"));
    args.push(String::from_str(namespace));
    args.push(join_two("--kubeconfig=", source_file));
    args.push(join_two("--context=", context_name));
    assert(views(args@) =~= describe_args_of(name@, namespace@, source_file@, context_name@));
    args
}

/// What `kubectl describe pod` gave: the output as text where the command
/// succeeded; else its error output, trimmed, behind `kubectl: `.
pub open spec fn describe_result(success: bool, stdout: Seq<u8>, stderr: Seq<u8>) -> Result<
    Seq<char>,
    Seq<char>,
> {
    if success {
        Ok(lossy_utf8(stdout))
    } else {
        Err("kubectl: "@ + trim(lossy_utf8(stderr)))
    }
}

/// The description of a pod, from what `kubectl describe pod` left behind.
pub fn describe_pod(output: &CommandOutput) -> (result: Result<String, String>)
    ensures
        text_result_view(result) == describe_result(
            output.success,
            output.stdout@,
            output.stderr@,
        ),
{
    if output.success {
        Ok(lossy_text(&output.stdout))
    } else {
        let err = lossy_text(&output.stderr);
        let shown = trimmed(err.as_str());
        Err(join_two("kubectl: ", shown.as_str()))
    }
}

/// The part of a typed command that holds the arguments: the command
/// trimmed, without any leading `kubectl`, and without the white space that
/// follows it. So a command may be typed with or without the program's name.
pub open spec fn argument_text(command: Seq<char>) -> Seq<char> {
    trim_start(strip_leading(trim(command), "kubectl"@))
}

/// The part of a typed command that holds the arguments.
pub fn argument_part(command: &str) -> (text: String)
    ensures
        text@ == argument_text(command@),
{
    let whole = trimmed(command);
    let v = chars_of(whole.as_str());
    let program = chars_of("kubectl");
    let k = skip_repeats(&v, 0, &program);
    proof {
        assert(v@.skip(0) =~= v@);
        assert(v@.skip(k as int) =~= v@.subrange(k as int, v.len() as int));
    }
    let rest = string_of_range(&v, k, v.len());
    let w = chars_of(rest.as_str());
    let j = skip_spaces(&w);
    string_of_range(&w, j, w.len())
}

/// The arguments of a typed command, once it is split into words: the words,
/// then the two arguments that direct it at one cluster.
pub open spec fn completed_args(
    words: Seq<Seq<char>>,
    source_file: Seq<char>,
    context_name: Seq<char>,
) -> Seq<Seq<char>> {
    words + target_flags(source_file, context_name)
}

/// Completes the words of a typed command with the two arguments that
/// direct it at one cluster.
pub fn complete_args(words: Vec<String>, source_file: &str, context_name: &str) -> (args: Vec<
    String,
>)
    ensures
        views(args@) == completed_args(views(words@), source_file@, context_name@),
{
    let mut args = words;
    args.push(join_two("--kubeconfig=", source_file));
    args.push(join_two("--context=", context_name));
    assert(views(args@) =~= completed_args(views(words@), source_file@, context_name@));
    args
}

/// The arguments to run a typed command with: the words of its argument
/// part, completed; or the report that a quote is left open.
pub open spec fn typed_args(command: Seq<char>, source_file: Seq<char>, context_name: Seq<char>)
    -> Result<Seq<Seq<char>>, Seq<char>> {
    match shell_split(argument_text(command)) {
        Some(words) => Ok(completed_args(words, source_file, context_name)),
        None => Err("missing closing quote"@),
    }
}

/// An argument list or a report, as the contracts see it.
pub open spec fn args_result_view(result: Result<Vec<String>, String>) -> Result<
    Seq<Seq<char>>,
    Seq<char>,
> {
    match result {
        Ok(args) => Ok(views(args@)),
        Err(text) => Err(text@),
    }
}

/// The arguments to run a typed command with.
pub fn kubectl_args(command: &str, source_file: &str, context_name: &str) -> (result: Result<
    Vec<String>,
    String,
>)
    ensures
        args_result_view(result) == typed_args(command@, source_file@, context_name@),
{
    let text = argument_part(command);
    match split_words(text.as_str()) {
        Ok(words) => Ok(complete_args(words, source_file, context_name)),
        Err(e) => Err(split_error_text(&e)),
    }
}

/// The `Line` events for the lines `lines`.
pub open spec fn line_events(lines: Seq<Seq<char>>) -> Seq<CommandEventView> {
    lines.map_values(|l: Seq<char>| CommandEventView::Line(l))
}

/// The `Error` events for the lines `lines`.
pub open spec fn error_events(lines: Seq<Seq<char>>) -> Seq<CommandEventView> {
    lines.map_values(|l: Seq<char>| CommandEventView::Error(l))
}

/// The events for a command's output: one for each line of its standard
/// output, then one for each line of its error output, then the end.
pub open spec fn output_events(stdout: Seq<u8>, stderr: Seq<u8>) -> Seq<CommandEventView> {
    line_events(lines(lossy_utf8(stdout))) + error_events(lines(lossy_utf8(stderr))).push(
        CommandEventView::Done,
    )
}

/// The events to publish for what a typed command left behind, in order.
pub fn run_kubectl(output: &CommandOutput) -> (events: Vec<CommandEvent>)
    ensures
        event_views(events@) == output_events(output.stdout@, output.stderr@),
{
    let stdout = lossy_text(&output.stdout);
    let stderr = lossy_text(&output.stderr);
    let out_lines = lines_of(stdout.as_str());
    let err_lines = lines_of(stderr.as_str());
    let ghost out_views = views(out_lines@);
    let ghost err_views = views(err_lines@);
    let mut events: Vec<CommandEvent> = Vec::new();
    let mut i: usize = 0;
    assert(event_views(events@) =~= line_events(out_views.take(0)));
    while i < out_lines.len()
        invariant
            i <= out_lines.len(),
            out_views == views(out_lines@),
            event_views(events@) == line_events(out_views.take(i as int)),
        decreases out_lines.len() - i,
    {
        let ghost before = event_views(events@);
        events.push(CommandEvent::Line(out_lines[i].clone()));
        proof {
            assert(out_views[i as int] == out_lines@[i as int]@);
            assert(event_views(events@) =~= before.push(CommandEventView::Line(out_views[i as int])));
            assert(line_events(out_views.take(i as int + 1)) =~= line_events(
                out_views.take(i as int),
            ).push(CommandEventView::Line(out_views[i as int])));
        }
        i += 1;
    }
    assert(out_views.take(out_lines.len() as int) =~= out_views);
    let mut j: usize = 0;
    assert(event_views(events@) =~= line_events(out_views) + error_events(err_views.take(0)));
    while j < err_lines.len()
        invariant
            j <= err_lines.len(),
            err_views == views(err_lines@),
            event_views(events@) == line_events(out_views) + error_events(
                err_views.take(j as int),
            ),
        decreases err_lines.len() - j,
    {
        let ghost before = event_views(events@);
        events.push(CommandEvent::Error(err_lines[j].clone()));
        proof {
            assert(err_views[j as int] == err_lines@[j as int]@);
            assert(event_views(events@) =~= before.push(
                CommandEventView::Error(err_views[j as int]),
            ));
            assert(error_events(err_views.take(j as int + 1)) =~= error_events(
                err_views.take(j as int),
            ).push(CommandEventView::Error(err_views[j as int])));
        }
        j += 1;
    }
    assert(err_views.take(err_lines.len() as int) =~= err_views);
    let ghost before = event_views(events@);
    events.push(CommandEvent::Done);
    assert(event_views(events@) =~= before.push(CommandEventView::Done));
    events
}

} // verus!
