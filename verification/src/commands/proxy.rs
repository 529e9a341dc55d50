//! The supervisor of the local forwarding proxy: which binary to run and
//! with which arguments, the slot that holds the one proxy process, the
//! bounded readiness polling, and the report of a failed start.

use vstd::prelude::*;
use vstd::string::*;
use crate::commands::kubeconfig::{
    file_views, has_context, names_context, KubeconfigFile, KubeconfigFileView,
};
use crate::text::{
    ascii_lower, blank, chars_of, is_blank, join_three, join_two, opt_view, push_char,
    push_replaced, replace_char, skip_spaces, skip_spaces_back, to_ascii_lower, trim, views,
};
use crate::KubectlProxy;

verus! {

/// The number of readiness probes that a start may spend.
pub const MAX_ATTEMPTS: u32 = 10;

/// The pause before each probe, in milliseconds.
pub const POLL_INTERVAL_MS: u64 = 500;

/// The time that one probe may take, in milliseconds. It is shorter than the
/// pause, so that a probe that hangs cannot use up the budget.
pub const PROBE_TIMEOUT_MS: u64 = 400;

/// Where the proxy listens.
pub const PROXY_ADDRESS: &'static str = "http://127.0.0.1:8001";

/// The local endpoint that is probed.
pub const PROBE_URL: &'static str = "http://127.0.0.1:8001/api";

/// The first explicit location that is tried for `kubectl`.
pub const KUBECTL_USR_BIN: &'static str = "/usr/bin/kubectl";

/// The second explicit location that is tried for `kubectl`.
pub const KUBECTL_USR_LOCAL_BIN: &'static str = "/usr/local/bin/kubectl";

/// The binary to invoke: `kubectl.exe` on Windows; elsewhere the first of the
/// two explicit locations that exists, and the bare name where neither does.
pub open spec fn kubectl_binary_for(windows: bool, in_usr_bin: bool, in_usr_local_bin: bool) -> Seq<
    char,
> {
    if windows {
        "kubectl.exe"@
    } else if in_usr_bin {
        "/usr/bin/kubectl"@
    } else if in_usr_local_bin {
        "/usr/local/bin/kubectl"@
    } else {
        "kubectl"@
    }
}

/// The binary to invoke for the proxy. `in_usr_bin` and `in_usr_local_bin`
/// say whether [`KUBECTL_USR_BIN`] and [`KUBECTL_USR_LOCAL_BIN`] exist.
pub fn kubectl_binary(windows: bool, in_usr_bin: bool, in_usr_local_bin: bool) -> (binary: String)
    ensures
        binary@ == kubectl_binary_for(windows, in_usr_bin, in_usr_local_bin),
{
    if windows {
        String::from_str("kubectl.exe")
    } else if in_usr_bin {
        String::from_str("/usr/bin/kubectl")
    } else if in_usr_local_bin {
        String::from_str("/usr/local/bin/kubectl")
    } else {
        String::from_str("kubectl")
    }
}

/// The path under `/mnt` that stands for a Windows profile directory such as
/// `C:\Users\name`: the drive in lower case, then the rest with forward
/// slashes. There is none where the text, once trimmed, does not begin with
/// a drive character and a colon.
pub open spec fn wsl_home(profile: Seq<char>) -> Option<Seq<char>> {
    let p = trim(profile);
    if p.len() >= 2 && p[1] == ':' {
        Some(
            "/mnt/"@.push(ascii_lower(p[0])) + replace_char(
                p.subrange(2, p.len() as int),
                '\\',
                '/',
            ),
        )
    } else {
        None
    }
}

/// Converts the Windows profile directory that a Linux guest inherits into
/// the path under which the guest sees it.
pub fn windows_home_in_wsl(profile: &str) -> (home: Option<String>)
    ensures
        opt_view(home) == wsl_home(profile@),
{
    let v = chars_of(profile);
    let lo = skip_spaces(&v);
    let hi = skip_spaces_back(&v, lo);
    proof {
        assert(trim(profile@) == v@.subrange(lo as int, hi as int));
    }
    if hi - lo < 2 {
        return None;
    }
    let ghost p = v@.subrange(lo as int, hi as int);
    assert(p[0] == v@[lo as int] && p[1] == v@[lo as int + 1]);
    if v[lo + 1] != ':' {
        return None;
    }
    let mut out = String::from_str("/mnt/");
    push_char(&mut out, to_ascii_lower(v[lo]));
    push_replaced(&mut out, &v, lo + 2, hi, '\\', '/');
    proof {
        assert(v@.subrange(lo as int + 2, hi as int) =~= p.subrange(2, p.len() as int));
    }
    Some(out)
}

/// The index of the first file from `from` on that names the context.
pub open spec fn first_naming(files: Seq<KubeconfigFileView>, context: Seq<char>, from: int)
    -> Option<int>
    decreases files.len() - from,
{
    if from < 0 || from >= files.len() {
        None
    } else if names_context(files[from], context) {
        Some(from)
    } else {
        first_naming(files, context, from + 1)
    }
}

/// The path of the first file that names the context.
pub open spec fn kubeconfig_for_context(files: Seq<KubeconfigFileView>, context: Seq<char>)
    -> Option<Seq<char>> {
    match first_naming(files, context, 0) {
        Some(i) => Some(files[i].path),
        None => None,
    }
}

/// `first_naming` finds the least index at or after `from` whose file names
/// the context, and none only where no such file exists.
pub proof fn lemma_first_naming(files: Seq<KubeconfigFileView>, context: Seq<char>, from: int)
    requires
        0 <= from <= files.len(),
    ensures
        match first_naming(files, context, from) {
            Some(i) => from <= i < files.len() && names_context(files[i], context) && forall|
                j: int,
            |
                from <= j < i ==> !names_context(#[trigger] files[j], context),
            None => forall|j: int|
                from <= j < files.len() ==> !names_context(#[trigger] files[j], context),
        },
    decreases files.len() - from,
{
    if from < files.len() && !names_context(files[from], context) {
        lemma_first_naming(files, context, from + 1);
    }
}

/// Searches the parsed kubeconfig files, in the order given, for the first
/// that names the context, and gives its path.
pub fn find_kubeconfig_for_context(context_name: &str, files: &Vec<KubeconfigFile>) -> (path:
    Option<String>)
    ensures
        opt_view(path) == kubeconfig_for_context(file_views(files@), context_name@),
        path is None <==> forall|j: int|
            0 <= j < files@.len() ==> !names_context(
                #[trigger] file_views(files@)[j],
                context_name@,
            ),
        path is Some ==> exists|i: int|
            0 <= i < files@.len() && path->0@ == files@[i].path@ && names_context(
                #[trigger] file_views(files@)[i],
                context_name@,
            ) && forall|j: int|
                0 <= j < i ==> !names_context(#[trigger] file_views(files@)[j], context_name@),
{
    let path = search_files(context_name, files);
    proof {
        lemma_first_naming(file_views(files@), context_name@, 0);
        match first_naming(file_views(files@), context_name@, 0) {
            Some(i) => {
                assert(file_views(files@)[i].path == files@[i].path@);
            },
            None => {},
        }
    }
    path
}

/// The search itself, file by file.
fn search_files(context_name: &str, files: &Vec<KubeconfigFile>) -> (path: Option<String>)
    ensures
        opt_view(path) == kubeconfig_for_context(file_views(files@), context_name@),
{
    let mut i: usize = 0;
    while i < files.len()
        invariant
            i <= files.len(),
            first_naming(file_views(files@), context_name@, 0) == first_naming(
                file_views(files@),
                context_name@,
                i as int,
            ),
        decreases files.len() - i,
    {
        assert(file_views(files@)[i as int] == files@[i as int]@);
        if has_context(&files[i], context_name) {
            return Some(files[i].path.clone());
        }
        i += 1;
    }
    None
}

/// The kubeconfig file for a proxy start: the one that the caller names,
/// unless it names none or an empty one; then the first parsed file that
/// names the context.
pub open spec fn chosen_kubeconfig(
    kubeconfig_file: Option<Seq<char>>,
    context: Seq<char>,
    files: Seq<KubeconfigFileView>,
) -> Option<Seq<char>> {
    if kubeconfig_file is Some && kubeconfig_file->0.len() > 0 {
        kubeconfig_file
    } else {
        kubeconfig_for_context(files, context)
    }
}

/// Whether a proxy start has to fall back on a search through the kubeconfig
/// files: a context is given, and no file, or an empty one, is named.
pub open spec fn search_needed(context: Option<Seq<char>>, kubeconfig_file: Option<Seq<char>>)
    -> bool {
    context is Some && !(kubeconfig_file is Some && kubeconfig_file->0.len() > 0)
}

/// Decides whether the kubeconfig files have to be read for a proxy start.
pub fn needs_search(context: &Option<String>, kubeconfig_file: &Option<String>) -> (needed: bool)
    ensures
        needed == search_needed(opt_view(*context), opt_view(*kubeconfig_file)),
{
    match context {
        None => false,
        Some(_) => match kubeconfig_file {
            Some(file) => file.as_str().unicode_len() == 0,
            None => true,
        },
    }
}

/// The arguments of the proxy command. A context adds `--context`; the
/// kubeconfig file is named only together with a context, and always as one
/// single file.
pub open spec fn proxy_args(context: Option<Seq<char>>, kubeconfig: Option<Seq<char>>) -> Seq<
    Seq<char>,
> {
    let base = seq!["proxy"@, "--port=8001"@, "--disable-filter=true"@];
    match context {
        None => base,
        Some(ctx) => {
            let with_context = base.push("--context="@ + ctx);
            match kubeconfig {
                Some(path) => with_context.push("--kubeconfig="@ + path),
                None => with_context,
            }
        },
    }
}

/// The arguments of a proxy start.
pub open spec fn start_args(
    context: Option<Seq<char>>,
    kubeconfig_file: Option<Seq<char>>,
    files: Seq<KubeconfigFileView>,
) -> Seq<Seq<char>> {
    match context {
        None => proxy_args(None, None),
        Some(ctx) => proxy_args(context, chosen_kubeconfig(kubeconfig_file, ctx, files)),
    }
}

/// Builds the arguments of a proxy start.
pub fn build_proxy_args(
    context: &Option<String>,
    kubeconfig_file: &Option<String>,
    files: &Vec<KubeconfigFile>,
) -> (args: Vec<String>)
    ensures
        views(args@) == start_args(
            opt_view(*context),
            opt_view(*kubeconfig_file),
            file_views(files@),
        ),
{
    let mut args: Vec<String> = Vec::new();
    args.push(String::from_str("proxy"));
    args.push(String::from_str("--port=8001"));
    args.push(String::from_str("--disable-filter=true"));
    match context {
        None => {
            assert(views(args@) =~= proxy_args(None, None));
        },
        Some(ctx) => {
            args.push(join_two("--context=", ctx.as_str()));
            let given: Option<String> = match kubeconfig_file {
                Some(file) => if file.as_str().unicode_len() > 0 {
                    Some(file.clone())
                } else {
                    None
                },
                None => None,
            };
            let resolved: Option<String> = match given {
                Some(file) => Some(file),
                None => find_kubeconfig_for_context(ctx.as_str(), files),
            };
            assert(opt_view(resolved) == chosen_kubeconfig(
                opt_view(*kubeconfig_file),
                ctx@,
                file_views(files@),
            ));
            match resolved {
                Some(path) => {
                    args.push(join_two("--kubeconfig=", path.as_str()));
                    assert(views(args@) =~= proxy_args(Some(ctx@), Some(path@)));
                },
                None => {
                    assert(views(args@) =~= proxy_args(Some(ctx@), None));
                },
            }
        },
    }
    args
}

/// The answer to a request to start the proxy: first kill, then spawn.
pub struct ProxyOrder<P> {
    /// The proxy process that was registered. Kill it before anything is
    /// spawned; a failure to kill is not fatal.
    pub kill: Option<P>,
    /// The binary to run.
    pub program: String,
    /// Its arguments.
    pub args: Vec<String>,
}

/// Begins a start of the proxy: evicts the registered process and says what
/// to spawn. `files` are the parsed kubeconfig files for the fallback search
/// (see [`needs_search`]). The caller kills the evicted process, spawns the
/// command, and hands the new process to [`install_proxy`]; where the spawn
/// fails it reports [`spawn_failure`] and registers nothing.
pub fn start_kubectl_proxy<P>(
    context: Option<String>,
    kubeconfig_file: Option<String>,
    files: &Vec<KubeconfigFile>,
    binary: String,
    state: &mut KubectlProxy<P>,
) -> (order: ProxyOrder<P>)
    ensures
        final(state).current() is None,
        order.kill == old(state).current(),
        order.program == binary,
        views(order.args@) == start_args(
            opt_view(context),
            opt_view(kubeconfig_file),
            file_views(files@),
        ),
{
    let kill = state.0.take();
    let args = build_proxy_args(&context, &kubeconfig_file, files);
    ProxyOrder { kill, program: binary, args }
}

/// Registers the proxy process that was spawned. Should another have been
/// registered in the meantime, it is handed out to be killed.
pub fn install_proxy<P>(state: &mut KubectlProxy<P>, process: P) -> (displaced: Option<P>)
    ensures
        final(state).current() == Some(process),
        displaced == old(state).current(),
{
    state.0.replace(process)
}

/// Stops the proxy: hands out the registered process, which the caller
/// kills, and leaves the slot empty. Without a process nothing happens.
pub fn stop_kubectl_proxy<P>(state: &mut KubectlProxy<P>) -> (kill: Option<P>)
    ensures
        final(state).current() is None,
        kill == old(state).current(),
{
    state.0.take()
}

/// The report of a proxy command that could not be spawned.
pub open spec fn spawn_failure_text(binary: Seq<char>, detail: Seq<char>) -> Seq<char> {
    "failed to spawn kubectl proxy ("@ + binary + "): "@ + detail
}

/// The report of a proxy command that could not be spawned.
pub fn spawn_failure(binary: &str, detail: &str) -> (message: String)
    ensures
        message@ == spawn_failure_text(binary@, detail@),
{
    join_three("failed to spawn kubectl proxy (", binary, "): ").concat(detail)
}

/// What one readiness probe returned.
#[derive(Clone, Copy, Debug, PartialEq, Eq, Structural)]
pub enum Probe {
    /// A response arrived, with this HTTP status.
    Status(u16),
    /// No response: the connection failed or the probe timed out.
    Unreachable,
}

/// Whether an HTTP status reports success (the 2xx class).
pub open spec fn status_is_success(status: u16) -> bool {
    200 <= status < 300
}

/// The readiness policy: a probe counts as ready when a response arrived
/// that reports success, or 403. A proxy that answers 403 is listening, and
/// that is all the supervisor has to confirm.
pub open spec fn counts_as_ready(probe: Probe) -> bool {
    match probe {
        Probe::Status(status) => status_is_success(status) || status == 403,
        Probe::Unreachable => false,
    }
}

/// Applies the readiness policy to one probe.
pub fn probe_ready(probe: Probe) -> (ready: bool)
    ensures
        ready == counts_as_ready(probe),
{
    match probe {
        Probe::Status(status) => (200 <= status && status < 300) || status == 403,
        Probe::Unreachable => false,
    }
}

/// What the supervisor has to do next.
#[derive(Clone, Copy, Debug, PartialEq, Eq, Structural)]
pub enum Poll {
    /// Wait `wait_ms`, then probe with a timeout of `timeout_ms`, and hand
    /// the outcome to [`HealthCheck::on_probe`]. `attempt` counts from 1.
    Probe { attempt: u32, wait_ms: u64, timeout_ms: u64 },
    /// The proxy is ready; it took this many probes.
    Ready { attempts: u32 },
    /// The budget is spent and no probe found the proxy ready. The process
    /// is left running: it may still come up.
    Exhausted,
}

/// The progress of one readiness check.
pub struct HealthCheck {
    attempts: u32,
    ready: bool,
}

/// The progress of a readiness check as the contracts see it.
pub struct Progress {
    /// The number of probes taken.
    pub attempts: nat,
    /// Whether the last of them found the proxy ready.
    pub ready: bool,
}

/// The progress before the first probe.
pub open spec fn progress_at_start() -> Progress {
    Progress { attempts: 0, ready: false }
}

/// Whether the check is over: ready, or out of budget.
pub open spec fn decided(progress: Progress) -> bool {
    progress.ready || progress.attempts >= MAX_ATTEMPTS
}

/// The progress after one more probe. A check that is over takes no more.
pub open spec fn progress_after(progress: Progress, probe: Probe) -> Progress {
    if decided(progress) {
        progress
    } else {
        Progress { attempts: progress.attempts + 1, ready: counts_as_ready(probe) }
    }
}

/// The progress after the probes `probes`, in order.
pub open spec fn progress_after_all(probes: Seq<Probe>) -> Progress
    decreases probes.len(),
{
    if probes.len() == 0 {
        progress_at_start()
    } else {
        progress_after(progress_after_all(probes.drop_last()), probes.last())
    }
}

/// What is to be done at a given progress.
pub open spec fn next_poll(progress: Progress) -> Poll {
    if progress.ready {
        Poll::Ready { attempts: progress.attempts as u32 }
    } else if progress.attempts < MAX_ATTEMPTS {
        Poll::Probe {
            attempt: (progress.attempts + 1) as u32,
            wait_ms: POLL_INTERVAL_MS,
            timeout_ms: PROBE_TIMEOUT_MS,
        }
    } else {
        Poll::Exhausted
    }
}

impl HealthCheck {
    /// The progress so far.
    pub closed spec fn progress(&self) -> Progress {
        Progress { attempts: self.attempts as nat, ready: self.ready }
    }

    #[verifier::type_invariant]
    spec fn within_budget(&self) -> bool {
        self.attempts <= MAX_ATTEMPTS
    }

    /// A check that has taken no probe yet.
    pub fn new() -> (check: HealthCheck)
        ensures
            check.progress() == progress_at_start(),
    {
        HealthCheck { attempts: 0, ready: false }
    }

    /// What to do now.
    pub fn poll(&self) -> (poll: Poll)
        ensures
            poll == next_poll(self.progress()),
    {
        proof {
            use_type_invariant(self);
        }
        if self.ready {
            Poll::Ready { attempts: self.attempts }
        } else if self.attempts < MAX_ATTEMPTS {
            Poll::Probe {
                attempt: self.attempts + 1,
                wait_ms: POLL_INTERVAL_MS,
                timeout_ms: PROBE_TIMEOUT_MS,
            }
        } else {
            Poll::Exhausted
        }
    }

    /// Takes the outcome of one probe and says what to do next.
    pub fn on_probe(&mut self, probe: Probe) -> (poll: Poll)
        ensures
            final(self).progress() == progress_after(old(self).progress(), probe),
            poll == next_poll(final(self).progress()),
    {
        proof {
            use_type_invariant(&*self);
        }
        if !self.ready && self.attempts < MAX_ATTEMPTS {
            self.attempts = self.attempts + 1;
            self.ready = probe_ready(probe);
        }
        self.poll()
    }
}

/// The declared readiness of the proxy.
#[derive(Clone, Copy, Debug, PartialEq, Eq, Structural)]
pub enum Readiness {
    /// The readiness check is still running.
    Starting,
    /// A probe found the proxy ready.
    Ready,
    /// The budget is spent and no probe found the proxy ready.
    Failed,
}

/// The readiness that a progress stands for.
pub open spec fn readiness_of(progress: Progress) -> Readiness {
    if progress.ready {
        Readiness::Ready
    } else if progress.attempts >= MAX_ATTEMPTS {
        Readiness::Failed
    } else {
        Readiness::Starting
    }
}

impl HealthCheck {
    /// The declared readiness of the proxy.
    pub fn readiness(&self) -> (readiness: Readiness)
        ensures
            readiness == readiness_of(self.progress()),
    {
        match self.poll() {
            Poll::Ready { .. } => Readiness::Ready,
            Poll::Exhausted => Readiness::Failed,
            Poll::Probe { .. } => Readiness::Starting,
        }
    }
}

/// The report of a probe client that could not be built.
pub fn client_failure(detail: &str) -> (message: String)
    ensures
        message@ == "failed to build HTTP client: "@ + detail@,
{
    join_two("failed to build HTTP client: ", detail)
}

/// The number of characters that the diagnostic buffer holds at most.
pub const DIAGNOSTIC_LIMIT: usize = 65_536;

/// The diagnostic buffer: the lines that the proxy wrote to its error
/// output, each followed by a line feed. It is used for the failure report
/// and for nothing else. It is bounded: the first line that does not fit
/// closes it, and it takes nothing more.
pub struct DiagnosticLog {
    text: String,
    len: usize,
    full: bool,
}

/// The text of the buffer after one more line.
pub open spec fn text_after_line(text: Seq<char>, full: bool, line: Seq<char>) -> Seq<char> {
    if full || text.len() + line.len() + 1 > DIAGNOSTIC_LIMIT {
        text
    } else {
        (text + line).push('\n')
    }
}

/// Whether the buffer is closed after one more line.
pub open spec fn full_after_line(text: Seq<char>, full: bool, line: Seq<char>) -> bool {
    full || text.len() + line.len() + 1 > DIAGNOSTIC_LIMIT
}

impl DiagnosticLog {
    /// The text that was captured.
    pub closed spec fn text(&self) -> Seq<char> {
        self.text@
    }

    /// Whether the buffer is closed.
    pub closed spec fn full(&self) -> bool {
        self.full
    }

    #[verifier::type_invariant]
    spec fn bounded(&self) -> bool {
        self.len == self.text@.len() && self.len <= DIAGNOSTIC_LIMIT
    }

    /// An empty buffer.
    pub fn new() -> (log: DiagnosticLog)
        ensures
            log.text() == Seq::<char>::empty(),
            !log.full(),
    {
        DiagnosticLog { text: String::new(), len: 0, full: false }
    }

    /// Adds one line of the proxy's error output.
    pub fn push_line(&mut self, line: &str)
        ensures
            final(self).text() == text_after_line(old(self).text(), old(self).full(), line@),
            final(self).full() == full_after_line(old(self).text(), old(self).full(), line@),
            final(self).text().len() <= DIAGNOSTIC_LIMIT,
    {
        proof {
            use_type_invariant(&*self);
        }
        if self.full {
            return;
        }
        let n = line.unicode_len();
        if n >= DIAGNOSTIC_LIMIT || self.len + n + 1 > DIAGNOSTIC_LIMIT {
            self.full = true;
            return;
        }
        let mut text = self.text.clone();
        text.append(line);
        push_char(&mut text, '\n');
        *self = DiagnosticLog { text, len: self.len + n + 1, full: false };
    }

    /// A copy of the text that was captured.
    pub fn captured(&self) -> (text: String)
        ensures
            text@ == self.text(),
    {
        self.text.clone()
    }
}

/// What is shown of the proxy's output in a failure report: the captured
/// text, or a note that there is none where the text is blank.
pub open spec fn failure_detail(captured: Seq<char>) -> Seq<char> {
    if is_blank(captured) {
        "no output captured from kubectl proxy"@
    } else {
        captured
    }
}

/// The report of a proxy that did not become ready within the budget.
pub open spec fn failure_text(captured: Seq<char>) -> Seq<char> {
    "kubectl proxy did not become ready after 10 attempts (5 s).\nProxy output:\n"@
        + failure_detail(captured)
}

/// The report of a proxy that did not become ready within the budget, with
/// the diagnostic text that was captured from it.
pub fn failure_report(captured: &str) -> (message: String)
    ensures
        message@ == failure_text(captured@),
{
    let detail = if blank(captured) {
        "no output captured from kubectl proxy"
    } else {
        captured
    };
    join_two(
        "kubectl proxy did not become ready after 10 attempts (5 s).\nProxy output:\n",
        detail,
    )
}

/// The result of a proxy start, once the readiness check is over: success
/// when a probe found the proxy ready, else the failure report. While the
/// check is still running there is no result.
pub open spec fn start_result(progress: Progress, captured: Seq<char>) -> Option<
    Result<(), Seq<char>>,
> {
    if progress.ready {
        Some(Ok(()))
    } else if progress.attempts >= MAX_ATTEMPTS {
        Some(Err(failure_text(captured)))
    } else {
        None
    }
}

/// The result of a proxy start as the contracts see it.
pub open spec fn result_view(result: Option<Result<(), String>>) -> Option<Result<(), Seq<char>>> {
    match result {
        Some(Ok(_)) => Some(Ok(())),
        Some(Err(message)) => Some(Err(message@)),
        None => None,
    }
}

/// The result of a proxy start, given the state of its readiness check and
/// the diagnostic text captured so far.
pub fn conclude_start(check: &HealthCheck, captured: &str) -> (result: Option<Result<(), String>>)
    ensures
        result_view(result) == start_result(check.progress(), captured@),
{
    match check.poll() {
        Poll::Ready { .. } => Some(Ok(())),
        Poll::Exhausted => Some(Err(failure_report(captured))),
        Poll::Probe { .. } => None,
    }
}

/// The whole check waits five seconds at most, and no probe can outlast the
/// pause that precedes the next one.
pub proof fn lemma_polling_budget()
    ensures
        MAX_ATTEMPTS * POLL_INTERVAL_MS <= 5000,
        PROBE_TIMEOUT_MS <= 400,
        PROBE_TIMEOUT_MS < POLL_INTERVAL_MS,
{
}

/// A check never takes more probes than the budget allows.
pub proof fn lemma_budget_is_kept(probes: Seq<Probe>)
    ensures
        progress_after_all(probes).attempts <= MAX_ATTEMPTS,
        progress_after_all(probes).attempts <= probes.len(),
    decreases probes.len(),
{
    if probes.len() > 0 {
        lemma_budget_is_kept(probes.drop_last());
    }
}

/// While no probe has found the proxy ready and the budget is not spent,
/// every probe is taken.
pub proof fn lemma_not_ready_yet(probes: Seq<Probe>)
    requires
        probes.len() <= MAX_ATTEMPTS,
        forall|i: int| 0 <= i < probes.len() ==> !counts_as_ready(#[trigger] probes[i]),
    ensures
        progress_after_all(probes) == (Progress { attempts: probes.len(), ready: false }),
    decreases probes.len(),
{
    if probes.len() > 0 {
        let init = probes.drop_last();
        assert forall|i: int| 0 <= i < init.len() implies !counts_as_ready(#[trigger] init[i]) by {
            assert(init[i] == probes[i]);
        }
        lemma_not_ready_yet(init);
        assert(!counts_as_ready(probes[probes.len() - 1]));
    }
}

/// A check that is over stays as it is, whatever is probed afterwards.
pub proof fn lemma_decided_is_final(head: Seq<Probe>, tail: Seq<Probe>)
    requires
        decided(progress_after_all(head)),
    ensures
        progress_after_all(head + tail) == progress_after_all(head),
    decreases tail.len(),
{
    if tail.len() == 0 {
        assert(head + tail =~= head);
    } else {
        assert((head + tail).drop_last() =~= head + tail.drop_last());
        assert((head + tail).last() == tail.last());
        lemma_decided_is_final(head, tail.drop_last());
    }
}

/// The proxy start succeeds exactly when one of the first ten probes finds
/// the proxy ready: with a prober whose probe number `k + 1` is the first
/// that is ready, and `k + 1` is within the budget, the check ends ready
/// after `k + 1` probes and the start returns success, whatever text was
/// captured.
pub proof fn lemma_ready_within_budget(probes: Seq<Probe>, k: int, captured: Seq<char>)
    requires
        0 <= k < probes.len(),
        k < MAX_ATTEMPTS,
        counts_as_ready(probes[k]),
        forall|i: int| 0 <= i < k ==> !counts_as_ready(#[trigger] probes[i]),
    ensures
        progress_after_all(probes) == (Progress { attempts: (k + 1) as nat, ready: true }),
        next_poll(progress_after_all(probes)) == (Poll::Ready { attempts: (k + 1) as u32 }),
        start_result(progress_after_all(probes), captured) == Some(Ok::<(), Seq<char>>(())),
{
    let head = probes.take(k + 1);
    let tail = probes.skip(k + 1);
    assert(head + tail =~= probes);
    let before = head.drop_last();
    assert forall|i: int| 0 <= i < before.len() implies !counts_as_ready(#[trigger] before[i]) by {
        assert(before[i] == probes[i]);
    }
    lemma_not_ready_yet(before);
    assert(head.last() == probes[k]);
    assert(progress_after_all(head) == (Progress { attempts: (k + 1) as nat, ready: true }));
    lemma_decided_is_final(head, tail);
}

/// With a prober that is never ready within ten probes, the check ends
/// exhausted after exactly ten probes and the start returns the failure
/// report, which carries the captured diagnostic text.
pub proof fn lemma_never_ready(probes: Seq<Probe>, captured: Seq<char>)
    requires
        probes.len() >= MAX_ATTEMPTS,
        forall|i: int| 0 <= i < MAX_ATTEMPTS ==> !counts_as_ready(#[trigger] probes[i]),
    ensures
        progress_after_all(probes) == (Progress { attempts: MAX_ATTEMPTS as nat, ready: false }),
        next_poll(progress_after_all(probes)) == Poll::Exhausted,
        start_result(progress_after_all(probes), captured) == Some(
            Err::<(), Seq<char>>(failure_text(captured)),
        ),
        !is_blank(captured) ==> failure_text(captured)
            == "kubectl proxy did not become ready after 10 attempts (5 s).\nProxy output:\n"@
            + captured,
{
    let head = probes.take(MAX_ATTEMPTS as int);
    let tail = probes.skip(MAX_ATTEMPTS as int);
    assert(head + tail =~= probes);
    assert forall|i: int| 0 <= i < head.len() implies !counts_as_ready(#[trigger] head[i]) by {
        assert(head[i] == probes[i]);
    }
    lemma_not_ready_yet(head);
    lemma_decided_is_final(head, tail);
}

} // verus!
