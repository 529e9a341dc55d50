//! The interactive exec session: a remote shell behind a pseudo-terminal.
//!
//! The functions here decide; their caller performs. Opening the terminal,
//! spawning, writing, resizing and killing are done by the caller on the
//! handles that the session carries, in the order that the answers give.

use vstd::prelude::*;
use vstd::string::*;
use crate::registry::{live_count, Registry};
use crate::relay::Phase;
use crate::text::{join_two, views};

verus! {

/// The event that carries one chunk of the session's output.
pub const OUTPUT_EVENT: &'static str = "pty-output";

/// The event that says that the session's output has ended.
pub const DONE_EVENT: &'static str = "pty-done";

/// The size of the buffer that the relay reads into.
pub const READ_BUFFER_SIZE: usize = 4096;

/// Terminal width used when the caller names none.
pub const DEFAULT_COLS: u16 = 80;

/// Terminal height used when the caller names none.
pub const DEFAULT_ROWS: u16 = 24;

/// The geometry of a pseudo-terminal, in character cells and in pixels.
#[derive(Clone, Copy, Debug, PartialEq, Eq, Structural)]
pub struct PtySize {
    pub rows: u16,
    pub cols: u16,
    pub pixel_width: u16,
    pub pixel_height: u16,
}

/// All that is needed to drive a live session: the writable input handle,
/// the control handle of the terminal and the process handle, together with
/// the geometry that the terminal was last set to. The three handles belong
/// to one session and leave the registry together.
pub struct PtySessionInner<W, M, C> {
    /// Write end: receives the keystrokes.
    pub writer: W,
    /// Control handle of the terminal: used to resize.
    pub master: M,
    /// Process handle: used to kill.
    pub child: C,
    /// The recorded geometry.
    pub size: PtySize,
}

/// The registry of the exec session: it holds the current session, if any,
/// and knows whether a start is under way.
pub struct PtySession<W, M, C> {
    slot: Registry<PtySessionInner<W, M, C>>,
    starting: bool,
}

/// One variable of a command's environment.
#[derive(Clone, Debug, PartialEq, Eq)]
pub struct EnvVar {
    pub name: String,
    pub value: String,
}

/// What to spawn for a new session, and the terminal to attach it to.
#[derive(Clone, Debug, PartialEq, Eq)]
pub struct SpawnPlan {
    /// The program to run.
    pub program: String,
    /// Its arguments.
    pub args: Vec<String>,
    /// Variables to add to the environment that the command inherits.
    pub env: Vec<EnvVar>,
    /// The geometry to open the terminal with.
    pub size: PtySize,
}

/// The answer to a start request: first kill, then spawn.
pub struct StartOrder<W, M, C> {
    /// The session that was registered. It is no longer live: kill its
    /// process (a failure to kill is not fatal) and release its handles,
    /// before anything is spawned.
    pub kill: Option<PtySessionInner<W, M, C>>,
    /// What to spawn next.
    pub plan: SpawnPlan,
}

/// What the caller has to do for a piece of input.
#[derive(Clone, Debug, PartialEq, Eq)]
pub enum InputAction {
    /// Write these bytes to the current session's writer and flush it.
    WriteAndFlush(Vec<u8>),
    /// No session is registered: do nothing.
    Ignore,
}

/// What the caller has to do for a resize request.
#[derive(Clone, Debug, PartialEq, Eq)]
pub enum ResizeAction {
    /// Set the current session's terminal to this geometry.
    Apply(PtySize),
    /// No session is registered: do nothing.
    Ignore,
}

/// The step of a session operation that failed.
#[derive(Clone, Copy, Debug, PartialEq, Eq, Structural)]
pub enum PtyFault {
    /// The pseudo-terminal could not be allocated.
    OpenPty,
    /// The remote-shell command could not be spawned.
    Spawn,
    /// The terminal's reader could not be obtained.
    CloneReader,
    /// The terminal's writer could not be obtained.
    TakeWriter,
    /// Writing the input failed.
    Write,
    /// Flushing the input failed.
    Flush,
    /// Setting the geometry failed.
    Resize,
}

/// The geometry for a start request: what the caller asks for, and 80 by 24
/// where it asks for nothing; no pixel size.
pub open spec fn requested_size(cols: Option<u16>, rows: Option<u16>) -> PtySize {
    PtySize {
        rows: if rows is Some { rows->0 } else { DEFAULT_ROWS },
        cols: if cols is Some { cols->0 } else { DEFAULT_COLS },
        pixel_width: 0,
        pixel_height: 0,
    }
}

/// The geometry for a resize request: no pixel size.
pub open spec fn cell_size(cols: u16, rows: u16) -> PtySize {
    PtySize { rows, cols, pixel_width: 0, pixel_height: 0 }
}

/// The program to run: the located `kubectl`, or the bare name where none
/// was located.
pub open spec fn program_or_default(located: Option<Seq<char>>) -> Seq<char> {
    match located {
        Some(path) => path,
        None => "kubectl"@,
    }
}

/// The arguments of the remote-shell command. The target's file path and
/// context name are passed on as they are.
pub open spec fn exec_args(
    name: Seq<char>,
    namespace: Seq<char>,
    source_file: Seq<char>,
    context_name: Seq<char>,
) -> Seq<Seq<char>> {
    seq![
        "exec"@,
        "-it"@,
        name,
        "-n"@,
        namespace,
        "--kubeconfig="@ + source_file,
        "--context="@ + context_name,
        "--"@,
        "/bin/sh"@,
    ]
}

/// What introduces the message for a failed step.
pub open spec fn fault_prefix(fault: PtyFault) -> Seq<char> {
    match fault {
        PtyFault::OpenPty => "failed to open PTY: "@,
        PtyFault::Spawn => "failed to spawn kubectl exec: "@,
        PtyFault::CloneReader => "failed to clone PTY reader: "@,
        PtyFault::TakeWriter => "failed to take PTY writer: "@,
        PtyFault::Write => "PTY write error: "@,
        PtyFault::Flush => "PTY flush error: "@,
        PtyFault::Resize => "PTY resize error: "@,
    }
}

/// A session with its recorded geometry changed to `size`.
pub open spec fn resized<W, M, C>(session: PtySessionInner<W, M, C>, size: PtySize)
    -> PtySessionInner<W, M, C> {
    PtySessionInner { writer: session.writer, master: session.master, child: session.child, size }
}

/// One operation on the session registry, as the laws below speak of it.
pub enum Command<W, M, C> {
    /// A start request: the registered session is evicted.
    Start,
    /// The end of a start: the spawned session is registered.
    Install(PtySessionInner<W, M, C>),
    /// Input for the current session.
    Input(Seq<char>),
    /// A new geometry for the current session.
    Resize { cols: u16, rows: u16 },
    /// A stop request.
    Stop,
}

/// What an operation asks of the caller.
pub enum Effect<W, M, C> {
    /// Kill this session's process and release its handles.
    Kill(PtySessionInner<W, M, C>),
    /// Open a terminal and spawn the remote shell.
    Spawn,
    /// Relay the output of the session that was just registered.
    Relay,
    /// Write these bytes to the current session and flush.
    WriteAndFlush(Seq<u8>),
    /// Set the current session's terminal to this geometry.
    Resize(PtySize),
}

/// The `Kill` effect for an evicted session, or none.
pub open spec fn kill_of<W, M, C>(evicted: Option<PtySessionInner<W, M, C>>) -> Seq<
    Effect<W, M, C>,
> {
    match evicted {
        Some(session) => seq![Effect::Kill(session)],
        None => Seq::empty(),
    }
}

/// The registry after `cmd`.
pub open spec fn registry_after<W, M, C>(
    current: Option<PtySessionInner<W, M, C>>,
    cmd: Command<W, M, C>,
) -> Option<PtySessionInner<W, M, C>> {
    match cmd {
        Command::Start => None,
        Command::Install(session) => Some(session),
        Command::Input(_) => current,
        Command::Resize { cols, rows } => match current {
            Some(session) => Some(resized(session, cell_size(cols, rows))),
            None => None,
        },
        Command::Stop => None,
    }
}

/// What `cmd` asks of the caller, in the order in which it is to be done.
pub open spec fn effects_of<W, M, C>(
    current: Option<PtySessionInner<W, M, C>>,
    cmd: Command<W, M, C>,
) -> Seq<Effect<W, M, C>> {
    match cmd {
        Command::Start => kill_of(current).push(Effect::Spawn),
        Command::Install(_) => kill_of(current).push(Effect::Relay),
        Command::Input(data) => if current is Some {
            seq![Effect::WriteAndFlush(vstd::utf8::encode_utf8(data))]
        } else {
            Seq::empty()
        },
        Command::Resize { cols, rows } => if current is Some {
            seq![Effect::Resize(cell_size(cols, rows))]
        } else {
            Seq::empty()
        },
        Command::Stop => kill_of(current),
    }
}

/// The registry after the commands `cmds`, taken in order.
pub open spec fn registry_after_all<W, M, C>(
    current: Option<PtySessionInner<W, M, C>>,
    cmds: Seq<Command<W, M, C>>,
) -> Option<PtySessionInner<W, M, C>>
    decreases cmds.len(),
{
    if cmds.len() == 0 {
        current
    } else {
        registry_after(registry_after_all(current, cmds.drop_last()), cmds.last())
    }
}

/// All that the commands `cmds` ask of the caller, in order.
pub open spec fn effects_of_all<W, M, C>(
    current: Option<PtySessionInner<W, M, C>>,
    cmds: Seq<Command<W, M, C>>,
) -> Seq<Effect<W, M, C>>
    decreases cmds.len(),
{
    if cmds.len() == 0 {
        Seq::empty()
    } else {
        effects_of_all(current, cmds.drop_last()) + effects_of(
            registry_after_all(current, cmds.drop_last()),
            cmds.last(),
        )
    }
}

/// The state of the registry: `Running` with a session; without one,
/// `Starting` while a start is under way, and `Idle` else.
pub open spec fn phase_of<W, M, C>(current: Option<PtySessionInner<W, M, C>>, starting: bool)
    -> Phase {
    if current is Some {
        Phase::Running
    } else if starting {
        Phase::Starting
    } else {
        Phase::Idle
    }
}

impl<W, M, C> PtySession<W, M, C> {
    /// The session that is registered, if any.
    pub closed spec fn current(&self) -> Option<PtySessionInner<W, M, C>> {
        self.slot.current()
    }

    /// Whether a start has evicted the session and not yet registered a new
    /// one.
    pub closed spec fn starting(&self) -> bool {
        self.starting
    }

    /// The state of the registry.
    pub open spec fn session_phase(&self) -> Phase {
        phase_of(self.current(), self.starting())
    }

    /// A registry without a session.
    pub fn new() -> (state: Self)
        ensures
            state.current() is None,
            !state.starting(),
            state.session_phase() is Idle,
    {
        PtySession { slot: Registry::new(), starting: false }
    }

    /// The state of the registry.
    pub fn phase(&self) -> (phase: Phase)
        ensures
            phase == self.session_phase(),
    {
        if !self.slot.is_empty() {
            Phase::Running
        } else if self.starting {
            Phase::Starting
        } else {
            Phase::Idle
        }
    }

    /// The registered session, to read.
    pub fn session(&self) -> (session: Option<&PtySessionInner<W, M, C>>)
        ensures
            self.current() is None ==> session is None,
            self.current() is Some ==> session == Some(&self.current()->0),
    {
        self.slot.peek()
    }

    /// The registered session, to act on its handles under exclusive
    /// access. Whether a session is registered does not change.
    pub fn session_mut(&mut self) -> (session: Option<&mut PtySessionInner<W, M, C>>)
        ensures
            final(self).starting() == old(self).starting(),
            old(self).current() is None ==> session is None && final(self).current() is None,
            old(self).current() is Some ==> session is Some && *session->0 == old(
                self,
            ).current()->0 && final(self).current() == Some(*final(session->0)),
    {
        self.slot.peek_mut()
    }
}

impl<W, M, C> StartOrder<W, M, C> {
    /// The effects that this order stands for.
    pub open spec fn effects(&self) -> Seq<Effect<W, M, C>> {
        kill_of(self.kill).push(Effect::Spawn)
    }
}

impl InputAction {
    /// The effects that this action stands for.
    pub open spec fn effects<W, M, C>(&self) -> Seq<Effect<W, M, C>> {
        match self {
            InputAction::WriteAndFlush(bytes) => seq![Effect::WriteAndFlush(bytes@)],
            InputAction::Ignore => Seq::empty(),
        }
    }
}

impl ResizeAction {
    /// The effects that this action stands for.
    pub open spec fn effects<W, M, C>(&self) -> Seq<Effect<W, M, C>> {
        match self {
            ResizeAction::Apply(size) => seq![Effect::Resize(*size)],
            ResizeAction::Ignore => Seq::empty(),
        }
    }
}

/// The geometry for a start request.
pub fn pty_size(cols: Option<u16>, rows: Option<u16>) -> (size: PtySize)
    ensures
        size == requested_size(cols, rows),
{
    let rows: u16 = match rows {
        Some(r) => r,
        None => DEFAULT_ROWS,
    };
    let cols: u16 = match cols {
        Some(c) => c,
        None => DEFAULT_COLS,
    };
    PtySize { rows, cols, pixel_width: 0, pixel_height: 0 }
}

/// The program to run, given where `kubectl` was located, if it was.
pub fn kubectl_program(located: Option<String>) -> (program: String)
    ensures
        program@ == program_or_default(crate::text::opt_view(located)),
{
    match located {
        Some(path) => path,
        None => String::from_str("kubectl"),
    }
}

/// The arguments of the remote-shell command for one pod.
pub fn build_exec_args(name: &str, namespace: &str, source_file: &str, context_name: &str) -> (args:
    Vec<String>)
    ensures
        views(args@) == exec_args(name@, namespace@, source_file@, context_name@),
{
    let mut args: Vec<String> = Vec::new();
    args.push(String::from_str("exec"));
    args.push(String::from_str("-it"));
    args.push(String::from_str(name));
    args.push(String::from_str("-n"));
    args.push(String::from_str(namespace));
    args.push(join_two("--kubeconfig=", source_file));
    args.push(join_two("--context=", context_name));
    args.push(String::from_str("--"));
    args.push(String::from_str("/bin/sh"));
    assert(views(args@) =~= exec_args(name@, namespace@, source_file@, context_name@));
    args
}

/// The message that reports a failed step, with the detail that the
/// operating system gave.
pub fn fault_message(fault: PtyFault, detail: &str) -> (message: String)
    ensures
        message@ == fault_prefix(fault) + detail@,
{
    let prefix = match fault {
        PtyFault::OpenPty => "failed to open PTY: ",
        PtyFault::Spawn => "failed to spawn kubectl exec: ",
        PtyFault::CloneReader => "failed to clone PTY reader: ",
        PtyFault::TakeWriter => "failed to take PTY writer: ",
        PtyFault::Write => "PTY write error: ",
        PtyFault::Flush => "PTY flush error: ",
        PtyFault::Resize => "PTY resize error: ",
    };
    join_two(prefix, detail)
}

/// Begins a start: evicts the registered session and plans the spawn. The
/// caller kills the evicted session first, then opens a terminal of the
/// planned geometry and spawns the planned command; on success it hands the
/// new session to [`install_session`], on failure it calls
/// [`abandon_start`] and reports what that gives.
pub fn start_pty_exec<W, M, C>(
    name: &str,
    namespace: &str,
    source_file: &str,
    context_name: &str,
    cols: Option<u16>,
    rows: Option<u16>,
    located: Option<String>,
    state: &mut PtySession<W, M, C>,
) -> (order: StartOrder<W, M, C>)
    ensures
        final(state).current() == registry_after(old(state).current(), Command::Start),
        order.effects() == effects_of(old(state).current(), Command::Start),
        final(state).current() is None,
        final(state).session_phase() is Starting,
        order.kill == old(state).current(),
        order.plan.program@ == program_or_default(crate::text::opt_view(located)),
        views(order.plan.args@) == exec_args(name@, namespace@, source_file@, context_name@),
        order.plan.env@.len() == 0,
        order.plan.size == requested_size(cols, rows),
{
    let kill = state.slot.take();
    state.starting = true;
    let plan = SpawnPlan {
        program: kubectl_program(located),
        args: build_exec_args(name, namespace, source_file, context_name),
        env: Vec::new(),
        size: pty_size(cols, rows),
    };
    StartOrder { kill, plan }
}

/// Ends a start: registers the session that was spawned. Should another
/// session have been registered in the meantime, it is handed out: the
/// caller kills it, so that one session is live. The caller then starts the
/// relay of the new session's output.
pub fn install_session<W, M, C>(
    state: &mut PtySession<W, M, C>,
    session: PtySessionInner<W, M, C>,
) -> (displaced: Option<PtySessionInner<W, M, C>>)
    ensures
        final(state).current() == registry_after(old(state).current(), Command::Install(session)),
        kill_of(displaced).push(Effect::Relay) == effects_of(
            old(state).current(),
            Command::Install(session),
        ),
        final(state).current() == Some(session),
        final(state).session_phase() is Running,
        displaced == old(state).current(),
{
    state.starting = false;
    state.slot.replace(session)
}

/// Gives up a start whose terminal could not be opened or whose command
/// could not be spawned: nothing is registered, and the failure is reported
/// with the detail that the operating system gave. The failure is not
/// retried.
pub fn abandon_start<W, M, C>(state: &mut PtySession<W, M, C>, fault: PtyFault, detail: &str) -> (
    message: String)
    ensures
        final(state).current() == old(state).current(),
        !final(state).starting(),
        old(state).current() is None ==> final(state).session_phase() is Idle,
        message@ == fault_prefix(fault) + detail@,
{
    state.starting = false;
    fault_message(fault, detail)
}

/// Input for the current session: the bytes of `data`, to be written and
/// flushed. Without a session the input is dropped, which is no error.
pub fn send_exec_input<W, M, C>(data: &str, state: &PtySession<W, M, C>) -> (action: InputAction)
    ensures
        action.effects::<W, M, C>() == effects_of(state.current(), Command::Input(data@)),
        state.current() is None <==> action is Ignore,
        action matches InputAction::WriteAndFlush(bytes) ==> bytes@ == vstd::utf8::encode_utf8(data@),
{
    if state.slot.is_empty() {
        InputAction::Ignore
    } else {
        InputAction::WriteAndFlush(data.as_bytes_vec())
    }
}

/// A new geometry for the current session: it is recorded with the session
/// and handed back to be applied to the terminal. Without a session nothing
/// happens, which is no error. The session stays registered either way.
pub fn resize_pty<W, M, C>(cols: u16, rows: u16, state: &mut PtySession<W, M, C>) -> (action:
    ResizeAction)
    ensures
        final(state).current() == registry_after(
            old(state).current(),
            Command::Resize { cols, rows },
        ),
        action.effects::<W, M, C>() == effects_of(
            old(state).current(),
            Command::Resize { cols, rows },
        ),
        old(state).current() is None <==> action is Ignore,
        action matches ResizeAction::Apply(size) ==> size == cell_size(cols, rows),
        final(state).starting() == old(state).starting(),
        final(state).session_phase() == old(state).session_phase(),
{
    let size = PtySize { rows, cols, pixel_width: 0, pixel_height: 0 };
    match state.slot.peek_mut() {
        Some(session) => {
            session.size = size;
            ResizeAction::Apply(size)
        },
        None => ResizeAction::Ignore,
    }
}

/// Stops the session: hands out the registered session, which the caller
/// kills, and leaves the registry empty. Stopping without a session does
/// nothing; killing a process that has already exited is no error.
pub fn stop_pty_exec<W, M, C>(state: &mut PtySession<W, M, C>) -> (kill: Option<
    PtySessionInner<W, M, C>,
>)
    ensures
        final(state).current() == registry_after(old(state).current(), Command::<W, M, C>::Stop),
        kill_of(kill) == effects_of(old(state).current(), Command::<W, M, C>::Stop),
        final(state).current() is None,
        final(state).starting() == old(state).starting(),
        old(state).session_phase() is Running ==> final(state).session_phase() is Idle
            || final(state).session_phase() is Starting,
        kill == old(state).current(),
{
    state.slot.take()
}

/// A kill is only ever asked for the session that was registered, it is
/// asked before anything else, and the session leaves the registry with the
/// same command: no session is handed out to be killed twice.
pub proof fn lemma_kill_evicts<W, M, C>(
    current: Option<PtySessionInner<W, M, C>>,
    cmd: Command<W, M, C>,
    i: int,
)
    requires
        0 <= i < effects_of(current, cmd).len(),
        effects_of(current, cmd)[i] is Kill,
    ensures
        i == 0,
        current == Some(effects_of(current, cmd)[i]->Kill_0),
        cmd is Start || cmd is Stop || cmd is Install,
        !(cmd is Install) ==> registry_after(current, cmd) is None,
        cmd matches Command::Install(new) ==> registry_after(current, cmd) == Some(new),
{
}

/// Starting a session while another is registered leaves exactly one session
/// registered, the new one; the prior session is killed, and it is killed
/// before the new one is spawned.
pub proof fn lemma_start_replaces_running<W, M, C>(
    prior: PtySessionInner<W, M, C>,
    new: PtySessionInner<W, M, C>,
)
    ensures
        registry_after_all(Some(prior), seq![Command::Start, Command::Install(new)]) == Some(new),
        live_count(registry_after_all(Some(prior), seq![Command::Start, Command::Install(new)]))
            == 1,
        effects_of_all(Some(prior), seq![Command::Start, Command::Install(new)]) == seq![
            Effect::Kill(prior),
            Effect::Spawn,
            Effect::Relay,
        ],
{
    let cmds = seq![Command::Start, Command::Install(new)];
    let first = cmds.drop_last();
    assert(first =~= seq![Command::<W, M, C>::Start]);
    assert(first.drop_last() =~= Seq::<Command<W, M, C>>::empty());
    assert(registry_after_all(Some(prior), first.drop_last()) == Some(prior));
    assert(registry_after_all(Some(prior), first) is None);
    assert(effects_of_all(Some(prior), first.drop_last()) =~= Seq::<Effect<W, M, C>>::empty());
    assert(effects_of_all(Some(prior), first) =~= seq![Effect::Kill(prior), Effect::Spawn]);
    assert(effects_of_all(Some(prior), cmds) =~= seq![
        Effect::Kill(prior),
        Effect::Spawn,
        Effect::Relay,
    ]);
}

/// Input and resize requests that arrive while no session is registered do
/// nothing: nothing is asked of the caller and the registry stays empty.
/// (`send_exec_input` and `resize_pty` have no way to fail.)
pub proof fn lemma_gateway_without_session<W, M, C>(data: Seq<char>, cols: u16, rows: u16)
    ensures
        registry_after(None::<PtySessionInner<W, M, C>>, Command::Input(data)) is None,
        effects_of(None::<PtySessionInner<W, M, C>>, Command::Input(data)) == Seq::<
            Effect<W, M, C>,
        >::empty(),
        registry_after(None::<PtySessionInner<W, M, C>>, Command::Resize { cols, rows }) is None,
        effects_of(None::<PtySessionInner<W, M, C>>, Command::Resize { cols, rows }) == Seq::<
            Effect<W, M, C>,
        >::empty(),
{
}

/// The commands of a start, a stop and a second start.
pub open spec fn start_stop_start<W, M, C>(
    first: PtySessionInner<W, M, C>,
    second: PtySessionInner<W, M, C>,
) -> Seq<Command<W, M, C>> {
    seq![
        Command::Start,
        Command::Install(first),
        Command::Stop,
        Command::Start,
        Command::Install(second),
    ]
}

/// Start, stop, start on an empty registry leaves exactly one session
/// registered, the second; the first session is killed before the second is
/// spawned.
pub proof fn lemma_start_stop_start<W, M, C>(
    first: PtySessionInner<W, M, C>,
    second: PtySessionInner<W, M, C>,
)
    ensures
        registry_after_all(None, start_stop_start(first, second)) == Some(second),
        live_count(registry_after_all(None, start_stop_start(first, second))) == 1,
        effects_of_all(None, start_stop_start(first, second)) == seq![
            Effect::Spawn,
            Effect::Relay,
            Effect::Kill(first),
            Effect::Spawn,
            Effect::Relay,
        ],
{
    let c5 = start_stop_start(first, second);
    let c4 = c5.drop_last();
    let c3 = c4.drop_last();
    let c2 = c3.drop_last();
    let c1 = c2.drop_last();
    let c0 = c1.drop_last();
    let none = None::<PtySessionInner<W, M, C>>;
    assert(c0 =~= Seq::<Command<W, M, C>>::empty());
    assert(registry_after_all(none, c0) is None);
    assert(effects_of_all(none, c0) =~= Seq::<Effect<W, M, C>>::empty());
    assert(c1.last() == Command::<W, M, C>::Start);
    assert(registry_after_all(none, c1) is None);
    assert(effects_of_all(none, c1) =~= seq![Effect::<W, M, C>::Spawn]);
    assert(c2.last() == Command::Install(first));
    assert(registry_after_all(none, c2) == Some(first));
    assert(effects_of_all(none, c2) =~= seq![Effect::<W, M, C>::Spawn, Effect::Relay]);
    assert(c3.last() == Command::<W, M, C>::Stop);
    assert(registry_after_all(none, c3) is None);
    assert(effects_of_all(none, c3) =~= seq![
        Effect::<W, M, C>::Spawn,
        Effect::Relay,
        Effect::Kill(first),
    ]);
    assert(c4.last() == Command::<W, M, C>::Start);
    assert(registry_after_all(none, c4) is None);
    assert(effects_of_all(none, c4) =~= seq![
        Effect::<W, M, C>::Spawn,
        Effect::Relay,
        Effect::Kill(first),
        Effect::Spawn,
    ]);
    assert(c5.last() == Command::Install(second));
    assert(effects_of_all(none, c5) =~= seq![
        Effect::<W, M, C>::Spawn,
        Effect::Relay,
        Effect::Kill(first),
        Effect::Spawn,
        Effect::Relay,
    ]);
}

/// A resize changes the recorded geometry of the registered session and
/// nothing else: the session stays registered with its handles, and the
/// caller is asked to set the geometry, not to kill or to end anything.
pub proof fn lemma_resize_keeps_session<W, M, C>(
    session: PtySessionInner<W, M, C>,
    cols: u16,
    rows: u16,
)
    ensures
        registry_after(Some(session), Command::Resize { cols, rows }) == Some(
            resized(session, cell_size(cols, rows)),
        ),
        resized(session, cell_size(cols, rows)).size == cell_size(cols, rows),
        resized(session, cell_size(cols, rows)).writer == session.writer,
        resized(session, cell_size(cols, rows)).master == session.master,
        resized(session, cell_size(cols, rows)).child == session.child,
        effects_of(Some(session), Command::Resize { cols, rows }) == seq![
            Effect::<W, M, C>::Resize(cell_size(cols, rows)),
        ],
{
}

/// While the installation of `new` runs among any number of input requests,
/// in whatever order, the registry holds what it held before or the new
/// session, never anything else: input does not touch the registry.
pub proof fn lemma_input_never_tears<W, M, C>(
    prior: Option<PtySessionInner<W, M, C>>,
    new: PtySessionInner<W, M, C>,
    cmds: Seq<Command<W, M, C>>,
)
    requires
        forall|i: int|
            0 <= i < cmds.len() ==> (#[trigger] cmds[i] is Input || cmds[i] == Command::Install(
                new,
            )),
    ensures
        registry_after_all(prior, cmds) == prior || registry_after_all(prior, cmds) == Some(new),
        (forall|i: int| 0 <= i < cmds.len() ==> #[trigger] cmds[i] is Input) ==> registry_after_all(
            prior,
            cmds,
        ) == prior,
        (exists|i: int| 0 <= i < cmds.len() && #[trigger] cmds[i] == Command::Install(new))
            ==> registry_after_all(prior, cmds) == Some(new),
    decreases cmds.len(),
{
    if cmds.len() > 0 {
        let init = cmds.drop_last();
        assert forall|i: int| 0 <= i < init.len() implies (#[trigger] init[i] is Input || init[i]
            == Command::Install(new)) by {
            assert(init[i] == cmds[i]);
        }
        lemma_input_never_tears(prior, new, init);
        assert(cmds[cmds.len() - 1] is Input || cmds[cmds.len() - 1] == Command::Install(new));
        if forall|i: int| 0 <= i < cmds.len() ==> #[trigger] cmds[i] is Input {
            assert forall|i: int| 0 <= i < init.len() implies #[trigger] init[i] is Input by {
                assert(init[i] == cmds[i]);
            }
        }
        if exists|i: int| 0 <= i < cmds.len() && #[trigger] cmds[i] == Command::Install(new) {
            let k = choose|i: int| 0 <= i < cmds.len() && #[trigger] cmds[i] == Command::Install(
                new,
            );
            if k < init.len() {
                assert(init[k] == cmds[k]);
            }
        }
    }
}

/// The same holds at every moment of such a run, not only at its end.
pub proof fn lemma_input_never_tears_at<W, M, C>(
    prior: Option<PtySessionInner<W, M, C>>,
    new: PtySessionInner<W, M, C>,
    cmds: Seq<Command<W, M, C>>,
    moment: int,
)
    requires
        forall|i: int|
            0 <= i < cmds.len() ==> (#[trigger] cmds[i] is Input || cmds[i] == Command::Install(
                new,
            )),
        0 <= moment <= cmds.len(),
    ensures
        registry_after_all(prior, cmds.take(moment)) == prior || registry_after_all(
            prior,
            cmds.take(moment),
        ) == Some(new),
{
    let seen = cmds.take(moment);
    assert forall|i: int| 0 <= i < seen.len() implies (#[trigger] seen[i] is Input || seen[i]
        == Command::Install(new)) by {
        assert(seen[i] == cmds[i]);
    }
    lemma_input_never_tears(prior, new, seen);
}

} // verus!
