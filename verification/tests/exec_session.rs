use std::cell::RefCell;
use std::rc::Rc;

use kubeterm::commands::exec::{
    abandon_start, build_exec_args, fault_message, install_session, kubectl_program, pty_size,
    resize_pty, send_exec_input, start_pty_exec, stop_pty_exec, InputAction, PtyFault, PtySession,
    PtySessionInner, PtySize, ResizeAction, DEFAULT_COLS, DEFAULT_ROWS, DONE_EVENT, OUTPUT_EVENT,
    READ_BUFFER_SIZE,
};
use kubeterm::relay::{Phase, Publish, ReadOutcome, Relay};

/// What happened to the fake processes, in order.
#[derive(Debug, Clone, PartialEq, Eq)]
enum Step {
    Spawned(u32),
    Killed(u32),
}

type Journal = Rc<RefCell<Vec<Step>>>;

/// A process handle that records its kill calls.
struct FakeChild {
    id: u32,
    journal: Journal,
}

impl FakeChild {
    fn spawn(id: u32, journal: &Journal) -> FakeChild {
        journal.borrow_mut().push(Step::Spawned(id));
        FakeChild { id, journal: journal.clone() }
    }

    fn kill(&mut self) {
        self.journal.borrow_mut().push(Step::Killed(self.id));
    }
}

type Session = PtySessionInner<Vec<u8>, u32, FakeChild>;
type State = PtySession<Vec<u8>, u32, FakeChild>;

fn kill(evicted: Option<Session>) {
    if let Some(mut session) = evicted {
        session.child.kill();
    }
}

/// Runs a whole start the way a caller does: kill what was evicted, spawn,
/// register, kill what was displaced.
fn start(state: &mut State, id: u32, journal: &Journal) {
    let order = start_pty_exec("web-0", "default", "/k/config", "dev", None, None, None, state);
    kill(order.kill);
    let session = PtySessionInner {
        writer: Vec::new(),
        master: id,
        child: FakeChild::spawn(id, journal),
        size: order.plan.size,
    };
    kill(install_session(state, session));
}

fn stop(state: &mut State) {
    kill(stop_pty_exec(state));
}

#[test]
fn event_names_and_buffer() {
    assert_eq!(OUTPUT_EVENT, "pty-output");
    assert_eq!(DONE_EVENT, "pty-done");
    assert_eq!(READ_BUFFER_SIZE, 4096);
}

#[test]
fn size_defaults_to_80_by_24() {
    assert_eq!(DEFAULT_COLS, 80);
    assert_eq!(DEFAULT_ROWS, 24);
    assert_eq!(pty_size(None, None), PtySize { rows: 24, cols: 80, pixel_width: 0, pixel_height: 0 });
    assert_eq!(
        pty_size(Some(132), None),
        PtySize { rows: 24, cols: 132, pixel_width: 0, pixel_height: 0 }
    );
    assert_eq!(
        pty_size(None, Some(50)),
        PtySize { rows: 50, cols: 80, pixel_width: 0, pixel_height: 0 }
    );
    assert_eq!(
        pty_size(Some(0), Some(u16::MAX)),
        PtySize { rows: u16::MAX, cols: 0, pixel_width: 0, pixel_height: 0 }
    );
}

#[test]
fn program_falls_back_to_bare_name() {
    assert_eq!(kubectl_program(Some("/opt/bin/kubectl".to_string())), "/opt/bin/kubectl");
    assert_eq!(kubectl_program(None), "kubectl");
}

#[test]
fn exec_args_pass_target_verbatim() {
    let args = build_exec_args("web-0", "prod", "/home/u/.kube/config.prod", "admin@prod");
    assert_eq!(
        args,
        vec![
            "exec",
            "-it",
            "web-0",
            "-n",
            "prod",
            "--kubeconfig=/home/u/.kube/config.prod",
            "--context=admin@prod",
            "--",
            "/bin/sh",
        ]
    );
    let odd = build_exec_args("", "", "C:\\Users\\me\\.kube\\config", "a b");
    assert_eq!(odd[2], "");
    assert_eq!(odd[5], "--kubeconfig=C:\\Users\\me\\.kube\\config");
    assert_eq!(odd[6], "--context=a b");
}

#[test]
fn every_fault_has_its_message() {
    assert_eq!(fault_message(PtyFault::OpenPty, "no ptys"), "failed to open PTY: no ptys");
    assert_eq!(
        fault_message(PtyFault::Spawn, "No such file or directory"),
        "failed to spawn kubectl exec: No such file or directory"
    );
    assert_eq!(fault_message(PtyFault::CloneReader, "x"), "failed to clone PTY reader: x");
    assert_eq!(fault_message(PtyFault::TakeWriter, "y"), "failed to take PTY writer: y");
    assert_eq!(fault_message(PtyFault::Write, "broken pipe"), "PTY write error: broken pipe");
    assert_eq!(fault_message(PtyFault::Flush, "z"), "PTY flush error: z");
    assert_eq!(fault_message(PtyFault::Resize, ""), "PTY resize error: ");
}

#[test]
fn start_plans_the_spawn() {
    let mut state: State = PtySession::new();
    assert_eq!(state.phase(), Phase::Idle);
    let order = start_pty_exec(
        "api-7",
        "staging",
        "/k/config.staging",
        "stage",
        Some(120),
        Some(40),
        Some("/usr/local/bin/kubectl".to_string()),
        &mut state,
    );
    assert!(order.kill.is_none());
    assert_eq!(order.plan.program, "/usr/local/bin/kubectl");
    assert_eq!(order.plan.args, build_exec_args("api-7", "staging", "/k/config.staging", "stage"));
    assert!(order.plan.env.is_empty());
    assert_eq!(
        order.plan.size,
        PtySize { rows: 40, cols: 120, pixel_width: 0, pixel_height: 0 }
    );
    assert_eq!(state.phase(), Phase::Starting);
    assert!(state.session().is_none());
}

#[test]
fn start_while_running_leaves_one_session_and_kills_the_prior() {
    let journal: Journal = Rc::new(RefCell::new(Vec::new()));
    let mut state: State = PtySession::new();
    start(&mut state, 1, &journal);
    assert_eq!(state.phase(), Phase::Running);
    start(&mut state, 2, &journal);
    assert_eq!(state.phase(), Phase::Running);
    assert_eq!(state.session().map(|s| s.child.id), Some(2));
    assert_eq!(
        *journal.borrow(),
        vec![Step::Spawned(1), Step::Killed(1), Step::Spawned(2)]
    );
    let kills = journal.borrow().iter().filter(|s| **s == Step::Killed(1)).count();
    assert_eq!(kills, 1);
}

#[test]
fn start_stop_start_kills_before_spawn() {
    let journal: Journal = Rc::new(RefCell::new(Vec::new()));
    let mut state: State = PtySession::new();
    start(&mut state, 1, &journal);
    stop(&mut state);
    assert_eq!(state.phase(), Phase::Idle);
    start(&mut state, 2, &journal);
    assert_eq!(state.session().map(|s| s.child.id), Some(2));
    let steps = journal.borrow().clone();
    assert_eq!(steps, vec![Step::Spawned(1), Step::Killed(1), Step::Spawned(2)]);
    let killed = steps.iter().position(|s| *s == Step::Killed(1));
    let spawned = steps.iter().position(|s| *s == Step::Spawned(2));
    assert!(killed < spawned);
}

#[test]
fn input_and_resize_without_session_do_nothing() {
    let mut state: State = PtySession::new();
    assert_eq!(send_exec_input("ls\n", &state), InputAction::Ignore);
    assert_eq!(resize_pty(100, 30, &mut state), ResizeAction::Ignore);
    assert!(state.session().is_none());
    assert_eq!(state.phase(), Phase::Idle);
    let journal: Journal = Rc::new(RefCell::new(Vec::new()));
    start(&mut state, 1, &journal);
    stop(&mut state);
    assert_eq!(send_exec_input("late key", &state), InputAction::Ignore);
    assert_eq!(resize_pty(1, 1, &mut state), ResizeAction::Ignore);
}

#[test]
fn input_is_written_as_raw_bytes() {
    let journal: Journal = Rc::new(RefCell::new(Vec::new()));
    let mut state: State = PtySession::new();
    start(&mut state, 1, &journal);
    assert_eq!(send_exec_input("ls -l\r", &state), InputAction::WriteAndFlush(b"ls -l\r".to_vec()));
    assert_eq!(
        send_exec_input("\u{3}\u{1b}[A", &state),
        InputAction::WriteAndFlush(vec![0x03, 0x1b, b'[', b'A'])
    );
    assert_eq!(send_exec_input("é", &state), InputAction::WriteAndFlush(vec![0xC3, 0xA9]));
    assert_eq!(send_exec_input("", &state), InputAction::WriteAndFlush(Vec::new()));
    if let InputAction::WriteAndFlush(bytes) = send_exec_input("pwd\n", &state) {
        if let Some(session) = state.session_mut() {
            session.writer.extend_from_slice(&bytes);
        }
    }
    assert_eq!(state.session().map(|s| s.writer.clone()), Some(b"pwd\n".to_vec()));
}

#[test]
fn resize_records_geometry_and_keeps_the_session() {
    let journal: Journal = Rc::new(RefCell::new(Vec::new()));
    let mut state: State = PtySession::new();
    start(&mut state, 1, &journal);
    let mut relay = Relay::new();
    assert_eq!(
        state.session().map(|s| s.size),
        Some(PtySize { rows: 24, cols: 80, pixel_width: 0, pixel_height: 0 })
    );
    let action = resize_pty(132, 43, &mut state);
    let expected = PtySize { rows: 43, cols: 132, pixel_width: 0, pixel_height: 0 };
    assert_eq!(action, ResizeAction::Apply(expected));
    assert_eq!(state.session().map(|s| s.size), Some(expected));
    assert_eq!(state.session().map(|s| s.child.id), Some(1));
    assert_eq!(state.phase(), Phase::Running);
    assert_eq!(*journal.borrow(), vec![Step::Spawned(1)]);
    assert!(!relay.has_ended());
    assert_eq!(
        relay.on_read(ReadOutcome::Chunk(b"still here".to_vec())),
        Publish::Output("still here".to_string())
    );
}

#[test]
fn stop_is_idempotent() {
    let journal: Journal = Rc::new(RefCell::new(Vec::new()));
    let mut state: State = PtySession::new();
    assert!(stop_pty_exec(&mut state).is_none());
    start(&mut state, 9, &journal);
    stop(&mut state);
    stop(&mut state);
    stop(&mut state);
    assert_eq!(*journal.borrow(), vec![Step::Spawned(9), Step::Killed(9)]);
    assert!(state.session().is_none());
}

#[test]
fn failed_start_registers_nothing() {
    let journal: Journal = Rc::new(RefCell::new(Vec::new()));
    let mut state: State = PtySession::new();
    start(&mut state, 1, &journal);
    let order = start_pty_exec("p", "n", "f", "c", None, None, None, &mut state);
    kill(order.kill);
    assert_eq!(state.phase(), Phase::Starting);
    let message = abandon_start(&mut state, PtyFault::Spawn, "permission denied");
    assert_eq!(message, "failed to spawn kubectl exec: permission denied");
    assert_eq!(state.phase(), Phase::Idle);
    assert!(state.session().is_none());
    assert_eq!(*journal.borrow(), vec![Step::Spawned(1), Step::Killed(1)]);
}

#[test]
fn install_displaces_a_session_that_got_in() {
    let journal: Journal = Rc::new(RefCell::new(Vec::new()));
    let mut state: State = PtySession::new();
    let first = start_pty_exec("a", "n", "f", "c", None, None, None, &mut state);
    let second = start_pty_exec("b", "n", "f", "c", None, None, None, &mut state);
    assert!(first.kill.is_none() && second.kill.is_none());
    let one = PtySessionInner {
        writer: Vec::new(),
        master: 1,
        child: FakeChild::spawn(1, &journal),
        size: first.plan.size,
    };
    let two = PtySessionInner {
        writer: Vec::new(),
        master: 2,
        child: FakeChild::spawn(2, &journal),
        size: second.plan.size,
    };
    kill(install_session(&mut state, one));
    kill(install_session(&mut state, two));
    assert_eq!(state.session().map(|s| s.child.id), Some(2));
    assert_eq!(
        *journal.borrow(),
        vec![Step::Spawned(1), Step::Spawned(2), Step::Killed(1)]
    );
}

#[test]
fn input_interleaved_with_a_replacement_never_tears_the_registry() {
    let mut seed: u64 = 0x2545_F491_4F6C_DD1D;
    let mut round: u32 = 0;
    while round < 200 {
        let journal: Journal = Rc::new(RefCell::new(Vec::new()));
        let mut state: State = PtySession::new();
        start(&mut state, 1, &journal);
        let steps = 1 + (round % 17) as usize;
        seed = seed.wrapping_mul(6364136223846793005).wrapping_add(1442695040888963407);
        let replace_at = (seed >> 33) as usize % steps;
        let mut replaced = false;
        let mut step = 0;
        while step < steps {
            if step == replace_at {
                let session = PtySessionInner {
                    writer: Vec::new(),
                    master: 2,
                    child: FakeChild::spawn(2, &journal),
                    size: pty_size(None, None),
                };
                kill(install_session(&mut state, session));
                replaced = true;
            } else {
                seed = seed.wrapping_mul(6364136223846793005).wrapping_add(1442695040888963407);
                let caller = (seed >> 40) % 4;
                let action = send_exec_input(&format!("key from {caller}"), &state);
                assert!(matches!(action, InputAction::WriteAndFlush(_)));
            }
            let id = state.session().map(|s| s.child.id);
            assert_eq!(id, Some(if replaced { 2 } else { 1 }));
            assert_eq!(state.phase(), Phase::Running);
            step += 1;
        }
        assert_eq!(
            *journal.borrow(),
            vec![Step::Spawned(1), Step::Spawned(2), Step::Killed(1)]
        );
        round += 1;
    }
}
