//! Decision logic for an interactive, process-backed session subsystem:
//! a registry slot for the one live session, the pseudo-terminal exec
//! session, the output relay, and the supervisor of a local forwarding proxy
//! with its readiness polling.

use vstd::prelude::*;

pub mod commands;
pub mod models;
pub mod registry;
pub mod relay;
pub mod text;

verus! {

/// The slot of the proxy process. `P` is the handle by which the process is
/// killed.
pub struct KubectlProxy<P>(pub registry::Registry<P>);

impl<P> KubectlProxy<P> {
    /// The proxy process that is registered, if any.
    pub open spec fn current(&self) -> Option<P> {
        self.0.current()
    }

    /// A slot without a process: the proxy is started on request.
    pub fn new() -> (state: Self)
        ensures
            state.current() is None,
    {
        KubectlProxy(registry::Registry::new())
    }
}

/// A live exec session of the pod view. Both handles are kept together:
/// dropping the process handle ends the process, dropping the writer closes
/// its input.
pub struct PtySession<W, C> {
    pub writer: W,
    pub child: C,
}

/// The slot of the pod view's exec session. A new session takes the place of
/// the one that is registered.
pub struct PtyState<W, C>(pub registry::Registry<PtySession<W, C>>);

impl<W, C> PtyState<W, C> {
    /// The session that is registered, if any.
    pub open spec fn current(&self) -> Option<PtySession<W, C>> {
        self.0.current()
    }

    /// A slot without a session.
    pub fn new() -> (state: Self)
        ensures
            state.current() is None,
    {
        PtyState(registry::Registry::new())
    }
}

} // verus!
