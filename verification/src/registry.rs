//! The registry slot: a container that holds at most one live session of a
//! kind. Every operation is one step on the slot; shared owners serialise
//! the steps by holding the slot behind a lock for the length of one call.

use vstd::prelude::*;

verus! {

/// A slot for the one session that is currently registered.
pub struct Registry<S> {
    slot: Option<S>,
}

/// One operation on a slot, as the laws below speak of it.
pub enum SlotOp<S> {
    /// Install a session and hand out the one that was there.
    Replace(S),
    /// Hand out the session and leave the slot empty.
    Take,
    /// Act on the registered session, if any, without exchanging it.
    Visit,
}

/// The content of a slot after `op`.
pub open spec fn slot_after<S>(content: Option<S>, op: SlotOp<S>) -> Option<S> {
    match op {
        SlotOp::Replace(s) => Some(s),
        SlotOp::Take => None,
        SlotOp::Visit => content,
    }
}

/// The session that `op` hands out of the slot.
pub open spec fn slot_yield<S>(content: Option<S>, op: SlotOp<S>) -> Option<S> {
    match op {
        SlotOp::Replace(_) => content,
        SlotOp::Take => content,
        SlotOp::Visit => None,
    }
}

/// The content of a slot after the operations `ops`, applied in order.
pub open spec fn slot_after_all<S>(content: Option<S>, ops: Seq<SlotOp<S>>) -> Option<S>
    decreases ops.len(),
{
    if ops.len() == 0 {
        content
    } else {
        slot_after(slot_after_all(content, ops.drop_last()), ops.last())
    }
}

/// The number of sessions registered in a slot with this content.
pub open spec fn live_count<S>(content: Option<S>) -> nat {
    if content is Some {
        1
    } else {
        0
    }
}

impl<S> Registry<S> {
    /// The session that is registered, if any.
    pub closed spec fn current(&self) -> Option<S> {
        self.slot
    }

    /// An empty slot.
    pub fn new() -> (r: Self)
        ensures
            r.current() is None,
    {
        Registry { slot: None }
    }

    /// Whether no session is registered.
    pub fn is_empty(&self) -> (r: bool)
        ensures
            r == (self.current() is None),
    {
        self.slot.is_none()
    }

    /// Installs `session` and hands out the session that was registered.
    pub fn replace(&mut self, session: S) -> (prev: Option<S>)
        ensures
            final(self).current() == slot_after(old(self).current(), SlotOp::Replace(session)),
            prev == slot_yield(old(self).current(), SlotOp::Replace(session)),
            final(self).current() == Some(session),
            prev == old(self).current(),
    {
        let prev = self.slot.take();
        self.slot = Some(session);
        prev
    }

    /// Hands out the registered session and leaves the slot empty.
    pub fn take(&mut self) -> (prev: Option<S>)
        ensures
            final(self).current() == slot_after(old(self).current(), SlotOp::<S>::Take),
            prev == slot_yield(old(self).current(), SlotOp::<S>::Take),
            final(self).current() is None,
            prev == old(self).current(),
    {
        self.slot.take()
    }

    /// The registered session, to read.
    pub fn peek(&self) -> (r: Option<&S>)
        ensures
            self.current() is None ==> r is None,
            self.current() is Some ==> r == Some(&self.current()->0),
    {
        self.slot.as_ref()
    }

    /// The registered session, to act on under exclusive access. The slot
    /// holds afterwards what the caller left behind the reference; an empty
    /// slot stays empty.
    pub fn peek_mut(&mut self) -> (r: Option<&mut S>)
        ensures
            old(self).current() is None ==> r is None && final(self).current() is None,
            old(self).current() is Some ==> r is Some && *r->0 == old(self).current()->0
                && final(self).current() == Some(*final(r->0)),
    {
        self.slot.as_mut()
    }
}

/// A slot never holds more than one session, whatever was done to it.
pub proof fn lemma_at_most_one_live<S>(content: Option<S>, ops: Seq<SlotOp<S>>)
    ensures
        live_count(slot_after_all(content, ops)) <= 1,
{
}

/// While one `Replace(new)` runs among any number of visits, the slot holds
/// the old content until the replacement and the new session from then on:
/// never anything else.
pub proof fn lemma_replace_among_visits<S>(old_content: Option<S>, new: S, ops: Seq<SlotOp<S>>)
    requires
        forall|i: int|
            0 <= i < ops.len() ==> (#[trigger] ops[i] is Visit || ops[i] == SlotOp::Replace(new)),
    ensures
        slot_after_all(old_content, ops) == old_content || slot_after_all(old_content, ops)
            == Some(new),
        (forall|i: int| 0 <= i < ops.len() ==> #[trigger] ops[i] is Visit) ==> slot_after_all(
            old_content,
            ops,
        ) == old_content,
        (exists|i: int| 0 <= i < ops.len() && #[trigger] ops[i] == SlotOp::Replace(new))
            ==> slot_after_all(old_content, ops) == Some(new),
    decreases ops.len(),
{
    if ops.len() > 0 {
        let init = ops.drop_last();
        assert forall|i: int| 0 <= i < init.len() implies (#[trigger] init[i] is Visit || init[i]
            == SlotOp::Replace(new)) by {
            assert(init[i] == ops[i]);
        }
        lemma_replace_among_visits(old_content, new, init);
        if forall|i: int| 0 <= i < ops.len() ==> #[trigger] ops[i] is Visit {
            assert forall|i: int| 0 <= i < init.len() implies #[trigger] init[i] is Visit by {
                assert(init[i] == ops[i]);
            }
            assert(ops.last() is Visit);
        }
        if exists|i: int| 0 <= i < ops.len() && #[trigger] ops[i] == SlotOp::Replace(new) {
            let k = choose|i: int| 0 <= i < ops.len() && #[trigger] ops[i] == SlotOp::Replace(new);
            if k < init.len() {
                assert(init[k] == ops[k]);
                assert(ops[ops.len() - 1] is Visit || ops[ops.len() - 1] == SlotOp::Replace(new));
            }
        }
        assert(ops[ops.len() - 1] is Visit || ops[ops.len() - 1] == SlotOp::Replace(new));
    }
}

} // verus!
