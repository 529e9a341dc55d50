//! The output relay: what to publish for each read from a session's output
//! stream, and when the stream counts as ended.
//!
//! The relay itself performs no read. Its owner reads, hands each result to
//! [`Relay::on_read`], and publishes what comes back. Nothing here touches a
//! registry, so a blocked read holds no lock.

use vstd::prelude::*;
use crate::text::{lossy_text, lossy_utf8};

verus! {

/// What one read from the output stream returned.
#[derive(Clone, Debug, PartialEq, Eq)]
pub enum ReadOutcome {
    /// The bytes that were read. No bytes at all means end of stream.
    Chunk(Vec<u8>),
    /// The read failed.
    Failed,
}

/// What the relay's owner has to publish after a read.
#[derive(Clone, Debug, PartialEq, Eq)]
pub enum Publish {
    /// One chunk of output, as text.
    Output(String),
    /// The terminal notification: the session's output has ended.
    Ended,
    /// Nothing: the relay has already ended.
    Nothing,
}

/// The states of an interactive session.
#[derive(Clone, Copy, Debug, PartialEq, Eq, Structural)]
pub enum Phase {
    /// No session is registered.
    Idle,
    /// A start is under way: the terminal is being opened and the command
    /// spawned.
    Starting,
    /// The session is live: input and resizing reach it, its output is
    /// relayed.
    Running,
    /// The session's output has ended, or the session was stopped; the
    /// terminal notification has been published.
    Ending,
    /// The session's handles are released.
    Closed,
}

/// The relay of one session's output. It starts with a running session and
/// goes on until the stream ends or the session is stopped; from then on it
/// has ended.
pub struct Relay {
    phase: Phase,
}

/// A read outcome as the contracts see it.
pub enum ReadView {
    Chunk(Seq<u8>),
    Failed,
}

/// A published event as the contracts see it.
pub enum EventView {
    Output(Seq<char>),
    Ended,
}

impl ReadOutcome {
    pub open spec fn view(&self) -> ReadView {
        match self {
            ReadOutcome::Chunk(bytes) => ReadView::Chunk(bytes@),
            ReadOutcome::Failed => ReadView::Failed,
        }
    }
}

impl Publish {
    /// The events that this answer stands for: one, or none.
    pub open spec fn events(&self) -> Seq<EventView> {
        match self {
            Publish::Output(text) => seq![EventView::Output(text@)],
            Publish::Ended => seq![EventView::Ended],
            Publish::Nothing => Seq::empty(),
        }
    }
}

/// Whether a read ends the stream: a zero-length read or a failure.
pub open spec fn ends_stream(read: ReadView) -> bool {
    match read {
        ReadView::Chunk(bytes) => bytes.len() == 0,
        ReadView::Failed => true,
    }
}

/// Whether the relay has ended after `read`.
pub open spec fn ended_after(ended: bool, read: ReadView) -> bool {
    ended || ends_stream(read)
}

/// The events to publish for `read`.
pub open spec fn events_for(ended: bool, read: ReadView) -> Seq<EventView> {
    if ended {
        Seq::empty()
    } else {
        match read {
            ReadView::Chunk(bytes) => if bytes.len() == 0 {
                seq![EventView::Ended]
            } else {
                seq![EventView::Output(lossy_utf8(bytes))]
            },
            ReadView::Failed => seq![EventView::Ended],
        }
    }
}

/// Whether the relay has ended after the reads `reads`, taken in order.
pub open spec fn ended_after_all(ended: bool, reads: Seq<ReadView>) -> bool
    decreases reads.len(),
{
    if reads.len() == 0 {
        ended
    } else {
        ended_after(ended_after_all(ended, reads.drop_last()), reads.last())
    }
}

/// All events published for the reads `reads`, taken in order.
pub open spec fn events_for_all(ended: bool, reads: Seq<ReadView>) -> Seq<EventView>
    decreases reads.len(),
{
    if reads.len() == 0 {
        Seq::empty()
    } else {
        events_for_all(ended, reads.drop_last()) + events_for(
            ended_after_all(ended, reads.drop_last()),
            reads.last(),
        )
    }
}

/// The reads of a stream that delivers `chunks` one by one.
pub open spec fn chunk_reads(chunks: Seq<Seq<u8>>) -> Seq<ReadView> {
    chunks.map_values(|c: Seq<u8>| ReadView::Chunk(c))
}

/// The output events for `chunks`, one for each.
pub open spec fn chunk_events(chunks: Seq<Seq<u8>>) -> Seq<EventView> {
    chunks.map_values(|c: Seq<u8>| EventView::Output(lossy_utf8(c)))
}

/// The number of terminal notifications among `events`.
pub open spec fn ended_count(events: Seq<EventView>) -> nat
    decreases events.len(),
{
    if events.len() == 0 {
        0
    } else {
        ended_count(events.drop_last()) + if events.last() is Ended {
            1nat
        } else {
            0nat
        }
    }
}

impl Relay {
    /// The state of the session whose output is relayed: `Running`, `Ending`
    /// or `Closed`.
    pub closed spec fn session_phase(&self) -> Phase {
        self.phase
    }

    /// Whether the relay has ended.
    pub open spec fn ended(&self) -> bool {
        !(self.session_phase() is Running)
    }

    #[verifier::type_invariant]
    spec fn started(&self) -> bool {
        self.phase is Running || self.phase is Ending || self.phase is Closed
    }

    /// A relay for the output of a session that has just been spawned.
    pub fn new() -> (relay: Relay)
        ensures
            relay.session_phase() is Running,
            !relay.ended(),
    {
        Relay { phase: Phase::Running }
    }

    /// Whether the relay has ended, so that no further read is due.
    pub fn has_ended(&self) -> (r: bool)
        ensures
            r == self.ended(),
    {
        match self.phase {
            Phase::Running => false,
            _ => true,
        }
    }

    /// The state of the session.
    pub fn phase(&self) -> (phase: Phase)
        ensures
            phase == self.session_phase(),
            phase is Running || phase is Ending || phase is Closed,
    {
        proof {
            use_type_invariant(self);
        }
        self.phase
    }

    /// Takes the outcome of one read and says what to publish. A chunk is
    /// published as it is, decoded lossily, so that a chunk of valid UTF-8
    /// is published unchanged; a zero-length read or a failed
    /// read ends the stream and is answered with the terminal notification,
    /// once. A relay that has ended publishes nothing more.
    pub fn on_read(&mut self, read: ReadOutcome) -> (publish: Publish)
        ensures
            final(self).ended() == ended_after(old(self).ended(), read@),
            publish.events() == events_for(old(self).ended(), read@),
            publish is Nothing <==> old(self).ended(),
            publish is Ended <==> !old(self).ended() && ends_stream(read@),
            publish matches Publish::Output(text) ==> read@ matches ReadView::Chunk(bytes)
                && text@ == lossy_utf8(bytes) && (vstd::utf8::valid_utf8(bytes)
                ==> vstd::utf8::encode_utf8(text@) == bytes),
            final(self).session_phase() == if old(self).ended() {
                old(self).session_phase()
            } else if ends_stream(read@) {
                Phase::Ending
            } else {
                Phase::Running
            },
    {
        if self.has_ended() {
            return Publish::Nothing;
        }
        match read {
            ReadOutcome::Chunk(bytes) => {
                if bytes.len() == 0 {
                    self.phase = Phase::Ending;
                    Publish::Ended
                } else {
                    proof {
                        if vstd::utf8::valid_utf8(bytes@) {
                            vstd::utf8::decode_utf8_encode_utf8(bytes@);
                        }
                    }
                    Publish::Output(lossy_text(&bytes))
                }
            },
            ReadOutcome::Failed => {
                self.phase = Phase::Ending;
                Publish::Ended
            },
        }
    }

    /// Takes note that an output event could not be delivered. That ends the
    /// relay like a failed read does.
    pub fn on_publish_failed(&mut self) -> (publish: Publish)
        ensures
            final(self).ended(),
            publish.events() == events_for(old(self).ended(), ReadView::Failed),
            publish is Nothing <==> old(self).ended(),
            publish is Ended <==> !old(self).ended(),
            final(self).session_phase() == if old(self).ended() {
                old(self).session_phase()
            } else {
                Phase::Ending
            },
    {
        if self.has_ended() {
            Publish::Nothing
        } else {
            self.phase = Phase::Ending;
            Publish::Ended
        }
    }

    /// Takes note that the session was stopped. A running session ends, and
    /// the terminal notification is due, once; the end of the stream that
    /// follows the kill is then answered with nothing.
    pub fn on_stop(&mut self) -> (publish: Publish)
        ensures
            final(self).ended(),
            publish.events() == events_for(old(self).ended(), ReadView::Failed),
            publish is Nothing <==> old(self).ended(),
            publish is Ended <==> !old(self).ended(),
            final(self).session_phase() == if old(self).ended() {
                old(self).session_phase()
            } else {
                Phase::Ending
            },
    {
        self.on_publish_failed()
    }

    /// Takes note that the session's handles were released: a session that
    /// has ended is closed.
    pub fn on_release(&mut self)
        ensures
            final(self).session_phase() == if old(self).session_phase() is Ending {
                Phase::Closed
            } else {
                old(self).session_phase()
            },
            final(self).ended() == old(self).ended(),
    {
        proof {
            use_type_invariant(&*self);
        }
        match self.phase {
            Phase::Ending => {
                self.phase = Phase::Closed;
            },
            _ => {},
        }
    }
}

/// A relay that has ended stays so and publishes nothing, whatever is read.
pub proof fn lemma_ended_relay_is_silent(reads: Seq<ReadView>)
    ensures
        ended_after_all(true, reads),
        events_for_all(true, reads) == Seq::<EventView>::empty(),
    decreases reads.len(),
{
    if reads.len() > 0 {
        lemma_ended_relay_is_silent(reads.drop_last());
    }
}

/// Reads taken in two runs publish what the two runs publish one after the
/// other, the second run starting where the first left the relay.
pub proof fn lemma_events_split(ended: bool, first: Seq<ReadView>, second: Seq<ReadView>)
    ensures
        ended_after_all(ended, first + second) == ended_after_all(
            ended_after_all(ended, first),
            second,
        ),
        events_for_all(ended, first + second) == events_for_all(ended, first) + events_for_all(
            ended_after_all(ended, first),
            second,
        ),
    decreases second.len(),
{
    if second.len() == 0 {
        assert(first + second =~= first);
        assert(events_for_all(ended, first) + Seq::<EventView>::empty() =~= events_for_all(
            ended,
            first,
        ));
    } else {
        let all = first + second;
        assert(all.drop_last() =~= first + second.drop_last());
        assert(all.last() == second.last());
        lemma_events_split(ended, first, second.drop_last());
        let mid = ended_after_all(ended, first);
        assert(events_for_all(ended, all) =~= events_for_all(ended, first) + events_for_all(
            mid,
            second,
        ));
    }
}

/// A running relay that is fed non-empty chunks publishes each of them, in
/// order and unchanged, and goes on.
pub proof fn lemma_chunks_are_relayed(chunks: Seq<Seq<u8>>)
    requires
        forall|i: int| 0 <= i < chunks.len() ==> (#[trigger] chunks[i]).len() > 0,
    ensures
        !ended_after_all(false, chunk_reads(chunks)),
        events_for_all(false, chunk_reads(chunks)) == chunk_events(chunks),
    decreases chunks.len(),
{
    let reads = chunk_reads(chunks);
    if chunks.len() == 0 {
        assert(chunk_events(chunks) =~= Seq::<EventView>::empty());
    } else {
        let init = chunks.drop_last();
        assert forall|i: int| 0 <= i < init.len() implies (#[trigger] init[i]).len() > 0 by {
            assert(init[i] == chunks[i]);
        }
        lemma_chunks_are_relayed(init);
        assert(reads.drop_last() =~= chunk_reads(init));
        assert(reads.last() == ReadView::Chunk(chunks.last()));
        assert(chunks[chunks.len() - 1].len() > 0);
        assert(chunk_events(chunks) =~= chunk_events(init) + seq![
            EventView::Output(lossy_utf8(chunks.last())),
        ]);
    }
}

/// The events `chunk_events` hold no terminal notification.
pub proof fn lemma_chunk_events_hold_no_end(chunks: Seq<Seq<u8>>)
    ensures
        ended_count(chunk_events(chunks)) == 0,
    decreases chunks.len(),
{
    if chunks.len() > 0 {
        lemma_chunk_events_hold_no_end(chunks.drop_last());
        assert(chunk_events(chunks).drop_last() =~= chunk_events(chunks.drop_last()));
    }
}

/// A stream of non-empty chunks that ends in a zero-length read is published
/// as exactly those chunks, in order, followed by exactly one terminal
/// notification: whatever is read after the first zero-length read, further
/// zero-length reads included, adds nothing.
pub proof fn lemma_stream_is_relayed_once(chunks: Seq<Seq<u8>>, later: Seq<ReadView>)
    requires
        forall|i: int| 0 <= i < chunks.len() ==> (#[trigger] chunks[i]).len() > 0,
    ensures
        events_for_all(
            false,
            chunk_reads(chunks) + seq![ReadView::Chunk(Seq::empty())] + later,
        ) == chunk_events(chunks) + seq![EventView::Ended],
        ended_count(
            events_for_all(
                false,
                chunk_reads(chunks) + seq![ReadView::Chunk(Seq::empty())] + later,
            ),
        ) == 1,
        ended_after_all(
            false,
            chunk_reads(chunks) + seq![ReadView::Chunk(Seq::empty())] + later,
        ),
{
    let head = chunk_reads(chunks);
    let eof = seq![ReadView::Chunk(Seq::<u8>::empty())];
    lemma_chunks_are_relayed(chunks);
    lemma_events_split(false, head, eof);
    assert(eof.drop_last() =~= Seq::<ReadView>::empty());
    assert(events_for_all(false, eof.drop_last()) =~= Seq::<EventView>::empty());
    assert(!ended_after_all(false, eof.drop_last()));
    assert(events_for_all(false, eof) =~= seq![EventView::Ended]);
    assert(ended_after_all(false, eof));
    lemma_events_split(false, head + eof, later);
    lemma_ended_relay_is_silent(later);
    let all = events_for_all(false, head + eof + later);
    assert(all =~= chunk_events(chunks) + seq![EventView::Ended]);
    lemma_chunk_events_hold_no_end(chunks);
    assert(all.drop_last() =~= chunk_events(chunks));
}

/// However a relay is driven, it publishes the terminal notification at most
/// once, and exactly once if it has ended.
pub proof fn lemma_ends_at_most_once(reads: Seq<ReadView>)
    ensures
        ended_count(events_for_all(false, reads)) == if ended_after_all(false, reads) {
            1nat
        } else {
            0nat
        },
    decreases reads.len(),
{
    if reads.len() > 0 {
        let init = reads.drop_last();
        lemma_ends_at_most_once(init);
        let before = events_for_all(false, init);
        let step = events_for(ended_after_all(false, init), reads.last());
        if step.len() == 0 {
            assert(before + step =~= before);
        } else {
            assert(step.len() == 1);
            assert((before + step).drop_last() =~= before);
            assert((before + step).last() == step[0]);
        }
    }
}

} // verus!
