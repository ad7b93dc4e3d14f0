//! The bytes between the two ends of a relay: what was read from the source
//! waits, in order, until the target has taken it.
//!
//! The source is read from the moment it connects, whether or not the target is
//! there yet, until `BUFFER_CHUNKS` chunks wait. The target is let in once the
//! source has connected, and is given the chunks one after the other. The relay is
//! through when the source has nothing more to say, the target is there and no
//! chunk waits.
use std::collections::VecDeque;

use vstd::prelude::*;
use vstd::slice::slice_subrange;

use crate::transfer::relay::stream_outcome;

verus! {

/// How many bytes one read of the source takes at most.
pub const CHUNK_BYTES: usize = 262144;

/// How many chunks may wait for the target.
pub const BUFFER_CHUNKS: usize = 256;

/// The end that sends.
#[derive(Clone, Copy, Debug, PartialEq, Eq, Structural)]
pub enum Source {
    /// Not connected yet.
    Awaited,
    /// Connected, and there may be more to read.
    Open,
    /// Closed after its last byte.
    Ended,
    /// Broken off.
    Failed,
}

/// What a relay is to wait for next.
#[derive(Clone, Copy, Debug, PartialEq, Eq, Structural)]
pub struct Wants {
    /// The source's connection.
    pub accept_source: bool,
    /// A chunk from the source.
    pub read: bool,
    /// The target's connection.
    pub accept_target: bool,
    /// The target to take bytes.
    pub write: bool,
    /// Nothing: all is said.
    pub finished: bool,
}

/// A relay between its two ends.
pub struct Splice {
    source: Source,
    target: bool,
    chunks: VecDeque<Vec<u8>>,
    taken: usize,
    total: u64,
    last_activity: u64,
}

// ------------------------------------------------------------------ what happens to a relay

/// A relay in terms of what passes through it.
#[verifier::ext_equal]
pub struct SpliceView {
    pub source: Source,
    /// Has the target connected?
    pub target: bool,
    /// What the source sent and the target has not wholly taken, chunk by chunk.
    pub waiting: Seq<Seq<u8>>,
    /// How many bytes of the first of these the target has.
    pub taken: nat,
    /// How many bytes the chunks had that the target has wholly taken.
    pub total: nat,
    /// The second of the last connection, read or chunk taken.
    pub last_activity: u64,
}

/// What can happen to a relay, with the second in which it does where that counts.
pub enum Event {
    SourceAccepted(u64),
    Received(Seq<u8>, u64),
    SourceEnded,
    SourceFailed,
    TargetAccepted(u64),
    Delivered(nat, u64),
}

impl SpliceView {
    /// A relay at the second `now`, with neither end there.
    pub open spec fn opened(now: u64) -> SpliceView {
        SpliceView {
            source: Source::Awaited,
            target: false,
            waiting: Seq::empty(),
            taken: 0,
            total: 0,
            last_activity: now,
        }
    }

    /// What the relay waits for.
    pub open spec fn wants(self) -> Wants {
        Wants {
            accept_source: self.source is Awaited,
            read: self.source is Open && self.waiting.len() < BUFFER_CHUNKS,
            accept_target: !(self.source is Awaited) && !self.target,
            write: self.target && self.waiting.len() > 0,
            finished: self.target && self.waiting.len() == 0 && (self.source is Ended
                || self.source is Failed),
        }
    }

    /// What a finished relay comes to: the bytes of the stream, or why it is none. A
    /// source that broke off, and one that sent nothing, make no stream.
    pub open spec fn outcome(self) -> Result<nat, Seq<char>> {
        if self.source is Failed {
            Err("relay read"@)
        } else if self.total == 0 {
            Err("relay stream closed with zero bytes transferred"@)
        } else {
            Ok(self.total)
        }
    }

    /// What the target has not got of what was read.
    pub open spec fn pending(self) -> Seq<u8> {
        self.waiting.flatten().skip(self.taken as int)
    }

    /// Can this happen now?
    pub open spec fn admits(self, event: Event) -> bool {
        match event {
            Event::SourceAccepted(_) => self.wants().accept_source,
            Event::Received(bytes, _) => self.wants().read && 0 < bytes.len() <= CHUNK_BYTES,
            Event::SourceEnded => self.source is Open,
            Event::SourceFailed => self.source is Open,
            Event::TargetAccepted(_) => self.wants().accept_target,
            Event::Delivered(n, _) => self.wants().write && self.taken + n
                <= self.waiting[0].len(),
        }
    }

    /// The relay after an event. Only a chunk that the target has to its end
    /// counts as progress of the stream.
    pub open spec fn after(self, event: Event) -> SpliceView {
        match event {
            Event::SourceAccepted(now) => SpliceView {
                source: Source::Open,
                last_activity: now,
                ..self
            },
            Event::Received(bytes, now) => SpliceView {
                waiting: self.waiting.push(bytes),
                last_activity: now,
                ..self
            },
            Event::SourceEnded => SpliceView { source: Source::Ended, ..self },
            Event::SourceFailed => SpliceView { source: Source::Failed, ..self },
            Event::TargetAccepted(now) => SpliceView {
                target: true,
                last_activity: now,
                ..self
            },
            Event::Delivered(n, now) => if self.taken + n == self.waiting[0].len() {
                SpliceView {
                    waiting: self.waiting.skip(1),
                    taken: 0,
                    total: self.total + self.waiting[0].len(),
                    last_activity: now,
                    ..self
                }
            } else {
                SpliceView { taken: self.taken + n, ..self }
            },
        }
    }

    /// The bytes that an event hands to the target.
    pub open spec fn handed_over(self, event: Event) -> Seq<u8> {
        match event {
            Event::Delivered(n, _) => self.waiting[0].subrange(
                self.taken as int,
                (self.taken + n) as int,
            ),
            _ => Seq::empty(),
        }
    }

    /// No more waits than may, no chunk is empty or longer than one read, and of
    /// the first one at least a byte is left.
    pub open spec fn well_formed(self) -> bool {
        &&& self.waiting.len() <= BUFFER_CHUNKS
        &&& forall|i: int|
            0 <= i < self.waiting.len() ==> 0 < (#[trigger] self.waiting[i]).len() <= CHUNK_BYTES
        &&& if self.waiting.len() > 0 {
            self.taken < self.waiting[0].len()
        } else {
            self.taken == 0
        }
        &&& self.source is Awaited ==> !self.target && self.waiting.len() == 0
    }
}

impl View for Splice {
    type V = SpliceView;

    closed spec fn view(&self) -> SpliceView {
        SpliceView {
            source: self.source,
            target: self.target,
            waiting: Seq::new(self.chunks@.len(), |i: int| self.chunks@[i]@),
            taken: self.taken as nat,
            total: self.total as nat,
            last_activity: self.last_activity,
        }
    }
}

impl Splice {
    /// A relay at the second `now`, with neither end there.
    pub fn new(now: u64) -> (r: Splice)
        ensures
            r@ == SpliceView::opened(now),
            r@.well_formed(),
    {
        let r = Splice {
            source: Source::Awaited,
            target: false,
            chunks: VecDeque::new(),
            taken: 0,
            total: 0,
            last_activity: now,
        };
        assert(r@.waiting =~= Seq::empty());
        r
    }

    /// What the relay waits for.
    pub fn wants(&self) -> (r: Wants)
        ensures
            r == self@.wants(),
    {
        let waiting: usize = self.chunks.len();
        Wants {
            accept_source: self.source == Source::Awaited,
            read: self.source == Source::Open && waiting < BUFFER_CHUNKS,
            accept_target: self.source != Source::Awaited && !self.target,
            write: self.target && waiting > 0,
            finished: self.target && waiting == 0 && (self.source == Source::Ended || self.source
                == Source::Failed),
        }
    }

    /// How many bytes the chunks had that the target has wholly taken.
    pub fn total(&self) -> (r: u64)
        ensures
            r == self@.total,
    {
        self.total
    }

    /// The second of the last connection, read or chunk taken.
    pub fn last_activity(&self) -> (r: u64)
        ensures
            r == self@.last_activity,
    {
        self.last_activity
    }

    /// What a finished relay comes to.
    pub fn outcome(&self) -> (r: Result<u64, &'static str>)
        requires
            self@.wants().finished,
        ensures
            match r {
                Ok(n) => self@.outcome() == Ok::<nat, Seq<char>>(n as nat),
                Err(why) => self@.outcome() == Err::<nat, Seq<char>>(why@),
            },
    {
        if self.source == Source::Failed {
            return Err("relay read");
        }
        stream_outcome(self.total)
    }

    /// The source has connected.
    pub fn source_accepted(&mut self, now: u64)
        requires
            old(self)@.well_formed(),
            old(self)@.admits(Event::SourceAccepted(now)),
        ensures
            final(self)@ == old(self)@.after(Event::SourceAccepted(now)),
            final(self)@.well_formed(),
    {
        self.source = Source::Open;
        self.last_activity = now;
        assert(self@.waiting =~= old(self)@.waiting);
    }

    /// A read of the source gave these bytes.
    pub fn received(&mut self, bytes: Vec<u8>, now: u64)
        requires
            old(self)@.well_formed(),
            old(self)@.admits(Event::Received(bytes@, now)),
        ensures
            final(self)@ == old(self)@.after(Event::Received(bytes@, now)),
            final(self)@.well_formed(),
    {
        self.chunks.push_back(bytes);
        self.last_activity = now;
        assert(self@.waiting =~= old(self)@.waiting.push(bytes@));
        assert(self@.waiting.len() > 1 ==> self@.waiting[0] == old(self)@.waiting[0]);
    }

    /// The source has closed its end.
    pub fn source_ended(&mut self)
        requires
            old(self)@.well_formed(),
            old(self)@.admits(Event::SourceEnded),
        ensures
            final(self)@ == old(self)@.after(Event::SourceEnded),
            final(self)@.well_formed(),
    {
        self.source = Source::Ended;
        assert(self@.waiting =~= old(self)@.waiting);
    }

    /// The source can no longer be read.
    pub fn source_failed(&mut self)
        requires
            old(self)@.well_formed(),
            old(self)@.admits(Event::SourceFailed),
        ensures
            final(self)@ == old(self)@.after(Event::SourceFailed),
            final(self)@.well_formed(),
    {
        self.source = Source::Failed;
        assert(self@.waiting =~= old(self)@.waiting);
    }

    /// The target has connected.
    pub fn target_accepted(&mut self, now: u64)
        requires
            old(self)@.well_formed(),
            old(self)@.admits(Event::TargetAccepted(now)),
        ensures
            final(self)@ == old(self)@.after(Event::TargetAccepted(now)),
            final(self)@.well_formed(),
    {
        self.target = true;
        self.last_activity = now;
        assert(self@.waiting =~= old(self)@.waiting);
    }

    /// What the target is to take next: the rest of the first chunk that waits.
    pub fn next(&self) -> (r: Option<&[u8]>)
        requires
            self@.well_formed(),
        ensures
            r is Some == (self@.waiting.len() > 0),
            r matches Some(bytes) ==> bytes@ == self@.waiting[0].skip(self@.taken as int),
    {
        if self.chunks.len() == 0 {
            return None;
        }
        let first: &Vec<u8> = &self.chunks[0];
        assert(first@ == self@.waiting[0]);
        let rest = slice_subrange(first.as_slice(), self.taken, first.len());
        assert(rest@ =~= self@.waiting[0].skip(self@.taken as int));
        Some(rest)
    }

    /// The target has taken `n` of the bytes that were next.
    pub fn delivered(&mut self, n: usize, now: u64)
        requires
            old(self)@.well_formed(),
            old(self)@.admits(Event::Delivered(n as nat, now)),
            old(self)@.total + old(self)@.waiting[0].len() <= u64::MAX,
        ensures
            final(self)@ == old(self)@.after(Event::Delivered(n as nat, now)),
            final(self)@.well_formed(),
    {
        assert(self.chunks@[0]@ == self@.waiting[0]);
        let length: usize = self.chunks[0].len();
        if self.taken + n == length {
            let _ = self.chunks.pop_front();
            self.taken = 0;
            self.total = self.total + length as u64;
            self.last_activity = now;
            assert(self@.waiting =~= old(self)@.waiting.skip(1));
        } else {
            self.taken = self.taken + n;
            assert(self@.waiting =~= old(self)@.waiting);
        }
    }
}

// ------------------------------------------------------------------ what holds of a relay

/// The relay that opened at `start`, after the events.
pub open spec fn history(start: u64, events: Seq<Event>) -> SpliceView
    decreases events.len(),
{
    if events.len() == 0 {
        SpliceView::opened(start)
    } else {
        history(start, events.drop_last()).after(events.last())
    }
}

/// Could each of the events happen when it did?
pub open spec fn possible(start: u64, events: Seq<Event>) -> bool
    decreases events.len(),
{
    events.len() > 0 ==> possible(start, events.drop_last()) && history(
        start,
        events.drop_last(),
    ).admits(events.last())
}

/// All that was read from the source, in order.
pub open spec fn read_from_source(events: Seq<Event>) -> Seq<u8>
    decreases events.len(),
{
    if events.len() == 0 {
        Seq::empty()
    } else {
        read_from_source(events.drop_last()) + match events.last() {
            Event::Received(bytes, _) => bytes,
            _ => Seq::empty(),
        }
    }
}

/// All that the target was given, in order.
pub open spec fn given_to_target(start: u64, events: Seq<Event>) -> Seq<u8>
    decreases events.len(),
{
    if events.len() == 0 {
        Seq::empty()
    } else {
        given_to_target(start, events.drop_last()) + history(
            start,
            events.drop_last(),
        ).handed_over(events.last())
    }
}

/// A well-formed relay stays one, whatever happens.
proof fn lemma_stays_well_formed(start: u64, events: Seq<Event>)
    requires
        possible(start, events),
    ensures
        history(start, events).well_formed(),
    decreases events.len(),
{
    if events.len() > 0 {
        lemma_stays_well_formed(start, events.drop_last());
        let before = history(start, events.drop_last());
        if let Event::Received(bytes, _) = events.last() {
            let now = before.after(events.last());
            assert(now.waiting.len() > 1 ==> now.waiting[0] == before.waiting[0]);
        }
    }
}

/// The target gets what the source sent, byte for byte and in order: at any time,
/// what it was given and what waits for it are together what was read. The count
/// of the relay is what it was given, but for the chunk it is in the middle of.
pub proof fn the_stream_is_handed_over_intact(start: u64, events: Seq<Event>)
    requires
        possible(start, events),
    ensures
        given_to_target(start, events) + history(start, events).pending() == read_from_source(
            events,
        ),
        history(start, events).total + history(start, events).taken == given_to_target(
            start,
            events,
        ).len(),
    decreases events.len(),
{
    let now = history(start, events);
    if events.len() == 0 {
        assert(now.pending() =~= Seq::empty());
    } else {
        let earlier = events.drop_last();
        let before = history(start, earlier);
        the_stream_is_handed_over_intact(start, earlier);
        lemma_stays_well_formed(start, earlier);
        let given = given_to_target(start, earlier);
        match events.last() {
            Event::Received(bytes, _) => {
                before.waiting.lemma_flatten_push(bytes);
                if before.waiting.len() > 0 {
                    lemma_first_is_within(before.waiting);
                }
                assert(now.pending() =~= before.pending() + bytes);
                assert(given + Seq::<u8>::empty() =~= given);
                assert(given + (before.pending() + bytes) =~= (given + before.pending()) + bytes);
            },
            Event::Delivered(n, _) => {
                let first = before.waiting[0];
                let rest = before.waiting.skip(1);
                assert(rest =~= before.waiting.drop_first());
                let all = before.waiting.flatten();
                assert(all == first + rest.flatten());
                let handed = before.handed_over(events.last());
                assert(handed + now.pending() =~= before.pending());
                assert(given + (handed + now.pending()) =~= (given + handed) + now.pending());
                assert(read_from_source(earlier) + Seq::<u8>::empty() =~= read_from_source(
                    earlier,
                ));
            },
            _ => {
                assert(given + Seq::<u8>::empty() =~= given);
                assert(read_from_source(earlier) + Seq::<u8>::empty() =~= read_from_source(
                    earlier,
                ));
            },
        }
    }
}

proof fn lemma_first_is_within(chunks: Seq<Seq<u8>>)
    requires
        chunks.len() > 0,
    ensures
        chunks[0].len() <= chunks.flatten().len(),
{
    assert(chunks.flatten() == chunks[0] + chunks.drop_first().flatten());
}

/// A relay that is through has given the target everything that was read, and
/// counted every byte of it. That holds of a source that broke off, too; but only
/// one that ended, and sent something, makes the relay succeed.
pub proof fn a_finished_relay_gave_everything(start: u64, events: Seq<Event>)
    requires
        possible(start, events),
        history(start, events).wants().finished,
    ensures
        given_to_target(start, events) == read_from_source(events),
        history(start, events).total == read_from_source(events).len(),
        history(start, events).outcome() is Ok == (history(start, events).source is Ended
            && read_from_source(events).len() > 0),
        history(start, events).outcome() matches Ok(n) ==> n == read_from_source(events).len(),
{
    the_stream_is_handed_over_intact(start, events);
    lemma_stays_well_formed(start, events);
    let now = history(start, events);
    assert(now.pending() =~= Seq::empty());
    assert(given_to_target(start, events) + Seq::<u8>::empty() =~= given_to_target(start, events));
}

/// A relay never holds more than its buffer: `BUFFER_CHUNKS` chunks of
/// `CHUNK_BYTES` bytes.
pub proof fn the_buffer_is_bounded(start: u64, events: Seq<Event>)
    requires
        possible(start, events),
    ensures
        history(start, events).waiting.len() <= BUFFER_CHUNKS,
        history(start, events).pending().len() <= BUFFER_CHUNKS * CHUNK_BYTES,
{
    lemma_stays_well_formed(start, events);
    let waiting = history(start, events).waiting;
    waiting.lemma_flatten_length_le_mul(CHUNK_BYTES as int);
    waiting.lemma_flatten_and_flatten_alt_are_equivalent();
    assert(waiting.len() * CHUNK_BYTES <= BUFFER_CHUNKS * CHUNK_BYTES) by (nonlinear_arith)
        requires
            waiting.len() <= BUFFER_CHUNKS,
    ;
    if waiting.len() > 0 {
        lemma_first_is_within(waiting);
    }
}

/// The source is read while the target is still on its way, as long as there is
/// room: whether the target is there makes no difference to reading.
pub proof fn reading_does_not_wait_for_the_target(relay: SpliceView)
    ensures
        relay.wants().read == (SpliceView { target: true, ..relay }).wants().read,
        relay.wants().read == (SpliceView { target: false, ..relay }).wants().read,
{
}

/// The target is let in only once the source is there, and a relay is never
/// stuck: it waits for an end, for bytes, or is through.
pub proof fn a_relay_always_waits_for_something(start: u64, events: Seq<Event>)
    requires
        possible(start, events),
    ensures
        history(start, events).target ==> !(history(start, events).source is Awaited),
        ({
            let wants = history(start, events).wants();
            wants.accept_source || wants.read || wants.accept_target || wants.write
                || wants.finished
        }),
{
    lemma_stays_well_formed(start, events);
}

/// A relay was last active when an end connected, when a chunk was read and when
/// the target had taken a whole chunk; a part of one does not count, nor does the
/// source's end.
pub proof fn activity_is_connecting_reading_and_delivering(relay: SpliceView, event: Event)
    requires
        relay.well_formed(),
        relay.admits(event),
    ensures
        relay.after(event).last_activity == match event {
            Event::SourceAccepted(now) => now,
            Event::TargetAccepted(now) => now,
            Event::Received(_, now) => now,
            Event::Delivered(n, now) => if relay.taken + n == relay.waiting[0].len() {
                now
            } else {
                relay.last_activity
            },
            Event::SourceEnded => relay.last_activity,
            Event::SourceFailed => relay.last_activity,
        },
{
}

/// Bytes are counted as delivered a chunk at a time, when the target has taken
/// the last of it; nothing else changes the count.
pub proof fn chunks_are_counted_when_taken(relay: SpliceView, event: Event)
    requires
        relay.well_formed(),
        relay.admits(event),
    ensures
        relay.after(event).total == relay.total + match event {
            Event::Delivered(n, _) => if relay.taken + n == relay.waiting[0].len() {
                relay.waiting[0].len()
            } else {
                0
            },
            _ => 0,
        },
{
}

/// Each end is in the state that the last event about it left it in, and no
/// other event changes it.
pub proof fn ends_change_with_their_events(relay: SpliceView, event: Event)
    requires
        relay.well_formed(),
        relay.admits(event),
    ensures
        relay.after(event).source == match event {
            Event::SourceAccepted(_) => Source::Open,
            Event::SourceEnded => Source::Ended,
            Event::SourceFailed => Source::Failed,
            _ => relay.source,
        },
        relay.after(event).target == (relay.target || event is TargetAccepted),
{
}

/// What a relay waits for: its source first; then bytes, for as long as fewer
/// than 256 chunks wait, and its target; the target to take them; and nothing
/// more once the source is done and no chunk waits.
pub proof fn relays_wait_in_order(relay: SpliceView)
    ensures
        relay.wants().accept_source <==> relay.source == Source::Awaited,
        relay.wants().read <==> relay.source == Source::Open && relay.waiting.len() < 256,
        relay.wants().accept_target <==> relay.source != Source::Awaited && !relay.target,
        relay.wants().write <==> relay.target && relay.waiting.len() > 0,
        relay.wants().finished <==> relay.target && relay.waiting.len() == 0 && (relay.source
            == Source::Ended || relay.source == Source::Failed),
{
}

/// A new relay has neither end, holds nothing, has delivered nothing and counts
/// as active from its start.
pub proof fn relays_start_empty(now: u64)
    ensures
        ({
            let r = SpliceView::opened(now);
            &&& r.source == Source::Awaited
            &&& !r.target
            &&& r.waiting.len() == 0
            &&& r.taken == 0
            &&& r.total == 0
            &&& r.last_activity == now
        }),
{
}

/// A relay fails if its source broke off, or if nothing came through.
pub proof fn relays_fail_without_bytes(relay: SpliceView)
    ensures
        relay.outcome() is Ok <==> relay.source != Source::Failed && relay.total > 0,
        relay.outcome() matches Ok(n) ==> n == relay.total,
        relay.source == Source::Failed ==> relay.outcome() == Err::<nat, Seq<char>>("relay read"@),
        relay.source != Source::Failed && relay.total == 0 ==> relay.outcome() == Err::<
            nat,
            Seq<char>,
        >("relay stream closed with zero bytes transferred"@),
{
}

/// What can happen to a relay next: its source connects once; chunks of up to
/// 262144 bytes are read while there is room for them; the source ends or breaks
/// off while it is open; the target connects once, after the source; and takes as
/// much of the first chunk as is left of it.
pub proof fn events_happen_in_order(relay: SpliceView, bytes: Seq<u8>, n: nat, now: u64)
    ensures
        relay.admits(Event::SourceAccepted(now)) <==> relay.source == Source::Awaited,
        relay.admits(Event::Received(bytes, now)) <==> relay.source == Source::Open
            && relay.waiting.len() < 256 && 0 < bytes.len() <= 262144,
        relay.admits(Event::SourceEnded) <==> relay.source == Source::Open,
        relay.admits(Event::SourceFailed) <==> relay.source == Source::Open,
        relay.admits(Event::TargetAccepted(now)) <==> relay.source != Source::Awaited
            && !relay.target,
        relay.admits(Event::Delivered(n, now)) <==> relay.target && relay.waiting.len() > 0
            && relay.taken + n <= relay.waiting[0].len(),
{
}

} // verus!
