//! Event bus — decoupled message passing between engine systems.
//!
//! Two dispatch modes: an immediate event is readable by systems running later
//! in the same frame; a deferred event becomes readable at the start of the
//! next frame (after `advance_frame`).

use vstd::prelude::*;

verus! {

/// The abstract state of one event channel: what is readable this frame and
/// what will become readable next frame, both in emission order.
pub ghost struct EventQueues<E> {
    pub current: Seq<E>,
    pub deferred: Seq<E>,
}

impl<E> EventQueues<E> {
    pub open spec fn empty() -> Self {
        EventQueues { current: Seq::empty(), deferred: Seq::empty() }
    }

    pub open spec fn emitted(self, e: E) -> Self {
        EventQueues { current: self.current.push(e), deferred: self.deferred }
    }

    pub open spec fn emitted_deferred(self, e: E) -> Self {
        EventQueues { current: self.current, deferred: self.deferred.push(e) }
    }

    /// Frame boundary: deferred events are promoted, immediate ones dropped.
    pub open spec fn advanced(self) -> Self {
        EventQueues { current: self.deferred, deferred: Seq::empty() }
    }
}

/// Storage of one channel: the events of this frame and those of the next.
struct RawQueue<E> {
    current: Vec<E>,
    deferred: Vec<E>,
}

impl<E> RawQueue<E> {
    spec fn view(&self) -> EventQueues<E> {
        EventQueues { current: self.current@, deferred: self.deferred@ }
    }

    fn new() -> (q: Self)
        ensures
            q.view() == EventQueues::<E>::empty(),
    {
        RawQueue { current: Vec::new(), deferred: Vec::new() }
    }

    /// Move deferred events into the current queue and drop the old current ones.
    fn advance(&mut self)
        ensures
            final(self).view() == old(self).view().advanced(),
    {
        self.current.clear();
        std::mem::swap(&mut self.current, &mut self.deferred);
    }
}

/// The event bus for events of type `E`.
pub struct EventBus<E> {
    queue: RawQueue<E>,
}

impl<E> View for EventBus<E> {
    type V = EventQueues<E>;

    closed spec fn view(&self) -> EventQueues<E> {
        self.queue.view()
    }
}

impl<E> EventBus<E> {
    /// Create an empty event bus.
    pub fn new() -> (bus: Self)
        ensures
            bus@ == EventQueues::<E>::empty(),
    {
        EventBus { queue: RawQueue::new() }
    }

    /// Emit an event that is readable by systems running later this frame.
    pub fn emit(&mut self, event: E)
        ensures
            final(self)@ == old(self)@.emitted(event),
    {
        self.queue.current.push(event);
    }

    /// Emit an event that becomes readable at the start of the next frame.
    pub fn emit_deferred(&mut self, event: E)
        ensures
            final(self)@ == old(self)@.emitted_deferred(event),
    {
        self.queue.deferred.push(event);
    }

    /// All events readable this frame, in emission order. Reading does not
    /// consume them.
    pub fn read(&self) -> (events: &[E])
        ensures
            events@ == self@.current,
    {
        self.queue.current.as_slice()
    }

    /// `true` if there is any event readable this frame.
    pub fn has(&self) -> (b: bool)
        ensures
            b == (self@.current.len() > 0),
    {
        !self.queue.current.is_empty()
    }

    /// Number of events readable this frame.
    pub fn count(&self) -> (n: usize)
        ensures
            n == self@.current.len(),
    {
        self.queue.current.len()
    }

    /// Frame boundary: promote deferred events, drop immediate ones.
    pub fn advance_frame(&mut self)
        ensures
            final(self)@ == old(self)@.advanced(),
    {
        self.queue.advance();
    }

    /// Drop every event, immediate and deferred.
    pub fn clear_all(&mut self)
        ensures
            final(self)@ == EventQueues::<E>::empty(),
    {
        self.queue.current.clear();
        self.queue.deferred.clear();
    }
}

/// Write-only view of a bus.
pub struct EventWriter<'a, E> {
    /// The bus written to.
    pub bus: &'a mut EventBus<E>,
}

impl<'a, E> EventWriter<'a, E> {
    /// Create a writer bound to the given bus.
    pub fn new(bus: &'a mut EventBus<E>) -> (w: Self)
        ensures
            *w.bus == *old(bus),
            *final(bus) == *final(w.bus),
    {
        EventWriter { bus }
    }

    /// Emit an immediate event.
    pub fn emit(&mut self, event: E)
        ensures
            final(self).bus@ == old(self).bus@.emitted(event),
            *final(final(self).bus) == *final(old(self).bus),
    {
        self.bus.emit(event);
    }

    /// Emit a deferred event.
    pub fn emit_deferred(&mut self, event: E)
        ensures
            final(self).bus@ == old(self).bus@.emitted_deferred(event),
            *final(final(self).bus) == *final(old(self).bus),
    {
        self.bus.emit_deferred(event);
    }
}

/// Read-only view of a bus.
pub struct EventReader<'a, E> {
    /// The bus read from.
    pub bus: &'a EventBus<E>,
}

impl<'a, E> EventReader<'a, E> {
    /// Create a reader bound to the given bus.
    pub fn new(bus: &'a EventBus<E>) -> (r: Self)
        ensures
            r.bus == bus,
    {
        EventReader { bus }
    }

    /// All events readable this frame, in emission order.
    pub fn iter(&self) -> (events: &'a [E])
        ensures
            events@ == self.bus@.current,
    {
        self.bus.read()
    }

    /// `true` if any event is readable this frame.
    pub fn has_events(&self) -> (b: bool)
        ensures
            b == (self.bus@.current.len() > 0),
    {
        self.bus.has()
    }
}

/// An immediate event is readable in the frame it was emitted in, after
/// everything emitted before it, and leaves the deferred queue alone.
pub proof fn lemma_immediate_emit_readable_same_frame<E>(q: EventQueues<E>, e: E)
    ensures
        q.emitted(e).current.len() == q.current.len() + 1,
        q.emitted(e).current.last() == e,
        q.emitted(e).current.drop_last() == q.current,
        q.emitted(e).deferred == q.deferred,
{
    assert(q.emitted(e).current.drop_last() =~= q.current);
}

/// A deferred event is not readable in the frame it was emitted in; after the
/// next frame boundary it is readable, after the deferred events emitted
/// before it.
pub proof fn lemma_deferred_emit_readable_next_frame<E>(q: EventQueues<E>, e: E)
    ensures
        q.emitted_deferred(e).current == q.current,
        q.emitted_deferred(e).advanced().current == q.deferred.push(e),
        q.emitted_deferred(e).advanced().deferred.len() == 0,
{
}

/// A frame boundary drops every immediate event: what is readable afterwards
/// is exactly what was deferred before it.
pub proof fn lemma_advance_drops_immediate_events<E>(q: EventQueues<E>, e: E)
    ensures
        q.emitted(e).advanced() == q.advanced(),
        q.advanced().current == q.deferred,
{
}

/// Two frame boundaries with nothing emitted in between leave nothing readable.
pub proof fn lemma_events_live_at_most_one_frame_boundary<E>(q: EventQueues<E>)
    ensures
        q.advanced().advanced() == EventQueues::<E>::empty(),
{
    assert(q.advanced().advanced().current =~= Seq::<E>::empty());
}

} // verus!
