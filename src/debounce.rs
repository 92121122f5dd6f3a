//! The debouncer: turns the stream of completion events into at most one
//! pending trigger and at most one request in flight, and says after each
//! event how long to wait before firing.
use vstd::prelude::*;
use crate::trigger::{CompletionConfig, CompletionEvent, DocumentId, Trigger, TriggerKind, ViewId};

verus! {

/// The shortest wait: it only coalesces bursts of events.
pub const DEBOUNCE_FLOOR_MS: u64 = 5;

/// Identifies one dispatched completion request. The host keeps the request's
/// cancel handle under this identifier and drops it as soon as the handler no
/// longer holds the identifier.
#[derive(Debug, Clone, Copy, PartialEq, Eq, Structural, Hash)]
pub struct RequestId(pub u64);

/// A request to dispatch now.
#[derive(Debug, Clone, Copy, PartialEq, Eq, Structural)]
pub struct Dispatch {
    pub trigger: Trigger,
    pub request: RequestId,
}

/// What the host does after handing an event to the handler.
#[derive(Debug, Clone, Copy, PartialEq, Eq, Structural)]
pub enum DebounceStep {
    /// Nothing is pending: no deadline.
    Idle,
    /// Call `finish_debounce` once this many milliseconds pass without another event.
    Wait { timeout_ms: u64 },
    /// A request was dispatched at once, without a deadline.
    Fire(Dispatch),
}

/// The debouncing state machine.
#[derive(Debug)]
pub struct CompletionHandler {
    /// The trigger that fires once the deadline passes.
    trigger: Option<Trigger>,
    /// The request in flight, if any: dropping it cancels the request.
    request: Option<RequestId>,
    /// The identifier the next dispatched request gets.
    next_request: u64,
}

/// The wait before a pending trigger of kind `kind` fires: the configured
/// timeout for an automatic trigger that interrupts no open request, else the
/// floor.
pub open spec fn debounce_delay(
    kind: TriggerKind,
    request: Option<RequestId>,
    request_closed: bool,
    config: CompletionConfig,
) -> u64 {
    if kind == TriggerKind::Auto && !(request is Some && !request_closed) {
        config.completion_timeout_ms
    } else {
        DEBOUNCE_FLOOR_MS
    }
}

/// The identifier after `n`, wrapping around at the end of the range.
pub open spec fn following(n: u64) -> u64 {
    if n == u64::MAX {
        0
    } else {
        (n + 1) as u64
    }
}

/// How one event changes the handler (`before` to `after`) and what the
/// host is told to do (`r`).
pub open spec fn event_effect(
    before: CompletionHandler,
    after: CompletionHandler,
    event: CompletionEvent,
    request_closed: bool,
    config: CompletionConfig,
    r: DebounceStep,
) -> bool {
    match event {
        CompletionEvent::AutoTrigger { cursor, doc, view } => {
            let t = match before.pending() {
                Some(p) if p.doc == doc && p.view == view => p,
                _ => Trigger { pos: cursor, view, doc, kind: TriggerKind::Auto },
            };
            &&& after.pending() == Some(t)
            &&& after.in_flight() is None
            &&& after.next_id() == before.next_id()
            &&& r == DebounceStep::Wait {
                timeout_ms: debounce_delay(t.kind, before.in_flight(), request_closed, config),
            }
        },
        CompletionEvent::TriggerChar { cursor, doc, view } => {
            &&& after.pending() == Some(
                Trigger { pos: cursor, view, doc, kind: TriggerKind::TriggerChar },
            )
            &&& after.in_flight() is None
            &&& after.next_id() == before.next_id()
            &&& r == DebounceStep::Wait { timeout_ms: DEBOUNCE_FLOOR_MS }
        },
        CompletionEvent::ManualTrigger { cursor, doc, view } => {
            let d = Dispatch {
                trigger: Trigger { pos: cursor, view, doc, kind: TriggerKind::Manual },
                request: RequestId(before.next_id()),
            };
            &&& after.pending() is None
            &&& after.in_flight() == Some(d.request)
            &&& after.next_id() == following(before.next_id())
            &&& r == DebounceStep::Fire(d)
        },
        CompletionEvent::Cancel => {
            &&& after.pending() is None
            &&& after.in_flight() is None
            &&& after.next_id() == before.next_id()
            &&& r == DebounceStep::Idle
        },
        CompletionEvent::DeleteText { cursor } => {
            &&& after.next_id() == before.next_id()
            &&& match before.pending() {
                Some(t) => if cursor < t.pos {
                    &&& after.pending() is None
                    &&& after.in_flight() is None
                    &&& r == DebounceStep::Idle
                } else {
                    &&& after.pending() == Some(t)
                    &&& after.in_flight() is None
                    &&& r == DebounceStep::Wait {
                        timeout_ms: debounce_delay(t.kind, before.in_flight(), request_closed, config),
                    }
                },
                None => {
                    &&& after.pending() is None
                    &&& after.in_flight() == before.in_flight()
                    &&& r == DebounceStep::Idle
                },
            }
        },
    }
}

impl CompletionHandler {
    /// The pending trigger.
    pub closed spec fn pending(&self) -> Option<Trigger> {
        self.trigger
    }

    /// The request in flight.
    pub closed spec fn in_flight(&self) -> Option<RequestId> {
        self.request
    }

    /// The identifier the next dispatched request gets.
    pub closed spec fn next_id(&self) -> u64 {
        self.next_request
    }

    pub fn new() -> (r: CompletionHandler)
        ensures
            r.pending() is None,
            r.in_flight() is None,
            r.next_id() == 0,
    {
        CompletionHandler { trigger: None, request: None, next_request: 0 }
    }

    pub fn trigger(&self) -> (r: Option<Trigger>)
        ensures
            r == self.pending(),
    {
        self.trigger
    }

    pub fn request(&self) -> (r: Option<RequestId>)
        ensures
            r == self.in_flight(),
    {
        self.request
    }

    /// Whether `id` is the request in flight; a request that is not must not
    /// touch the editor any more.
    pub fn is_live(&self, id: RequestId) -> (r: bool)
        ensures
            r == (self.in_flight() == Some(id)),
    {
        match self.request {
            Some(cur) => cur.0 == id.0,
            None => false,
        }
    }

    /// Fires the pending trigger: it becomes a new request in flight, which
    /// replaces (and so cancels) the previous one.
    pub fn finish_debounce(&mut self) -> (r: Dispatch)
        requires
            old(self).pending() is Some,
        ensures
            r.trigger == old(self).pending()->0,
            r.request == RequestId(old(self).next_id()),
            final(self).pending() is None,
            final(self).in_flight() == Some(r.request),
            final(self).next_id() == following(old(self).next_id()),
    {
        let trigger = self.trigger.unwrap();
        let id = RequestId(self.next_request);
        self.trigger = None;
        self.request = Some(id);
        self.next_request = if self.next_request == u64::MAX { 0 } else { self.next_request + 1 };
        Dispatch { trigger, request: id }
    }

    /// Drops the request in flight and returns the wait for the pending
    /// trigger.
    fn restart(&mut self, request_closed: bool, config: &CompletionConfig) -> (r: DebounceStep)
        ensures
            final(self).pending() == old(self).pending(),
            final(self).next_id() == old(self).next_id(),
            match old(self).pending() {
                Some(t) => {
                    &&& final(self).in_flight() is None
                    &&& r == DebounceStep::Wait {
                        timeout_ms: debounce_delay(t.kind, old(self).in_flight(), request_closed, *config),
                    }
                },
                None => final(self).in_flight() == old(self).in_flight() && r == DebounceStep::Idle,
            },
    {
        match self.trigger {
            Some(t) => {
                let cancel = self.request.is_some() && !request_closed;
                self.request = None;
                let timeout_ms = if t.kind == TriggerKind::Auto && !cancel {
                    config.completion_timeout_ms
                } else {
                    DEBOUNCE_FLOOR_MS
                };
                DebounceStep::Wait { timeout_ms }
            },
            None => DebounceStep::Idle,
        }
    }

    /// Takes one event. `request_closed` tells whether the request in flight
    /// has already finished or been abandoned downstream.
    pub fn handle_event(
        &mut self,
        event: CompletionEvent,
        request_closed: bool,
        config: &CompletionConfig,
    ) -> (r: DebounceStep)
        ensures
            event_effect(*old(self), *final(self), event, request_closed, *config, r),
    {
        match event {
            CompletionEvent::AutoTrigger { cursor, doc, view } => {
                let keep = match self.trigger {
                    Some(t) => t.doc == doc && t.view == view,
                    None => false,
                };
                if !keep {
                    self.trigger = Some(Trigger { pos: cursor, view, doc, kind: TriggerKind::Auto });
                }
            },
            CompletionEvent::TriggerChar { cursor, doc, view } => {
                self.request = None;
                self.trigger = Some(Trigger { pos: cursor, view, doc, kind: TriggerKind::TriggerChar });
            },
            CompletionEvent::ManualTrigger { cursor, doc, view } => {
                self.request = None;
                self.trigger = Some(Trigger { pos: cursor, view, doc, kind: TriggerKind::Manual });
                let d = self.finish_debounce();
                return DebounceStep::Fire(d);
            },
            CompletionEvent::Cancel => {
                self.trigger = None;
                self.request = None;
            },
            CompletionEvent::DeleteText { cursor } => {
                let deleted = match self.trigger {
                    Some(t) => cursor < t.pos,
                    None => false,
                };
                if deleted {
                    self.trigger = None;
                    self.request = None;
                }
            },
        }
        self.restart(request_closed, config)
    }
}

/// The handler never holds more than one request: after any event the
/// request slot is empty, unchanged, or holds the request the event itself
/// dispatched, which replaced the earlier one.
pub proof fn lemma_one_request_in_flight(
    before: CompletionHandler,
    after: CompletionHandler,
    event: CompletionEvent,
    request_closed: bool,
    config: CompletionConfig,
    r: DebounceStep,
)
    requires
        event_effect(before, after, event, request_closed, config, r),
    ensures
        after.in_flight() is None || after.in_flight() == before.in_flight() || (r matches DebounceStep::Fire(
            d,
        ) && after.in_flight() == Some(d.request) && d.request == RequestId(before.next_id())),
        after.pending() is Some ==> after.in_flight() is None,
{
}

/// After `Cancel` nothing is pending and no request is in flight, so every
/// request dispatched before is cancelled.
pub proof fn lemma_cancel_drops_everything(
    before: CompletionHandler,
    after: CompletionHandler,
    request_closed: bool,
    config: CompletionConfig,
    r: DebounceStep,
    earlier: RequestId,
)
    requires
        event_effect(before, after, CompletionEvent::Cancel, request_closed, config, r),
    ensures
        after.pending() is None,
        after.in_flight() != Some(earlier),
        r == DebounceStep::Idle,
{
}

/// Deleting text before the pending trigger's position leaves no deadline.
pub proof fn lemma_delete_before_trigger(
    before: CompletionHandler,
    after: CompletionHandler,
    cursor: usize,
    request_closed: bool,
    config: CompletionConfig,
    r: DebounceStep,
)
    requires
        event_effect(before, after, CompletionEvent::DeleteText { cursor }, request_closed, config, r),
        before.pending() matches Some(t) && cursor < t.pos,
    ensures
        r == DebounceStep::Idle,
        after.pending() is None,
        after.in_flight() is None,
{
}

/// A manual trigger dispatches its request at once, with no deadline.
pub proof fn lemma_manual_is_immediate(
    before: CompletionHandler,
    after: CompletionHandler,
    cursor: usize,
    doc: DocumentId,
    view: ViewId,
    request_closed: bool,
    config: CompletionConfig,
    r: DebounceStep,
)
    requires
        event_effect(
            before,
            after,
            CompletionEvent::ManualTrigger { cursor, doc, view },
            request_closed,
            config,
            r,
        ),
    ensures
        r == DebounceStep::Fire(
            Dispatch {
                trigger: Trigger { pos: cursor, view, doc, kind: TriggerKind::Manual },
                request: RequestId(before.next_id()),
            },
        ),
        after.in_flight() == Some(RequestId(before.next_id())),
        after.pending() is None,
{
}

} // verus!
