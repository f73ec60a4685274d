//! Event traces and the detection of non-determinism.
//!
//! During a simulation the runtime reports events. A recording handler keeps
//! them; a validating handler compares them, one by one, with the trace of an
//! earlier run and reports the first divergence.
use vstd::prelude::*;
use crate::id::Id;
use crate::node_id::NodeId;

verus! {

/// Something observable that happened in a simulation.
#[derive(Clone, Copy, PartialEq, Eq, Structural, Debug)]
pub enum Event {
    /// A task was spawned.
    TaskSpawned,
    /// A node was created.
    NodeSpawned(NodeId),
    /// The task with this id was polled.
    TaskRun(Id),
    /// Simulated time advanced by this many nanoseconds.
    TimeAdvanced(u128),
}

/// How a run diverged from the trace it was validated against.
#[derive(Clone, Copy, PartialEq, Eq, Structural, Debug)]
pub enum NonDeterminism {
    /// The run produced an event after the recorded trace had ended.
    UnexpectedEvent { index: usize, got: Event },
    /// The run produced a different event than the recorded one at `index`.
    Mismatch { index: usize, expected: Event, got: Event },
    /// The run ended after `got` events, but the trace holds `expected` events.
    MissingEvents { expected: usize, got: usize },
}

/// A handler that ignores all events.
pub struct NoopEventHandler;

/// A handler that keeps every event, in order.
pub struct RecordingEventHandler {
    pub recorded_events: Vec<Event>,
}

/// A handler that checks every event against a previously recorded trace.
pub struct ValidatingEventHandler {
    pub events_to_validate: Vec<Event>,
    pub next_event_index: usize,
}

/// The event handler of one simulation run.
pub enum EventHandler {
    Noop(NoopEventHandler),
    Recording(RecordingEventHandler),
    Validating(ValidatingEventHandler),
}

/// Feeding `actual` to a validating handler that expects `expected` and has
/// already matched `index` events: the index reached, or `None` at the first
/// divergence.
pub open spec fn validate_events(expected: Seq<Event>, index: int, actual: Seq<Event>) -> Option<int>
    decreases actual.len(),
{
    if actual.len() == 0 {
        Some(index)
    } else if 0 <= index < expected.len() && expected[index] == actual[0] {
        validate_events(expected, index + 1, actual.drop_first())
    } else {
        None
    }
}

/// A whole run that produced `actual` passes validation against `expected`:
/// every event matched and none was missing at the end.
pub open spec fn run_passes_validation(expected: Seq<Event>, actual: Seq<Event>) -> bool {
    validate_events(expected, 0, actual) == Some(expected.len() as int)
}

impl NoopEventHandler {
    /// Ignore the event.
    pub fn handle_event(&mut self, event: Event)
        ensures
            *final(self) == *old(self),
    {
    }

    /// A noop handler yields no trace.
    pub fn finalize(self) -> (events: Vec<Event>)
        ensures
            events@ == Seq::<Event>::empty(),
    {
        Vec::new()
    }
}

impl RecordingEventHandler {
    /// A recording handler that has seen no event yet.
    pub fn new() -> (h: Self)
        ensures
            h.recorded_events@ == Seq::<Event>::empty(),
    {
        RecordingEventHandler { recorded_events: Vec::new() }
    }

    /// Record the event at the end of the trace.
    pub fn handle_event(&mut self, event: Event)
        ensures
            final(self).recorded_events@ == old(self).recorded_events@.push(event),
    {
        self.recorded_events.push(event);
    }

    /// The recorded trace.
    pub fn finalize(self) -> (events: Vec<Event>)
        ensures
            events@ == self.recorded_events@,
    {
        self.recorded_events
    }
}

impl ValidatingEventHandler {
    pub open spec fn wf(&self) -> bool {
        self.next_event_index <= self.events_to_validate@.len()
    }

    /// A validating handler for the trace `previous_events`.
    pub fn new(previous_events: Vec<Event>) -> (h: Self)
        ensures
            h.events_to_validate@ == previous_events@,
            h.next_event_index == 0,
            h.wf(),
    {
        ValidatingEventHandler { events_to_validate: previous_events, next_event_index: 0 }
    }

    /// Compare the event with the next event of the trace.
    pub fn handle_event(&mut self, event: Event) -> (r: Result<(), NonDeterminism>)
        requires
            old(self).wf(),
        ensures
            final(self).wf(),
            final(self).events_to_validate@ == old(self).events_to_validate@,
            ({
                let exp = old(self).events_to_validate@;
                let i = old(self).next_event_index as int;
                match r {
                    Ok(()) => i < exp.len() && exp[i] == event
                        && final(self).next_event_index == i + 1,
                    Err(NonDeterminism::UnexpectedEvent { index, got }) => i >= exp.len()
                        && index == i && got == event,
                    Err(NonDeterminism::Mismatch { index, expected, got }) => i < exp.len()
                        && exp[i] != event && index == i && expected == exp[i] && got == event,
                    Err(NonDeterminism::MissingEvents { .. }) => false,
                }
            }),
            r is Ok <==> validate_events(
                old(self).events_to_validate@,
                old(self).next_event_index as int,
                seq![event],
            ) is Some,
    {
        let current_event = event;
        if self.next_event_index >= self.events_to_validate.len() {
            return Err(NonDeterminism::UnexpectedEvent { index: self.next_event_index, got: current_event });
        }
        let expected = self.events_to_validate[self.next_event_index];
        if current_event != expected {
            return Err(
                NonDeterminism::Mismatch { index: self.next_event_index, expected, got: current_event },
            );
        }
        self.next_event_index += 1;
        proof {
            assert(seq![event].drop_first() =~= Seq::<Event>::empty());
            reveal_with_fuel(validate_events, 2);
        }
        Ok(())
    }

    /// The run has ended: every event of the trace must have been seen.
    pub fn finalize(self) -> (r: Result<Vec<Event>, NonDeterminism>)
        ensures
            match r {
                Ok(v) => self.next_event_index == self.events_to_validate@.len()
                    && v@ == Seq::<Event>::empty(),
                Err(e) => self.next_event_index != self.events_to_validate@.len()
                    && e == (NonDeterminism::MissingEvents {
                        expected: self.events_to_validate@.len() as usize,
                        got: self.next_event_index,
                    }),
            },
    {
        let index = self.next_event_index;
        let len = self.events_to_validate.len();
        if index != len {
            return Err(NonDeterminism::MissingEvents { expected: len, got: index });
        }
        Ok(Vec::new())
    }
}

impl EventHandler {
    pub open spec fn wf(&self) -> bool {
        match self {
            EventHandler::Validating(v) => v.wf(),
            _ => true,
        }
    }

    /// The handler of a run without determinism check.
    pub fn noop() -> (h: Self)
        ensures
            h is Noop,
    {
        EventHandler::Noop(NoopEventHandler)
    }

    /// Pass the event to the handler.
    pub fn handle_event(&mut self, event: Event) -> (r: Result<(), NonDeterminism>)
        requires
            old(self).wf(),
        ensures
            final(self).wf(),
            handled(*old(self), event, *final(self), r),
    {
        match self {
            EventHandler::Noop(h) => {
                h.handle_event(event);
                Ok(())
            },
            EventHandler::Recording(h) => {
                h.handle_event(event);
                Ok(())
            },
            EventHandler::Validating(h) => h.handle_event(event),
        }
    }

    /// End the run: the recorded trace, or the divergence of a validated run.
    pub fn finalize(self) -> (r: Result<Vec<Event>, NonDeterminism>)
        requires
            self.wf(),
        ensures
            match r {
                Ok(v) => finalize_spec(self) == Ok::<Seq<Event>, NonDeterminism>(v@),
                Err(e) => finalize_spec(self) == Err::<Seq<Event>, NonDeterminism>(e),
            },
            match self {
                EventHandler::Noop(_) => r is Ok && r->Ok_0@ == Seq::<Event>::empty(),
                EventHandler::Recording(h) => r is Ok && r->Ok_0@ == h.recorded_events@,
                EventHandler::Validating(h) => match r {
                    Ok(v) => h.next_event_index == h.events_to_validate@.len()
                        && v@ == Seq::<Event>::empty(),
                    Err(e) => h.next_event_index != h.events_to_validate@.len()
                        && e == (NonDeterminism::MissingEvents {
                            expected: h.events_to_validate@.len() as usize,
                            got: h.next_event_index,
                        }),
                },
            },
    {
        match self {
            EventHandler::Noop(h) => Ok(h.finalize()),
            EventHandler::Recording(h) => Ok(h.finalize()),
            EventHandler::Validating(h) => h.finalize(),
        }
    }
}

/// The verdict of a handler at the end of a run: the trace it recorded
/// (empty unless it records), or the divergence it found.
pub open spec fn finalize_spec(h: EventHandler) -> Result<Seq<Event>, NonDeterminism> {
    match h {
        EventHandler::Noop(_) => Ok(Seq::empty()),
        EventHandler::Recording(r) => Ok(r.recorded_events@),
        EventHandler::Validating(v) => if v.next_event_index == v.events_to_validate@.len() {
            Ok(Seq::empty())
        } else {
            Err(
                NonDeterminism::MissingEvents {
                    expected: v.events_to_validate@.len() as usize,
                    got: v.next_event_index,
                },
            )
        },
    }
}

/// What one call of [EventHandler::handle_event] does: a noop handler
/// accepts, a recording handler appends, a validating handler advances by one
/// on a match and reports a divergence otherwise.
pub open spec fn handled(pre: EventHandler, event: Event, post: EventHandler, r: Result<(), NonDeterminism>) -> bool {
    match pre {
        EventHandler::Noop(_) => post is Noop && r is Ok,
        EventHandler::Recording(h) => post is Recording && r is Ok
            && post->Recording_0.recorded_events@ == h.recorded_events@.push(event),
        EventHandler::Validating(h) => post is Validating
            && post->Validating_0.events_to_validate@ == h.events_to_validate@
            && (r is Ok <==> validate_events(h.events_to_validate@, h.next_event_index as int, seq![event]) is Some)
            && (r is Ok ==> post->Validating_0.next_event_index == h.next_event_index + 1)
            && (r is Err ==> r->Err_0 == (if h.next_event_index >= h.events_to_validate@.len() {
                NonDeterminism::UnexpectedEvent { index: h.next_event_index, got: event }
            } else {
                NonDeterminism::Mismatch {
                    index: h.next_event_index,
                    expected: h.events_to_validate@[h.next_event_index as int],
                    got: event,
                }
            })),
    }
}

/// Validating events one at a time is the same as validating them all at
/// once: feeding `a + b` succeeds exactly when feeding `a` succeeds and then
/// feeding `b` from the index reached succeeds.
pub proof fn lemma_validate_concat(expected: Seq<Event>, index: int, a: Seq<Event>, b: Seq<Event>)
    ensures
        validate_events(expected, index, a + b) == (match validate_events(expected, index, a) {
            Some(k) => validate_events(expected, k, b),
            None => None,
        }),
    decreases a.len(),
{
    if a.len() == 0 {
        assert(a + b =~= b);
    } else {
        assert((a + b).drop_first() =~= a.drop_first() + b);
        lemma_validate_concat(expected, index + 1, a.drop_first(), b);
    }
}

/// Validation from `index` succeeds exactly when `actual` is the part of the
/// trace that starts at `index`, and then reaches `index + actual.len()`.
pub proof fn lemma_validate_matches_slice(expected: Seq<Event>, index: int, actual: Seq<Event>)
    requires
        0 <= index <= expected.len(),
    ensures
        validate_events(expected, index, actual) is Some <==> (index + actual.len() <= expected.len()
            && actual =~= expected.subrange(index, index + actual.len())),
        validate_events(expected, index, actual) is Some ==> validate_events(expected, index, actual)
            == Some(index + actual.len()),
    decreases actual.len(),
{
    if actual.len() == 0 {
    } else if index == expected.len() {
    } else {
        lemma_validate_matches_slice(expected, index + 1, actual.drop_first());
        if validate_events(expected, index, actual) is Some {
            assert(index < expected.len() && expected[index] == actual[0]);
            assert forall|k: int| 0 <= k < actual.len() implies actual[k] == expected.subrange(
                index,
                index + actual.len(),
            )[k] by {
                if k > 0 {
                    assert(actual[k] == actual.drop_first()[k - 1]);
                }
            }
        } else if index + actual.len() <= expected.len() && actual =~= expected.subrange(
            index,
            index + actual.len(),
        ) {
            assert(actual[0] == expected[index]);
            assert(actual.drop_first() =~= expected.subrange(index + 1, index + actual.len()));
        }
    }
}

/// The determinism check: a run passes validation against a recorded trace
/// exactly when it produces the very same sequence of events. In particular
/// a trace recorded by one run is accepted when a later run repeats it, and
/// any difference (a changed, an extra or a missing event) is reported.
pub proof fn lemma_validation_accepts_exactly_the_recorded_trace(expected: Seq<Event>, actual: Seq<Event>)
    ensures
        run_passes_validation(expected, actual) <==> actual == expected,
{
    lemma_validate_matches_slice(expected, 0, actual);
    if actual == expected {
        assert(actual =~= expected.subrange(0, actual.len() as int));
    }
    if run_passes_validation(expected, actual) {
        assert(actual.len() == expected.len());
        assert(actual =~= expected.subrange(0, actual.len() as int));
        assert(expected.subrange(0, expected.len() as int) =~= expected);
    }
}

} // verus!
