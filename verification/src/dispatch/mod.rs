//! The conversations between the node and the application in front of it: actions
//! come in, events go out.
use vstd::prelude::*;

pub mod blob;
pub mod establish;
pub mod establish_connection;
pub mod exchange;
pub mod global;

verus! {

/// What travels to a responder.
#[derive(Debug)]
pub enum EventWrapper<E> {
    /// An event for the responder.
    Event(E),
    /// An action has failed.
    Error,
    /// The responder is to hear no more.
    Unregister,
}

/// What is done with what travels to a responder.
#[derive(Debug)]
pub enum ResponderStep<E> {
    /// Hand the event to the responder.
    Respond(E),
    /// Report that an action has failed.
    Report,
    /// Let go of the responder.
    Stop,
}

/// What is done with what travels to a responder.
pub fn respond<E>(wrapped: EventWrapper<E>) -> (step: ResponderStep<E>)
    ensures
        step == step_of(wrapped),
{
    match wrapped {
        EventWrapper::Event(event) => ResponderStep::Respond(event),
        EventWrapper::Error => ResponderStep::Report,
        EventWrapper::Unregister => ResponderStep::Stop,
    }
}

/// What is sent to the responder once an action has ended: the error, if it failed.
pub fn after_action<E, X>(result: Result<(), X>) -> (wrapped: Option<EventWrapper<E>>)
    ensures
        wrapped == (if result is Err {
            Some(EventWrapper::<E>::Error)
        } else {
            None
        }),
{
    match result {
        Ok(_) => None,
        Err(_) => Some(EventWrapper::Error),
    }
}

/// What is done with what travels to a responder.
pub open spec fn step_of<E>(wrapped: EventWrapper<E>) -> ResponderStep<E> {
    match wrapped {
        EventWrapper::Event(event) => ResponderStep::Respond(event),
        EventWrapper::Error => ResponderStep::Report,
        EventWrapper::Unregister => ResponderStep::Stop,
    }
}

/// The events that a responder hears of what travels to it, one after the other until
/// it is let go.
pub open spec fn heard<E>(queue: Seq<EventWrapper<E>>) -> Seq<E>
    decreases queue.len(),
{
    if queue.len() == 0 {
        Seq::empty()
    } else {
        match step_of(queue[0]) {
            ResponderStep::Respond(event) => seq![event] + heard(queue.drop_first()),
            ResponderStep::Report => heard(queue.drop_first()),
            ResponderStep::Stop => Seq::empty(),
        }
    }
}

/// A responder that is let go hears what came before, and nothing that comes after.
pub proof fn nothing_is_heard_after_unregister<E>(
    before: Seq<EventWrapper<E>>,
    after: Seq<EventWrapper<E>>,
)
    ensures
        heard(before.push(EventWrapper::Unregister) + after) == heard(before),
    decreases before.len(),
{
    let queue = before.push(EventWrapper::Unregister) + after;
    if before.len() == 0 {
        assert(queue[0] == EventWrapper::<E>::Unregister);
    } else {
        assert(queue[0] == before[0]);
        assert(queue.drop_first() =~= before.drop_first().push(EventWrapper::Unregister) + after);
        nothing_is_heard_after_unregister(before.drop_first(), after);
    }
}

/// A responder that is not let go hears every event, in order.
pub proof fn every_event_is_heard<E>(events: Seq<E>)
    ensures
        heard(events.map_values(|e: E| EventWrapper::Event(e))) == events,
    decreases events.len(),
{
    let queue = events.map_values(|e: E| EventWrapper::Event(e));
    if events.len() > 0 {
        assert(queue.drop_first() =~= events.drop_first().map_values(
            |e: E| EventWrapper::Event(e),
        ));
        every_event_is_heard(events.drop_first());
        assert(seq![events[0]] + events.drop_first() =~= events);
    }
}

/// An action that has failed is not heard of by the responder, and does not keep it from
/// hearing what follows.
pub proof fn failures_are_passed_over<E>(
    before: Seq<EventWrapper<E>>,
    after: Seq<EventWrapper<E>>,
)
    ensures
        heard(before.push(EventWrapper::Error) + after) == heard(before + after),
    decreases before.len(),
{
    let with = before.push(EventWrapper::Error) + after;
    let without = before + after;
    if before.len() == 0 {
        assert(with[0] == EventWrapper::<E>::Error);
        assert(with.drop_first() =~= after);
        assert(without =~= after);
    } else {
        assert(with[0] == before[0]);
        assert(without[0] == before[0]);
        assert(with.drop_first() =~= before.drop_first().push(EventWrapper::Error) + after);
        assert(without.drop_first() =~= before.drop_first() + after);
        failures_are_passed_over(before.drop_first(), after);
    }
}

} // verus!
