//! The order in which a filter is put on a socket that may already hold packets: first
//! a filter that drops everything, then the queue is emptied, then the filter itself. No
//! packet that arrived before the filter stood can then be read after it.
//!
//! The socket layer does the system calls. This module decides, from what each call
//! returned, which call comes next.

use vstd::prelude::*;
use crate::cbpf::{contradiction, spec_contradiction, SocketFilterProgram};
use crate::system::SystemError;

verus! {

/// Error number of a receive that found the queue empty.
pub const EWOULDBLOCK: i32 = 11;

/// Error number of a call that is to be tried again, on this system the same as
/// [`EWOULDBLOCK`].
pub const EAGAIN: i32 = 11;

/// How far the attachment has come.
#[derive(Debug, Copy, Clone, PartialEq, Eq, Structural)]
pub enum State {
    /// Nothing was done yet.
    Start,
    /// The filter that drops everything is being attached.
    Dropping,
    /// The drop-all filter stands and the queue is being emptied.
    Draining,
    /// The queue is empty and the filter itself is being attached.
    Attaching,
    /// The filter stands.
    Attached,
    /// A call failed with this error. The socket keeps what was attached before it.
    Failed(SystemError),
}

/// What the socket layer reports back.
#[derive(Debug, Copy, Clone, PartialEq, Eq)]
pub enum Event {
    /// The caller asks for the attachment to begin.
    Begin,
    /// An attach call returned.
    Attach(Result<(), SystemError>),
    /// A receive that does not wait returned, with the length of what it read.
    Receive(Result<usize, SystemError>),
}

/// What the socket layer is to do next.
#[derive(Debug, Copy, Clone, PartialEq, Eq, Structural)]
pub enum Action {
    /// Attach the filter of [`drop_all`].
    AttachDropAll,
    /// Receive one packet without waiting and throw it away.
    Receive,
    /// Attach the filter itself.
    AttachFilter,
    /// Nothing: the attachment is over, for good or bad.
    Stop,
}

/// The call that `state` waits for.
pub open spec fn spec_pending(state: State) -> Action {
    match state {
        State::Start => Action::Stop,
        State::Dropping => Action::AttachDropAll,
        State::Draining => Action::Receive,
        State::Attaching => Action::AttachFilter,
        State::Attached => Action::Stop,
        State::Failed(_) => Action::Stop,
    }
}

/// The state after `event` arrived in `state`. An event that `state` does not wait for
/// changes nothing.
pub open spec fn spec_next(state: State, event: Event) -> State {
    match (state, event) {
        (State::Start, Event::Begin) => State::Dropping,
        (State::Dropping, Event::Attach(Ok(_))) => State::Draining,
        (State::Dropping, Event::Attach(Err(e))) => State::Failed(e),
        (State::Draining, Event::Receive(Ok(_))) => State::Draining,
        (State::Draining, Event::Receive(Err(e))) => if e.0 == EWOULDBLOCK || e.0 == EAGAIN {
            State::Attaching
        } else {
            State::Failed(e)
        },
        (State::Attaching, Event::Attach(Ok(_))) => State::Attached,
        (State::Attaching, Event::Attach(Err(e))) => State::Failed(e),
        _ => state,
    }
}

/// The state after each of `events` arrived in turn.
pub open spec fn spec_after(state: State, events: Seq<Event>) -> State
    decreases events.len(),
{
    if events.len() == 0 {
        state
    } else {
        spec_next(spec_after(state, events.drop_last()), events.last())
    }
}

/// The call that `state` waits for.
pub fn pending(state: State) -> (action: Action)
    ensures
        action == spec_pending(state),
{
    match state {
        State::Start => Action::Stop,
        State::Dropping => Action::AttachDropAll,
        State::Draining => Action::Receive,
        State::Attaching => Action::AttachFilter,
        State::Attached => Action::Stop,
        State::Failed(_) => Action::Stop,
    }
}

/// Takes `event` in `state`: gives the state that follows and the call to make next.
pub fn step(state: State, event: Event) -> (r: (State, Action))
    ensures
        r.0 == spec_next(state, event),
        r.1 == spec_pending(r.0),
{
    let next = match (state, event) {
        (State::Start, Event::Begin) => State::Dropping,
        (State::Dropping, Event::Attach(Ok(_))) => State::Draining,
        (State::Dropping, Event::Attach(Err(e))) => State::Failed(e),
        (State::Draining, Event::Receive(Ok(_))) => State::Draining,
        (State::Draining, Event::Receive(Err(e))) => if e.0 == EWOULDBLOCK || e.0 == EAGAIN {
            State::Attaching
        } else {
            State::Failed(e)
        },
        (State::Attaching, Event::Attach(Ok(_))) => State::Attached,
        (State::Attaching, Event::Attach(Err(e))) => State::Failed(e),
        _ => state,
    };
    (next, pending(next))
}

/// The attachable program that drops every packet.
pub fn drop_all() -> (r: SocketFilterProgram)
    ensures
        r@ == spec_contradiction(),
        r.wf(),
{
    SocketFilterProgram::from_vector(contradiction())
}

/// The event tells of an attach call that succeeded.
pub open spec fn attached(event: Event) -> bool {
    event matches Event::Attach(Ok(_))
}

/// The event tells of a receive that found the queue empty.
pub open spec fn found_empty(event: Event) -> bool {
    event matches Event::Receive(Err(e)) && (e.0 == EWOULDBLOCK || e.0 == EAGAIN)
}

/// Some event tells of an attach call that succeeded.
pub open spec fn dropping(events: Seq<Event>) -> bool {
    exists|i: int| 0 <= i < events.len() && attached(#[trigger] events[i])
}

/// The drop-all filter stood and the queue was seen empty: some attach call succeeded,
/// and after it some receive found nothing.
pub open spec fn drained(events: Seq<Event>) -> bool {
    exists|i: int, j: int|
        0 <= i < j < events.len() && attached(#[trigger] events[i]) && found_empty(
            #[trigger] events[j],
        )
}

/// The filter itself is attached only behind the drop-all filter and an empty queue:
/// whatever events arrive from the start on, where the next call is the attachment of the
/// filter, or the filter stands, the events tell of an attach call that succeeded, which
/// was that of the drop-all filter, and of the queue found empty after it.
pub proof fn law_drain_before_attach(events: Seq<Event>)
    ensures
        ({
            let state = spec_after(State::Start, events);
            &&& state == State::Attaching || state == State::Attached ==> drained(events)
            &&& state == State::Draining ==> dropping(events)
        }),
    decreases events.len(),
{
    if events.len() > 0 {
        let before = events.drop_last();
        let last = events.last();
        law_drain_before_attach(before);
        let s = spec_after(State::Start, before);
        let state = spec_after(State::Start, events);
        assert(state == spec_next(s, last));
        assert(events[events.len() - 1] == last);
        if state == State::Draining {
            if s == State::Draining {
                let i = choose|i: int| 0 <= i < before.len() && attached(#[trigger] before[i]);
                assert(events[i] == before[i]);
            } else {
                assert(s == State::Dropping);
                assert(attached(events[events.len() - 1]));
            }
        }
        if state == State::Attaching || state == State::Attached {
            if s == State::Attaching || s == State::Attached {
                let (i, j) = choose|i: int, j: int|
                    0 <= i < j < before.len() && attached(#[trigger] before[i]) && found_empty(
                        #[trigger] before[j],
                    );
                assert(events[i] == before[i]);
                assert(events[j] == before[j]);
            } else {
                assert(s == State::Draining);
                let i = choose|i: int| 0 <= i < before.len() && attached(#[trigger] before[i]);
                assert(events[i] == before[i]);
                assert(found_empty(events[events.len() - 1]));
            }
        }
    }
}

} // verus!
