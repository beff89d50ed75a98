//! The subscription bridge for the "wireless enabled" property.
//!
//! The bridge is a pull-based state machine. On each pull the runtime asks
//! the bridge what to do (`poll_action`), performs the one listen cycle the
//! bridge requested — construct a proxy to the remote device-management
//! object, wait for a single change notification, re-fetch a fresh snapshot —
//! and reports what it observed as a `ListenOutcome`. The bridge then decides
//! (`start_listening`) which event, if any, to emit and what its next state
//! is. A proxy-construction failure latches the bridge into the permanently
//! inert `Error` state: `Error` has no outgoing transition.

use vstd::prelude::*;

use crate::network_manager::{NetworkManagerEvent, NetworkManagerState};

verus! {

/// Bridge state between pulls: ready to listen again on a live connection,
/// or permanently inert after a proxy-construction failure.
#[derive(Debug, Clone)]
pub enum State<C> {
    Continue(C),
    Error,
}

/// What the runtime must do for the current pull.
#[derive(Debug)]
pub enum PollAction<C> {
    /// Run one listen cycle on this connection and report a `ListenOutcome`.
    Listen(C),
    /// Suspend forever: the bridge is inert and will never emit again.
    Suspend,
}

/// Everything the bridge needs to know about one listen cycle on a live
/// connection.
#[derive(Clone, Copy, Debug)]
pub enum ListenOutcome {
    /// Constructing the proxy to the remote object failed.
    ProxyFailed,
    /// One change notification arrived (its payload is only a trigger and is
    /// ignored); the field holds the fresh snapshot re-fetched afterwards, or
    /// `None` when that re-fetch failed.
    Notified(Option<NetworkManagerState>),
}

/// The snapshot an event carries: the freshly fetched one, or the default
/// when the re-fetch failed.
pub open spec fn snapshot_or_default(fetched: Option<NetworkManagerState>) -> NetworkManagerState {
    match fetched {
        Some(s) => s,
        None => NetworkManagerState::default_spec(),
    }
}

/// One listen cycle on a live connection: the event emitted (if any) and the
/// successor state.
pub open spec fn step<I, C>(id: I, conn: C, outcome: ListenOutcome) -> (Option<
    (I, NetworkManagerEvent),
>, State<C>) {
    match outcome {
        ListenOutcome::ProxyFailed => (None, State::Error),
        ListenOutcome::Notified(fetched) => (
            Some((id, NetworkManagerEvent::WiFiEnabled(snapshot_or_default(fetched)))),
            State::Continue(conn),
        ),
    }
}

/// The events the bridge emits when it is driven, starting from `state`,
/// through one listen cycle per observed outcome.
///
/// A bridge in `Error` suspends forever: it consumes no outcome and emits
/// nothing, however often it is polled.
pub open spec fn run_events<I, C>(id: I, state: State<C>, outcomes: Seq<ListenOutcome>) -> Seq<
    (I, NetworkManagerEvent),
>
    decreases outcomes.len(),
{
    if outcomes.len() == 0 {
        Seq::empty()
    } else {
        match state {
            State::Error => Seq::empty(),
            State::Continue(conn) => {
                let stepped = step(id, conn, outcomes[0]);
                let rest = run_events(id, stepped.1, outcomes.drop_first());
                match stepped.0 {
                    Some(e) => seq![e] + rest,
                    None => rest,
                }
            },
        }
    }
}

/// The state the bridge is left in after being driven, starting from `state`,
/// through one listen cycle per observed outcome.
pub open spec fn run_state<I, C>(id: I, state: State<C>, outcomes: Seq<ListenOutcome>) -> State<C>
    decreases outcomes.len(),
{
    if outcomes.len() == 0 {
        state
    } else {
        match state {
            State::Error => State::Error,
            State::Continue(conn) => run_state(
                id,
                step(id, conn, outcomes[0]).1,
                outcomes.drop_first(),
            ),
        }
    }
}

/// Decide what the current pull does: listen on the connection held by a
/// `Continue` state, or suspend forever once the bridge is in `Error`.
pub fn poll_action<C>(state: State<C>) -> (r: PollAction<C>)
    ensures
        state is Error <==> r is Suspend,
        state matches State::Continue(conn) ==> r == PollAction::Listen(conn),
        r matches PollAction::Listen(conn) ==> state == State::Continue(conn),
{
    match state {
        State::Continue(conn) => PollAction::Listen(conn),
        State::Error => PollAction::Suspend,
    }
}

/// Conclude one listen cycle: on a proxy failure emit nothing and latch into
/// `Error`; on a notification emit exactly one event carrying the caller's
/// identifier unchanged and the fresh snapshot (or the default when the
/// re-fetch failed), and keep the connection for the next cycle.
pub fn start_listening<I: Copy, C>(id: I, conn: C, outcome: ListenOutcome) -> (r: (
    Option<(I, NetworkManagerEvent)>,
    State<C>,
))
    ensures
        r == step(id, conn, outcome),
        outcome is ProxyFailed ==> r.0 is None && r.1 is Error,
        outcome matches ListenOutcome::Notified(fetched) ==> r.0 == Some(
            (id, NetworkManagerEvent::WiFiEnabled(snapshot_or_default(fetched))),
        ) && r.1 == State::Continue(conn),
        outcome == ListenOutcome::Notified(None::<NetworkManagerState>) ==> r.0 == Some(
            (id, NetworkManagerEvent::WiFiEnabled(NetworkManagerState::default_spec())),
        ),
{
    match outcome {
        ListenOutcome::ProxyFailed => (None, State::Error),
        ListenOutcome::Notified(fetched) => {
            let snapshot = match fetched {
                Some(s) => s,
                None => NetworkManagerState::default(),
            };
            (Some((id, NetworkManagerEvent::WiFiEnabled(snapshot))), State::Continue(conn))
        },
    }
}

/// Drive the bridge through one listen cycle per recorded outcome and collect
/// every event it emits, in emission order, together with its final state.
///
/// Once the bridge is inert it consumes no further outcome: a real runtime
/// would suspend forever at that point.
pub fn run_bridge<I: Copy, C>(id: I, state: State<C>, outcomes: Vec<ListenOutcome>) -> (r: (
    Vec<(I, NetworkManagerEvent)>,
    State<C>,
))
    ensures
        r.0@ == run_events(id, state, outcomes@),
        r.1 == run_state(id, state, outcomes@),
{
    let ghost state0 = state;
    let mut events: Vec<(I, NetworkManagerEvent)> = Vec::new();
    let mut st = state;
    let mut i: usize = 0;
    proof {
        assert(outcomes@.skip(0) =~= outcomes@);
        assert(events@ + run_events(id, st, outcomes@) =~= run_events(id, st, outcomes@));
    }
    while i < outcomes.len()
        invariant
            0 <= i <= outcomes.len(),
            run_events(id, state0, outcomes@) == events@ + run_events(
                id,
                st,
                outcomes@.skip(i as int),
            ),
            run_state(id, state0, outcomes@) == run_state(id, st, outcomes@.skip(i as int)),
        ensures
            st is Error || i == outcomes.len(),
            run_events(id, state0, outcomes@) == events@ + run_events(
                id,
                st,
                outcomes@.skip(i as int),
            ),
            run_state(id, state0, outcomes@) == run_state(id, st, outcomes@.skip(i as int)),
        decreases outcomes.len() - i,
    {
        match poll_action(st) {
            PollAction::Suspend => {
                st = State::Error;
                break;
            },
            PollAction::Listen(conn) => {
                proof {
                    assert(outcomes@.skip(i as int).drop_first() =~= outcomes@.skip(i as int + 1));
                    assert(outcomes@.skip(i as int)[0] == outcomes@[i as int]);
                }
                let (ev, next) = start_listening(id, conn, outcomes[i]);
                match ev {
                    Some(e) => {
                        let ghost events_before = events@;
                        events.push(e);
                        proof {
                            assert(events@ =~= events_before + seq![e]);
                            assert(events_before + (seq![e] + run_events(
                                id,
                                next,
                                outcomes@.skip(i as int + 1),
                            )) =~= events@ + run_events(id, next, outcomes@.skip(i as int + 1)));
                        }
                    },
                    None => {},
                }
                st = next;
                i = i + 1;
            },
        }
    }
    proof {
        if i == outcomes.len() {
            assert(outcomes@.skip(i as int) =~= Seq::<ListenOutcome>::empty());
        }
        assert(events@ + Seq::<(I, NetworkManagerEvent)>::empty() =~= events@);
    }
    (events, st)
}

/// Law: with a live connection, a run over consecutive notifications emits
/// exactly one event per notification, in observation order, each carrying
/// the caller's identifier and that cycle's snapshot (or the default where
/// the re-fetch failed), and the bridge stays ready on the same connection.
pub proof fn lemma_live_run_emits_each_notification<I, C>(
    id: I,
    conn: C,
    outcomes: Seq<ListenOutcome>,
)
    requires
        forall|i: int| 0 <= i < outcomes.len() ==> (#[trigger] outcomes[i]) is Notified,
    ensures
        run_events(id, State::Continue(conn), outcomes).len() == outcomes.len(),
        forall|i: int|
            0 <= i < outcomes.len() ==> #[trigger] run_events(id, State::Continue(conn), outcomes)[i]
                == (id, NetworkManagerEvent::WiFiEnabled(snapshot_or_default(outcomes[i]->0))),
        run_state(id, State::Continue(conn), outcomes) == State::Continue(conn),
    decreases outcomes.len(),
{
    if outcomes.len() > 0 {
        let rest = outcomes.drop_first();
        assert forall|j: int| 0 <= j < rest.len() implies (#[trigger] rest[j]) is Notified by {
            assert(outcomes[j + 1] is Notified);
        }
        lemma_live_run_emits_each_notification(id, conn, rest);
        let e0 = (id, NetworkManagerEvent::WiFiEnabled(snapshot_or_default(outcomes[0]->0)));
        assert(run_events(id, State::Continue(conn), outcomes) == seq![e0] + run_events(
            id,
            State::Continue(conn),
            rest,
        ));
        assert forall|i: int| 0 <= i < outcomes.len() implies #[trigger] run_events(
            id,
            State::Continue(conn),
            outcomes,
        )[i] == (id, NetworkManagerEvent::WiFiEnabled(snapshot_or_default(outcomes[i]->0))) by {
            if i > 0 {
                assert(rest[i - 1] == outcomes[i]);
                assert(run_events(id, State::Continue(conn), outcomes)[i] == run_events(
                    id,
                    State::Continue(conn),
                    rest,
                )[i - 1]);
            }
        }
    }
}

/// Law: a bridge in the inert `Error` state never emits another event and
/// never leaves `Error`, however many further cycles are observed.
pub proof fn lemma_error_state_is_permanent<I, C>(id: I, outcomes: Seq<ListenOutcome>)
    ensures
        run_events(id, State::<C>::Error, outcomes) == Seq::<(I, NetworkManagerEvent)>::empty(),
        run_state(id, State::<C>::Error, outcomes) is Error,
{
}

/// Law: once the first proxy-construction failure occurs, the run emits
/// exactly the events of the notifications that preceded it — nothing
/// observed after the failure is ever emitted — and the bridge ends inert.
pub proof fn lemma_proxy_failure_silences_bridge<I, C>(
    id: I,
    conn: C,
    outcomes: Seq<ListenOutcome>,
    k: int,
)
    requires
        0 <= k < outcomes.len(),
        outcomes[k] is ProxyFailed,
        forall|i: int| 0 <= i < k ==> (#[trigger] outcomes[i]) is Notified,
    ensures
        run_events(id, State::Continue(conn), outcomes) == run_events(
            id,
            State::Continue(conn),
            outcomes.take(k),
        ),
        run_events(id, State::Continue(conn), outcomes).len() == k,
        run_state(id, State::Continue(conn), outcomes) is Error,
    decreases k,
{
    if k == 0 {
        lemma_error_state_is_permanent::<I, C>(id, outcomes.drop_first());
        assert(outcomes.take(0) =~= Seq::<ListenOutcome>::empty());
    } else {
        let rest = outcomes.drop_first();
        assert forall|j: int| 0 <= j < k - 1 implies (#[trigger] rest[j]) is Notified by {
            assert(outcomes[j + 1] is Notified);
        }
        assert(rest[k - 1] == outcomes[k]);
        lemma_proxy_failure_silences_bridge(id, conn, rest, k - 1);
        let e0 = (id, NetworkManagerEvent::WiFiEnabled(snapshot_or_default(outcomes[0]->0)));
        assert(run_events(id, State::Continue(conn), outcomes) == seq![e0] + run_events(
            id,
            State::Continue(conn),
            rest,
        ));
        assert(outcomes.take(k)[0] == outcomes[0]);
        assert(outcomes.take(k).drop_first() =~= rest.take(k - 1));
        assert(run_events(id, State::Continue(conn), outcomes.take(k)) == seq![e0] + run_events(
            id,
            State::Continue(conn),
            rest.take(k - 1),
        ));
    }
}

/// Law: every event the bridge ever emits carries the caller's identifier
/// unchanged, from any starting state and for any observed outcomes.
pub proof fn lemma_identifier_preserved<I, C>(id: I, state: State<C>, outcomes: Seq<ListenOutcome>)
    ensures
        forall|i: int|
            0 <= i < run_events(id, state, outcomes).len() ==> (#[trigger] run_events(
                id,
                state,
                outcomes,
            )[i]).0 == id,
    decreases outcomes.len(),
{
    if outcomes.len() > 0 {
        match state {
            State::Error => {},
            State::Continue(conn) => {
                let stepped = step(id, conn, outcomes[0]);
                lemma_identifier_preserved(id, stepped.1, outcomes.drop_first());
                assert forall|i: int|
                    0 <= i < run_events(id, state, outcomes).len() implies (#[trigger] run_events(
                    id,
                    state,
                    outcomes,
                )[i]).0 == id by {
                    let rest_events = run_events(id, stepped.1, outcomes.drop_first());
                    match stepped.0 {
                        Some(_) => {
                            if i > 0 {
                                assert(run_events(id, state, outcomes)[i] == rest_events[i - 1]);
                            }
                        },
                        None => {
                            assert(run_events(id, state, outcomes)[i] == rest_events[i]);
                        },
                    }
                }
            },
        }
    }
}

} // verus!
