use wireless_bridge::network_manager::wireless_enabled::{
    poll_action, run_bridge, start_listening, ListenOutcome, PollAction, State,
};
use wireless_bridge::network_manager::{NetworkManagerEvent, NetworkManagerState};

fn enabled() -> NetworkManagerState {
    NetworkManagerState {
        wireless_enabled: true,
    }
}

fn disabled() -> NetworkManagerState {
    NetworkManagerState {
        wireless_enabled: false,
    }
}

#[test]
fn one_notification_emits_one_event() {
    let id: u64 = 42;
    let conn: u32 = 5;
    let action = poll_action(State::Continue(conn));
    let live_conn: u32 = match action {
        PollAction::Listen(c) => c,
        PollAction::Suspend => panic!("a live bridge must listen, not suspend"),
    };
    assert_eq!(live_conn, conn);
    let (event, state) = start_listening(id, live_conn, ListenOutcome::Notified(Some(enabled())));
    assert_eq!(event, Some((id, NetworkManagerEvent::WiFiEnabled(enabled()))));
    match state {
        State::Continue(c) => assert_eq!(c, conn),
        State::Error => panic!("a successful cycle must keep the connection"),
    }
}

#[test]
fn proxy_failure_silences_forever() {
    let id: u64 = 7;
    let conn: u32 = 1;
    let (event, state) = start_listening(id, conn, ListenOutcome::ProxyFailed);
    assert_eq!(event, None);
    assert!(matches!(state, State::Error));
    let mut polls: usize = 0;
    let mut st: State<u32> = state;
    while polls < 25 {
        st = match poll_action(st) {
            PollAction::Suspend => State::Error,
            PollAction::Listen(_) => panic!("an inert bridge must never listen again"),
        };
        polls += 1;
    }
    let many: Vec<ListenOutcome> = vec![ListenOutcome::Notified(Some(enabled())); 10];
    let (events, final_state) = run_bridge(id, st, many);
    assert!(events.is_empty());
    assert!(matches!(final_state, State::Error));
}

#[test]
fn two_notifications_emit_in_order() {
    let id: u64 = 3;
    let conn: u32 = 9;
    let outcomes: Vec<ListenOutcome> = vec![
        ListenOutcome::Notified(Some(enabled())),
        ListenOutcome::Notified(Some(disabled())),
    ];
    let (events, state) = run_bridge(id, State::Continue(conn), outcomes);
    assert_eq!(
        events,
        vec![
            (id, NetworkManagerEvent::WiFiEnabled(enabled())),
            (id, NetworkManagerEvent::WiFiEnabled(disabled())),
        ]
    );
    assert!(matches!(state, State::Continue(c) if c == conn));
}

#[test]
fn every_notification_emits_tagged_event() {
    let id: u64 = 11;
    let conn: u32 = 2;
    let mut outcomes: Vec<ListenOutcome> = Vec::new();
    let mut i: usize = 0;
    while i < 5 {
        let snapshot = NetworkManagerState {
            wireless_enabled: i % 2 == 0,
        };
        outcomes.push(ListenOutcome::Notified(Some(snapshot)));
        i += 1;
    }
    let (events, state) = run_bridge(id, State::Continue(conn), outcomes);
    assert_eq!(events.len(), 5);
    let mut j: usize = 0;
    while j < 5 {
        let expected = NetworkManagerState {
            wireless_enabled: j % 2 == 0,
        };
        assert_eq!(events[j], (id, NetworkManagerEvent::WiFiEnabled(expected)));
        j += 1;
    }
    assert!(matches!(state, State::Continue(c) if c == conn));
}

#[test]
fn failure_mid_stream_stops_events() {
    let id: u64 = 8;
    let conn: u32 = 4;
    let outcomes: Vec<ListenOutcome> = vec![
        ListenOutcome::Notified(Some(enabled())),
        ListenOutcome::ProxyFailed,
        ListenOutcome::Notified(Some(disabled())),
        ListenOutcome::Notified(None),
    ];
    let (events, state) = run_bridge(id, State::Continue(conn), outcomes);
    assert_eq!(events, vec![(id, NetworkManagerEvent::WiFiEnabled(enabled()))]);
    assert!(matches!(state, State::Error));
}

#[test]
fn fetch_failure_yields_default_snapshot() {
    let id: u64 = 1;
    let conn: u32 = 6;
    let (event, state) = start_listening(id, conn, ListenOutcome::Notified(None));
    assert_eq!(
        event,
        Some((id, NetworkManagerEvent::WiFiEnabled(disabled())))
    );
    assert!(matches!(state, State::Continue(c) if c == conn));
}

#[test]
fn default_snapshot_is_wireless_disabled() {
    let snapshot: NetworkManagerState = Default::default();
    assert!(!snapshot.wireless_enabled);
    assert_eq!(snapshot, disabled());
}

#[test]
fn identifier_carried_unchanged() {
    let id: (u8, u16) = (3, 250);
    let conn: u32 = 0;
    let outcomes: Vec<ListenOutcome> = vec![
        ListenOutcome::Notified(Some(enabled())),
        ListenOutcome::Notified(None),
        ListenOutcome::Notified(Some(disabled())),
    ];
    let (events, _state) = run_bridge(id, State::Continue(conn), outcomes);
    assert_eq!(events.len(), 3);
    for event in &events {
        assert_eq!(event.0, id);
    }
}

#[test]
fn identifier_generic_over_char() {
    let id: char = 'w';
    let conn: &str = "system bus";
    let (event, _state) = start_listening(id, conn, ListenOutcome::Notified(Some(enabled())));
    assert_eq!(event, Some(('w', NetworkManagerEvent::WiFiEnabled(enabled()))));
}

#[test]
fn poll_action_suspends_only_when_inert() {
    let live: State<u32> = State::Continue(77);
    match poll_action(live) {
        PollAction::Listen(c) => assert_eq!(c, 77),
        PollAction::Suspend => panic!("a live bridge must listen"),
    }
    let inert: State<u32> = State::Error;
    assert!(matches!(poll_action(inert), PollAction::Suspend));
}

#[test]
fn run_bridge_with_no_outcomes_emits_nothing() {
    let id: u64 = 5;
    let conn: u32 = 3;
    let (events, state) = run_bridge(id, State::Continue(conn), Vec::new());
    assert!(events.is_empty());
    assert!(matches!(state, State::Continue(c) if c == conn));
}
