use dmx::session::{Event, Failure, Phase, Session, Step};

fn args(tokens: &[&str]) -> Vec<String> {
    tokens.iter().map(|t| t.to_string()).collect()
}

fn transmitted(step: Step) -> ([u8; 512], bool) {
    match step {
        Step::Transmit { universe, warn_missing_state } => (universe, warn_missing_state),
        other => panic!("expected a transmission, got {:?}", other),
    }
}

#[test]
fn plain_request_is_snapshot() {
    let (session, step) = Session::begin(&args(&["10", "20"])).unwrap();
    assert_eq!(session.phase(), Phase::Transmitting);
    let (u, warn) = transmitted(step);
    assert!(!warn);
    for (c, v) in u.iter().enumerate() {
        let expected = if c == 10 || c == 20 { 200 } else { 0 };
        assert_eq!(*v, expected, "channel {}", c);
    }
}

#[test]
fn empty_request_sends_blackout() {
    let (_, step) = Session::begin(&Vec::new()).unwrap();
    let (u, warn) = transmitted(step);
    assert!(!warn);
    assert!(u.iter().all(|v| *v == 0));
}

#[test]
fn bad_token_fails_before_anything() {
    assert!(Session::begin(&args(&["1", "-512"])).is_err());
    assert!(Session::begin(&args(&["x"])).is_err());
}

#[test]
fn sigil_request_edits_stored_universe() {
    let (mut session, step) = Session::begin(&args(&["-3"])).unwrap();
    assert!(matches!(step, Step::LoadState));
    assert_eq!(session.phase(), Phase::AwaitingState);
    let stored: Vec<u8> = (0..512).map(|i| (i % 100 + 1) as u8).collect();
    let (u, warn) = transmitted(session.on_event(Event::StateLoaded(stored.clone())));
    assert!(!warn);
    assert_eq!(u[3], 0);
    for c in 0..512 {
        if c != 3 {
            assert_eq!(u[c], stored[c], "channel {}", c);
        }
    }
    match session.on_event(Event::Transmitted) {
        Step::Persist { universe } => assert_eq!(universe, u),
        other => panic!("expected persisting, got {:?}", other),
    }
    assert!(matches!(session.on_event(Event::Persisted), Step::Finish(Ok(()))));
    assert_eq!(session.phase(), Phase::Done);
}

#[test]
fn failed_transmission_is_not_persisted() {
    let (mut session, _) = Session::begin(&args(&["-3"])).unwrap();
    let stored = vec![5u8; 512];
    transmitted(session.on_event(Event::StateLoaded(stored)));
    assert!(matches!(
        session.on_event(Event::TransmitFailed),
        Step::Finish(Err(Failure::Device))
    ));
    assert_eq!(session.phase(), Phase::Done);
}

#[test]
fn failed_persist_is_reported() {
    let (mut session, _) = Session::begin(&args(&["1"])).unwrap();
    assert!(matches!(session.on_event(Event::Transmitted), Step::Persist { .. }));
    assert!(matches!(
        session.on_event(Event::PersistFailed),
        Step::Finish(Err(Failure::StateWrite))
    ));
}

#[test]
fn unreadable_store_starts_blank_with_warning() {
    let (mut session, _) = Session::begin(&args(&["^7", "8"])).unwrap();
    let (u, warn) = transmitted(session.on_event(Event::StateUnavailable));
    assert!(warn);
    assert_eq!(u[7], 200);
    assert_eq!(u[8], 200);
    assert_eq!(u.iter().filter(|v| **v != 0).count(), 2);
    assert_eq!(session.phase(), Phase::Transmitting);
}

#[test]
fn wrong_length_store_starts_blank_with_warning() {
    let (mut session, _) = Session::begin(&args(&["-3"])).unwrap();
    let (u, warn) = transmitted(session.on_event(Event::StateLoaded(vec![9u8; 100])));
    assert!(warn);
    assert!(u.iter().all(|v| *v == 0));
}

#[test]
fn event_phases() {
    assert_eq!(Event::StateLoaded(Vec::new()).phase(), Phase::AwaitingState);
    assert_eq!(Event::StateUnavailable.phase(), Phase::AwaitingState);
    assert_eq!(Event::Transmitted.phase(), Phase::Transmitting);
    assert_eq!(Event::TransmitFailed.phase(), Phase::Transmitting);
    assert_eq!(Event::Persisted.phase(), Phase::Persisting);
    assert_eq!(Event::PersistFailed.phase(), Phase::Persisting);
}
