use simplewiki::session::{
    watch_step, ConnectionSession, Notification, SessionAction, SessionEvent, SessionState, WatchAction,
    RELOAD_MESSAGE,
};

#[test]
fn open_session_forwards_changes() {
    let mut s = ConnectionSession::new();
    assert_eq!(s.state(), SessionState::Open);
    assert_eq!(s.on_event(SessionEvent::Change), SessionAction::SendReload);
    assert_eq!(s.on_event(SessionEvent::Change), SessionAction::SendReload);
    assert_eq!(s.state(), SessionState::Open);
    assert_eq!(RELOAD_MESSAGE, "You need to refresh");
}

#[test]
fn closed_transport_closes_without_a_change() {
    let mut s = ConnectionSession::new();
    assert_eq!(s.on_event(SessionEvent::TransportClosed), SessionAction::ReleaseSubscription);
    assert_eq!(s.state(), SessionState::Closing);
    assert_eq!(s.on_event(SessionEvent::Released), SessionAction::Exit);
    assert_eq!(s.state(), SessionState::Closed);
    assert_eq!(s.on_event(SessionEvent::Change), SessionAction::Exit);
    assert_eq!(s.state(), SessionState::Closed);
}

#[test]
fn every_termination_trigger_is_the_same() {
    for e in [
        SessionEvent::TransportClosed,
        SessionEvent::SendFailed,
        SessionEvent::Unsubscribe,
        SessionEvent::SubscriptionGone,
    ] {
        let mut s = ConnectionSession::new();
        assert_eq!(s.on_event(e), SessionAction::ReleaseSubscription);
        assert_eq!(s.on_event(SessionEvent::Change), SessionAction::Wait);
        assert_eq!(s.state(), SessionState::Closing);
        assert_eq!(s.on_event(SessionEvent::Released), SessionAction::Exit);
        assert_eq!(s.state(), SessionState::Closed);
    }
}

#[test]
fn released_while_open_is_ignored() {
    let mut s = ConnectionSession::new();
    assert_eq!(s.on_event(SessionEvent::Released), SessionAction::Wait);
    assert_eq!(s.state(), SessionState::Open);
}

#[test]
fn watcher_publishes_once_per_notification() {
    let batched: Vec<Notification> = vec![Notification::Changed];
    let publishes = batched.into_iter().map(watch_step).filter(|a| *a == WatchAction::Publish).count();
    assert_eq!(publishes, 1);
    let mixed = vec![Notification::Changed, Notification::Failed("x".to_string()), Notification::Changed];
    let publishes = mixed.into_iter().map(watch_step).filter(|a| *a == WatchAction::Publish).count();
    assert_eq!(publishes, 2);
    assert_eq!(watch_step(Notification::Changed), WatchAction::Publish);
    assert_eq!(
        watch_step(Notification::Failed("bad event".to_string())),
        WatchAction::Report("bad event".to_string())
    );
}
