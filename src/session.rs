//! The decisions of a connection session and of the change watcher. The
//! threads that wait on sockets, channels and the file system feed these
//! functions with what happened and carry out what they return.
use vstd::prelude::*;

verus! {

/// The text sent to a browser to make it reload the page.
pub const RELOAD_MESSAGE: &'static str = "You need to refresh";

/// Where a connection session is in its life. It only moves forward.
#[derive(PartialEq, Eq, Structural, Clone, Copy, Debug)]
pub enum SessionState {
    /// Forwarding change events to the browser.
    Open,
    /// Termination was requested; the subscription is being let go.
    Closing,
    /// The subscription is released; nothing more happens.
    Closed,
}

/// What a session's forwarder woke up for.
#[derive(PartialEq, Eq, Structural, Clone, Copy, Debug)]
pub enum SessionEvent {
    /// A change event arrived on the subscription.
    Change,
    /// The browser connection was closed.
    TransportClosed,
    /// Sending the reload message to the browser failed.
    SendFailed,
    /// The session was asked to stop.
    Unsubscribe,
    /// The broadcaster side of the subscription is gone.
    SubscriptionGone,
    /// The receiving half of the subscription has been dropped.
    Released,
}

/// What the forwarder is to do next.
#[derive(PartialEq, Eq, Structural, Clone, Copy, Debug)]
pub enum SessionAction {
    /// Send the reload message to the browser.
    SendReload,
    /// Drop the receiving half of the subscription, then report `Released`.
    ReleaseSubscription,
    /// Leave the forwarder loop.
    Exit,
    /// Keep waiting.
    Wait,
}

/// Whether the event ends the session: a closed or failing transport and an
/// explicit request are all the same.
pub open spec fn is_termination(e: SessionEvent) -> bool {
    match e {
        SessionEvent::TransportClosed | SessionEvent::SendFailed | SessionEvent::Unsubscribe
        | SessionEvent::SubscriptionGone => true,
        _ => false,
    }
}

/// The state and action that follow `s` on event `e`.
pub open spec fn session_next(s: SessionState, e: SessionEvent) -> (SessionState, SessionAction) {
    match s {
        SessionState::Open => if e == SessionEvent::Change {
            (SessionState::Open, SessionAction::SendReload)
        } else if is_termination(e) {
            (SessionState::Closing, SessionAction::ReleaseSubscription)
        } else {
            (SessionState::Open, SessionAction::Wait)
        },
        SessionState::Closing => if e == SessionEvent::Released {
            (SessionState::Closed, SessionAction::Exit)
        } else {
            (SessionState::Closing, SessionAction::Wait)
        },
        SessionState::Closed => (SessionState::Closed, SessionAction::Exit),
    }
}

/// The state after a run of events.
pub open spec fn session_after(s: SessionState, events: Seq<SessionEvent>) -> SessionState
    decreases events.len(),
{
    if events.len() == 0 {
        s
    } else {
        session_after(session_next(s, events[0]).0, events.drop_first())
    }
}

/// The actions taken along a run of events.
pub open spec fn session_actions(s: SessionState, events: Seq<SessionEvent>) -> Seq<SessionAction>
    decreases events.len(),
{
    if events.len() == 0 {
        Seq::empty()
    } else {
        seq![session_next(s, events[0]).1] + session_actions(
            session_next(s, events[0]).0,
            events.drop_first(),
        )
    }
}

/// One browser connection bridged to one subscription.
pub struct ConnectionSession {
    state: SessionState,
}

impl ConnectionSession {
    pub closed spec fn state_of(&self) -> SessionState {
        self.state
    }

    /// A session that was just opened.
    pub fn new() -> (r: Self)
        ensures
            r.state_of() == SessionState::Open,
    {
        ConnectionSession { state: SessionState::Open }
    }

    /// The current state.
    pub fn state(&self) -> (r: SessionState)
        ensures
            r == self.state_of(),
    {
        self.state
    }

    /// Moves the session on by one event and says what to do.
    pub fn on_event(&mut self, e: SessionEvent) -> (r: SessionAction)
        ensures
            (final(self).state_of(), r) == session_next(old(self).state_of(), e),
    {
        let (s, a) = match self.state {
            SessionState::Open => match e {
                SessionEvent::Change => (SessionState::Open, SessionAction::SendReload),
                SessionEvent::TransportClosed | SessionEvent::SendFailed | SessionEvent::Unsubscribe
                | SessionEvent::SubscriptionGone => (SessionState::Closing, SessionAction::ReleaseSubscription),
                SessionEvent::Released => (SessionState::Open, SessionAction::Wait),
            },
            SessionState::Closing => match e {
                SessionEvent::Released => (SessionState::Closed, SessionAction::Exit),
                _ => (SessionState::Closing, SessionAction::Wait),
            },
            SessionState::Closed => (SessionState::Closed, SessionAction::Exit),
        };
        self.state = s;
        a
    }
}

/// Once termination is observed, no reload is ever sent again, whatever
/// events follow; and the session is closed as soon as the subscription is
/// released, with no change event needed to wake it.
pub proof fn law_terminated_session_stops_forwarding(e: SessionEvent, rest: Seq<SessionEvent>)
    requires
        is_termination(e),
    ensures
        session_next(SessionState::Open, e).0 == SessionState::Closing,
        forall|k: int| 0 <= k < rest.len() ==> #[trigger] session_actions(session_next(SessionState::Open, e).0, rest)[k]
            != SessionAction::SendReload,
        rest.contains(SessionEvent::Released) ==> session_after(session_next(SessionState::Open, e).0, rest)
            == SessionState::Closed,
        session_after(SessionState::Open, seq![e, SessionEvent::Released]) == SessionState::Closed,
{
    lemma_winding_down(SessionState::Closing, rest);
    let two = seq![e, SessionEvent::Released];
    let one = seq![SessionEvent::Released];
    assert(two.drop_first() =~= one);
    assert(one.drop_first() =~= Seq::<SessionEvent>::empty());
    assert(session_after(SessionState::Closed, Seq::<SessionEvent>::empty()) == SessionState::Closed);
    assert(session_after(SessionState::Closing, one) == SessionState::Closed);
    assert(session_after(SessionState::Open, two) == session_after(SessionState::Closing, one));
}

/// From `Closing` or `Closed` no reload is sent, and `Released` closes.
proof fn lemma_winding_down(s: SessionState, rest: Seq<SessionEvent>)
    requires
        s != SessionState::Open,
    ensures
        forall|k: int| 0 <= k < rest.len() ==> #[trigger] session_actions(s, rest)[k] != SessionAction::SendReload,
        session_after(s, rest) != SessionState::Open,
        s == SessionState::Closed ==> session_after(s, rest) == SessionState::Closed,
        rest.contains(SessionEvent::Released) ==> session_after(s, rest) == SessionState::Closed,
        session_actions(s, rest).len() == rest.len(),
    decreases rest.len(),
{
    if rest.len() > 0 {
        let t = rest.drop_first();
        let n = session_next(s, rest[0]).0;
        lemma_winding_down(n, t);
        assert forall|k: int| 0 <= k < rest.len() implies #[trigger] session_actions(s, rest)[k] != SessionAction::SendReload by {
            if k > 0 {
                assert(session_actions(s, rest)[k] == session_actions(n, t)[k - 1]);
            }
        }
        if rest.contains(SessionEvent::Released) && rest[0] != SessionEvent::Released {
            let k = choose|k: int| 0 <= k < rest.len() && rest[k] == SessionEvent::Released;
            assert(t[k - 1] == SessionEvent::Released);
        }
    }
}

/// What the watcher was handed by the directory-watch primitive.
#[derive(PartialEq, Eq, Debug)]
pub enum Notification {
    /// Something under the watched root changed (one batch of raw changes).
    Changed,
    /// The primitive reported an error, with its description.
    Failed(String),
}

/// What the watcher does with a notification.
#[derive(PartialEq, Eq, Debug)]
pub enum WatchAction {
    /// Publish one change event.
    Publish,
    /// Report the error and keep waiting.
    Report(String),
}

pub open spec fn watch_action_of(n: Notification) -> WatchAction {
    match n {
        Notification::Changed => WatchAction::Publish,
        Notification::Failed(m) => WatchAction::Report(m),
    }
}

/// Decides what the watcher does with one notification: a change is
/// published exactly once, an error is reported and never ends the watch.
pub fn watch_step(n: Notification) -> (r: WatchAction)
    ensures
        r == watch_action_of(n),
{
    match n {
        Notification::Changed => WatchAction::Publish,
        Notification::Failed(m) => WatchAction::Report(m),
    }
}

/// How many of the notifications are changes.
pub open spec fn change_count(ns: Seq<Notification>) -> nat
    decreases ns.len(),
{
    if ns.len() == 0 {
        0
    } else {
        change_count(ns.drop_last()) + if ns.last() == Notification::Changed { 1nat } else { 0nat }
    }
}

/// How many of the actions are publishes.
pub open spec fn publish_count(acts: Seq<WatchAction>) -> nat
    decreases acts.len(),
{
    if acts.len() == 0 {
        0
    } else {
        publish_count(acts.drop_last()) + if acts.last() == WatchAction::Publish { 1nat } else { 0nat }
    }
}

/// The watcher publishes once per change notification and never otherwise:
/// a burst that the watch primitive hands over as one notification is
/// published once, not once per raw file-system change.
pub proof fn law_one_publish_per_notification(ns: Seq<Notification>)
    ensures
        publish_count(ns.map_values(|n: Notification| watch_action_of(n))) == change_count(ns),
    decreases ns.len(),
{
    if ns.len() > 0 {
        law_one_publish_per_notification(ns.drop_last());
        assert(ns.map_values(|n: Notification| watch_action_of(n)).drop_last() =~= ns.drop_last().map_values(
            |n: Notification| watch_action_of(n),
        ));
    }
}

} // verus!
