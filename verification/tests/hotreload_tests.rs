use swerve::hotreload::{
    conn_step, get_hotreload_js, should_forward, ConnAction, ConnEvent, ConnState, ReloadHub,
    WatchEventKind,
};

#[test]
fn script_names_the_port() {
    let js = get_hotreload_js(8081);
    assert!(js.contains("ws://127.0.0.1:8081"));
    assert!(js.contains("location.reload()"));
}

#[test]
fn event_reaches_every_peer_connected_before_it() {
    let mut hub = ReloadHub::new();
    let a = hub.subscribe();
    let b = hub.subscribe();
    hub.publish();
    assert!(hub.poll(a));
    assert!(hub.poll(b));
    // each peer observes the event once
    assert!(!hub.poll(a));
    assert!(!hub.poll(b));
}

#[test]
fn late_peer_is_not_retroactively_notified() {
    let mut hub = ReloadHub::new();
    let a = hub.subscribe();
    hub.publish();
    let late = hub.subscribe();
    assert!(!hub.poll(late));
    assert!(hub.poll(a));
}

#[test]
fn events_queue_per_peer() {
    let mut hub = ReloadHub::new();
    let a = hub.subscribe();
    hub.publish();
    hub.publish();
    assert!(hub.poll(a));
    assert!(hub.poll(a));
    assert!(!hub.poll(a));
}

#[test]
fn pending_event_sends_reload() {
    assert_eq!(
        conn_step(ConnState::Idle, ConnEvent::EventPending),
        (ConnState::Sending, ConnAction::SendReload)
    );
    assert_eq!(
        conn_step(ConnState::Sending, ConnEvent::NoEvent),
        (ConnState::Idle, ConnAction::Keep)
    );
}

#[test]
fn inbound_data_is_discarded() {
    assert_eq!(
        conn_step(ConnState::Idle, ConnEvent::InboundData),
        (ConnState::Idle, ConnAction::Keep)
    );
}

#[test]
fn close_terminates_the_connection() {
    assert_eq!(
        conn_step(ConnState::Idle, ConnEvent::InboundClose),
        (ConnState::Closed, ConnAction::Terminate)
    );
    assert_eq!(
        conn_step(ConnState::Sending, ConnEvent::SocketError),
        (ConnState::Closed, ConnAction::Terminate)
    );
    // and a closed connection stays closed
    assert_eq!(
        conn_step(ConnState::Closed, ConnEvent::EventPending),
        (ConnState::Closed, ConnAction::Terminate)
    );
}

#[test]
fn one_peer_closing_does_not_disturb_others() {
    let mut hub = ReloadHub::new();
    let a = hub.subscribe();
    let b = hub.subscribe();
    // peer a's connection ends
    let (state, action) = conn_step(ConnState::Idle, ConnEvent::InboundClose);
    assert_eq!(state, ConnState::Closed);
    assert_eq!(action, ConnAction::Terminate);
    // the hub and the other peer go on unaffected
    hub.publish();
    assert!(hub.poll(b));
    let _ = a;
}

#[test]
fn only_changes_are_forwarded() {
    assert!(should_forward(WatchEventKind::Create));
    assert!(should_forward(WatchEventKind::Modify));
    assert!(should_forward(WatchEventKind::Remove));
    assert!(!should_forward(WatchEventKind::Other));
}
