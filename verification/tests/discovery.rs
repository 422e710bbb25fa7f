use bluos::discover::{CancelSignal, DiscoveredBluOSDevice, Discovery, PollAction};
use bluos::error::Error;

#[test]
fn second_session_is_refused() {
    let mut d = Discovery::new();
    assert!(d.start_session().is_ok());
    assert_eq!(d.start_session(), Err(Error::AlreadyDiscovering));
    assert!(d.is_running());
}

#[test]
fn teardown_sends_exactly_one_cancellation() {
    let mut d = Discovery::new();
    d.start_session().unwrap();
    assert!(d.take_cancellation());
    assert!(!d.take_cancellation());
}

#[test]
fn poll_loop_exits_on_cancel_or_disconnect() {
    assert_eq!(Discovery::poll_step(CancelSignal::Empty), PollAction::Continue);
    assert_eq!(Discovery::poll_step(CancelSignal::Cancelled), PollAction::Exit);
    assert_eq!(Discovery::poll_step(CancelSignal::Disconnected), PollAction::Exit);
}

#[test]
fn discover_one_takes_the_first_device() {
    let (tx, rx) = std::sync::mpsc::channel();
    tx.send(DiscoveredBluOSDevice {
        name: String::from("Kitchen"),
        hostname: String::from("10.0.0.9"),
        port: 11000,
    })
    .unwrap();
    drop(tx);
    let first = rx.recv().ok();
    let found = Discovery::first_discovered(first).unwrap();
    assert_eq!(found.hostname, "10.0.0.9");
    assert_eq!(rx.recv().ok().map(|d: DiscoveredBluOSDevice| d.name), None);
}

#[test]
fn no_device_is_an_error() {
    assert_eq!(
        Discovery::first_discovered(None),
        Err(Error::NoBluOSError)
    );
}
