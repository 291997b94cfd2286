use serial_bridge::control::{contains_port, SlotController};
use serial_bridge::enumerate::ports_or_empty;
use serial_bridge::session::{ReadEvent, Serial, WriteStatus};

fn listing() -> Vec<String> {
    vec!["COM3".to_string(), "COM5".to_string()]
}

#[test]
fn open_close_reopen_cycle() {
    let ports = listing();
    let mut c = SlotController::new();
    let status = c.request_open(&ports, &"COM3".to_string(), 115200, 100);
    assert_eq!(status, "Port opened");
    let status = c.request_open(&ports, &"COM3".to_string(), 115200, 100);
    assert_eq!(status, "Port already open");
    c.request_close();
    let status = c.request_open(&ports, &"COM3".to_string(), 115200, 100);
    assert_eq!(status, "Port opened");
}

#[test]
fn open_unknown_port_is_refused() {
    let ports = listing();
    let mut c = SlotController::new();
    let status = c.request_open(&ports, &"COM4".to_string(), 115200, 100);
    assert_eq!(status, "Port not found");
    // Nothing was opened: a write still has nowhere to go.
    assert_eq!(c.write(vec![1]), None);
}

#[test]
fn second_open_leaves_the_session_untouched() {
    let ports = listing();
    let mut c = SlotController::new();
    assert_eq!(c.request_open(&ports, &"COM5".to_string(), 9600, 50), "Port opened");
    assert_eq!(c.write(vec![10, 20]), Some(WriteStatus::Enqueued));
    // A second open is refused and does not disturb the queued buffer.
    assert_eq!(c.request_open(&ports, &"COM5".to_string(), 9600, 50), "Port already open");
    let out = c.step(ReadEvent::TimedOut).unwrap();
    assert_eq!(out.device_write, Some(vec![10, 20]));
}

#[test]
fn close_request_is_idempotent() {
    let ports = listing();
    let mut c = SlotController::new();
    c.request_close();
    assert_eq!(c.write(vec![1]), None);
    assert_eq!(c.request_open(&ports, &"COM3".to_string(), 115200, 100), "Port opened");
    c.request_close();
    c.request_close();
    assert_eq!(c.write(vec![1]), None);
    assert!(c.step(ReadEvent::TimedOut).is_none());
}

#[test]
fn contains_port_matches_exactly() {
    let ports = listing();
    assert!(contains_port(&ports, &"COM3".to_string()));
    assert!(contains_port(&ports, &"COM5".to_string()));
    assert!(!contains_port(&ports, &"COM4".to_string()));
    assert!(!contains_port(&ports, &"com3".to_string()));
    assert!(!contains_port(&vec![], &"COM3".to_string()));
}

#[test]
fn enumeration_failure_yields_empty_listing() {
    assert_eq!(ports_or_empty(None), Vec::<String>::new());
    let ports = listing();
    assert_eq!(ports_or_empty(Some(ports.clone())), ports);
}

#[test]
fn list_ports_never_fails() {
    // Whatever the host reports, the call answers with a plain listing.
    let ports = Serial::list_ports();
    for p in ports {
        assert!(!p.is_empty());
    }
}
