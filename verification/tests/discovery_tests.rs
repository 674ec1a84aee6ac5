use clipboard_sync::discovery::DiscoveryReport;
use clipboard_sync::discovery::PasteErrorKind;
use clipboard_sync::discovery::ProbeOutcome;
use clipboard_sync::discovery::X11ErrorKind;
use clipboard_sync::discovery::classify_wayland_probe;
use clipboard_sync::discovery::classify_x11_message;
use clipboard_sync::discovery::classify_x11_probe;
use clipboard_sync::discovery::collect_candidates;
use clipboard_sync::discovery::combine_backends;
use clipboard_sync::discovery::normalize_paste;
use clipboard_sync::endpoint::Endpoint;
use clipboard_sync::endpoint::WlrClipboard;
use clipboard_sync::endpoint::X11Clipboard;
use clipboard_sync::endpoint::wayland_display_name;
use clipboard_sync::endpoint::x11_display_name;

#[test]
fn display_names_follow_the_index() {
    assert_eq!(wayland_display_name(0), "wayland-0");
    assert_eq!(wayland_display_name(37), "wayland-37");
    assert_eq!(wayland_display_name(255), "wayland-255");
    assert_eq!(x11_display_name(0), ":0");
    assert_eq!(x11_display_name(101), ":101");
}

#[test]
fn empty_clipboard_failures_normalize_to_empty_text() {
    assert_eq!(normalize_paste(Err(PasteErrorKind::NoSeats)).unwrap(), "");
    assert_eq!(
        normalize_paste(Err(PasteErrorKind::ClipboardEmpty)).unwrap(),
        ""
    );
    assert_eq!(
        normalize_paste(Err(PasteErrorKind::NoMimeType)).unwrap(),
        ""
    );
    assert_eq!(normalize_paste(Ok("text".to_string())).unwrap(), "text");
    assert!(matches!(
        normalize_paste(Err(PasteErrorKind::NoCompositorListening)),
        Err(PasteErrorKind::NoCompositorListening)
    ));
}

#[test]
fn wayland_probe_classification() {
    match classify_wayland_probe(4, Ok("anything".to_string())) {
        ProbeOutcome::Found(Endpoint::Wlr(c)) => assert_eq!(c.display, "wayland-4"),
        other => panic!("expected a found endpoint, got {:?}", other),
    }
    assert!(matches!(
        classify_wayland_probe(0, Err(PasteErrorKind::NoCompositorListening)),
        ProbeOutcome::Absent
    ));
    assert!(matches!(
        classify_wayland_probe(0, Err(PasteErrorKind::MissingDataControlProtocol)),
        ProbeOutcome::Unsupported
    ));
    match classify_wayland_probe(0, Err(PasteErrorKind::Other("boom".to_string()))) {
        ProbeOutcome::UnexpectedError(m) => assert_eq!(m, "boom"),
        other => panic!("expected an unexpected error, got {:?}", other),
    }
}

#[test]
fn x11_probe_classification() {
    let candidate = X11Clipboard::new(":2".to_string());
    match classify_x11_probe(candidate, Ok("x".to_string())) {
        ProbeOutcome::Found(Endpoint::X11(c)) => assert_eq!(c.display, ":2"),
        other => panic!("expected a found endpoint, got {:?}", other),
    }
    assert!(matches!(
        classify_x11_probe(
            X11Clipboard::new(":3".to_string()),
            Err(X11ErrorKind::XcbConnection)
        ),
        ProbeOutcome::XcbConnectionFailed
    ));
    match classify_x11_probe(
        X11Clipboard::new(":4".to_string()),
        Err(X11ErrorKind::Other("lost".to_string())),
    ) {
        ProbeOutcome::UnexpectedError(m) => assert_eq!(m, "lost"),
        other => panic!("expected an unexpected error, got {:?}", other),
    }
}

fn wlr(display: &str) -> Endpoint {
    Endpoint::Wlr(WlrClipboard {
        display: display.to_string(),
    })
}

#[test]
fn one_failure_never_starves_the_rest() {
    // A failing probe in the middle of the sweep: the endpoints on both
    // sides are still discovered.
    let outcomes = vec![
        ProbeOutcome::Found(wlr("wayland-0")),
        ProbeOutcome::UnexpectedError("probe broke".to_string()),
        ProbeOutcome::Found(wlr("wayland-2")),
        ProbeOutcome::Absent,
        ProbeOutcome::Found(wlr("wayland-4")),
    ];
    let report = collect_candidates(outcomes);
    let names: Vec<String> = report.candidates.iter().map(|e| e.display()).collect();
    assert_eq!(names, vec!["wayland-0", "wayland-2", "wayland-4"]);
}

#[test]
fn xcb_failures_are_collected_by_index() {
    let outcomes = vec![
        ProbeOutcome::XcbConnectionFailed,
        ProbeOutcome::Found(wlr("wayland-1")),
        ProbeOutcome::XcbConnectionFailed,
        ProbeOutcome::XcbConnectionFailed,
    ];
    let DiscoveryReport {
        candidates,
        xcb_failed,
    } = collect_candidates(outcomes);
    assert_eq!(candidates.len(), 1);
    assert_eq!(xcb_failed, vec![0, 2, 3]);
}

#[test]
fn empty_sweep_finds_nothing() {
    let report = collect_candidates(Vec::new());
    assert!(report.candidates.is_empty());
    assert!(report.xcb_failed.is_empty());
}

#[test]
fn wayland_candidates_come_before_x11() {
    let wayland = vec![wlr("wayland-0"), wlr("wayland-1")];
    let x11 = vec![Endpoint::X11(X11Clipboard::new(":0".to_string()))];
    let combined = combine_backends(wayland, x11);
    let names: Vec<String> = combined.iter().map(|e| e.display()).collect();
    assert_eq!(names, vec!["wayland-0", "wayland-1", ":0"]);
}

#[test]
fn hybrid_endpoint_answers_to_its_getter() {
    let getter = Endpoint::X11(X11Clipboard::new(":0".to_string()));
    let setter = wlr("wayland-0");
    let hybrid = Endpoint::Hybrid(Box::new(getter), Box::new(setter));
    assert_eq!(hybrid.display(), ":0");
}

#[test]
fn x11_message_classification_spots_the_connection_failure() {
    let message =
        "clipboard error: X11 clipboard error : XCB connection error: Connection".to_string();
    assert!(matches!(
        classify_x11_message(message),
        X11ErrorKind::XcbConnection
    ));
    match classify_x11_message("clipboard error: timeout".to_string()) {
        X11ErrorKind::Other(m) => assert_eq!(m, "clipboard error: timeout"),
        other => panic!("expected the message back, got {:?}", other),
    }
}
