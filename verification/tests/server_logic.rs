use std::sync::mpsc;

use vim_picomap::channel_stream::{ChannelStream, PollOutcome};
use vim_picomap::highlighter::DiagnosticLevel;
use vim_picomap::message::{Hunk, Location, LocationType, Message};
use vim_picomap::server::{build_modifier, to_change, to_changes, to_diagnostic, to_diagnostics};

#[test]
fn test_message_from_event_name() {
    assert!(matches!(Message::from("sync".to_string()), Message::Sync));
    assert!(matches!(Message::from("show".to_string()), Message::Show));
    assert!(matches!(Message::from("close".to_string()), Message::Close));
    assert!(matches!(
        Message::from("resize".to_string()),
        Message::Resize
    ));
    match Message::from("blink".to_string()) {
        Message::Unknown(name) => assert_eq!(name, "blink"),
        _ => panic!("an unknown event name must be kept verbatim"),
    }
}

#[test]
fn test_location_type_from_marker() {
    assert!(matches!(
        LocationType::from("W".to_string()),
        LocationType::Warning
    ));
    assert!(matches!(
        LocationType::from("E".to_string()),
        LocationType::Error
    ));
    assert!(matches!(
        LocationType::from("w".to_string()),
        LocationType::Unknown
    ));
    assert!(matches!(
        LocationType::from("".to_string()),
        LocationType::Unknown
    ));
}

#[test]
fn test_to_diagnostic_maps_type_to_level() {
    let warn = to_diagnostic(&Location {
        lnum: 3,
        typ: LocationType::Warning,
        text: "careful".to_string(),
    });
    assert_eq!(warn.i, 3);
    assert_eq!(warn.text, "careful");
    assert!(matches!(warn.level, DiagnosticLevel::Warning));

    let danger = to_diagnostic(&Location {
        lnum: 0,
        typ: LocationType::Error,
        text: "broken".to_string(),
    });
    assert_eq!(danger.i, 0);
    assert!(matches!(danger.level, DiagnosticLevel::Danger));

    let unknown = to_diagnostic(&Location {
        lnum: 1,
        typ: LocationType::Unknown,
        text: "note".to_string(),
    });
    assert!(matches!(unknown.level, DiagnosticLevel::Clear));
}

#[test]
fn test_to_change_shifts_to_zero_based() {
    let change = to_change(&Hunk { lnum: 4, len: 2 });
    assert_eq!(change.i, 3);
    assert_eq!(change.len, 2);
}

#[test]
fn test_batch_converters_keep_order() {
    let locations = vec![
        Location {
            lnum: 1,
            typ: LocationType::Error,
            text: "a".to_string(),
        },
        Location {
            lnum: 0,
            typ: LocationType::Warning,
            text: "b".to_string(),
        },
    ];
    let diags = to_diagnostics(&locations);
    assert_eq!(diags.len(), 2);
    assert_eq!(diags[0].i, 1);
    assert!(matches!(diags[0].level, DiagnosticLevel::Danger));
    assert_eq!(diags[1].i, 0);
    assert!(matches!(diags[1].level, DiagnosticLevel::Warning));

    let hunks = vec![Hunk { lnum: 1, len: 1 }, Hunk { lnum: 9, len: 4 }];
    let changes = to_changes(&hunks);
    assert_eq!(changes.len(), 2);
    assert_eq!(changes[0].i, 0);
    assert_eq!(changes[0].len, 1);
    assert_eq!(changes[1].i, 8);
    assert_eq!(changes[1].len, 4);
}

#[test]
fn test_build_modifier_plain_mode() {
    let modifier = build_modifier(7, 3, 20, "n".to_string(), 1);
    assert_eq!(modifier.cursor, 6);
    assert_eq!(modifier.visible_frame.top, 2);
    assert_eq!(modifier.visible_frame.bottom, 22);
    assert!(modifier.select_frame.is_none());
}

#[test]
fn test_build_modifier_visual_mode() {
    for mode in ["v", "V", "CTRL-V"] {
        let modifier = build_modifier(7, 3, 20, mode.to_string(), 5);
        let select = modifier.select_frame.expect("visual mode keeps a selection");
        assert_eq!(select.top, 4);
        assert_eq!(select.bottom, 6);
    }
}

#[test]
fn test_channel_stream_polling() {
    let (tx, rx) = mpsc::channel::<u32>();
    let stream = ChannelStream::from(rx);

    assert!(matches!(stream.poll_step(), PollOutcome::Wait));

    tx.send(11).unwrap();
    match stream.poll_step() {
        PollOutcome::Yield(v) => assert_eq!(v, 11),
        _ => panic!("a queued value must be yielded"),
    }

    drop(tx);
    assert!(matches!(stream.poll_step(), PollOutcome::Finished));
}

#[test]
fn test_channel_stream_with_done() {
    let (tx, rx) = mpsc::channel::<u32>();
    let (done_tx, done_rx) = mpsc::channel::<()>();
    let stream = ChannelStream::from(rx).with_done(done_rx);

    assert!(matches!(stream.poll_step(), PollOutcome::Wait));

    tx.send(5).unwrap();
    assert!(matches!(stream.poll_step(), PollOutcome::Yield(5)));

    done_tx.send(()).unwrap();
    assert!(matches!(stream.poll_step(), PollOutcome::Finished));
}
