use sven_desk::device::SvenPosition;
use sven_desk::device::SvenState;
use sven_desk::mirror::handle_message;
use sven_desk::mirror::MirrorOutcome;
use sven_desk::store::DeskStore;

#[test]
fn store_starts_at_unknown_baseline() {
    let store = DeskStore::new();
    let (state, status) = store.read();
    assert_eq!(state.height_mm, 0);
    assert_eq!(state.position, SvenPosition::Custom);
    assert_eq!(status, b"offline".to_vec());
}

#[test]
fn valid_state_message_updates_store() {
    let mut store = DeskStore::new();
    let r = handle_message(
        &mut store,
        b"sven/state",
        b"{\"height_mm\":850,\"position\":\"Standing\"}",
    );
    assert_eq!(r, MirrorOutcome::StateUpdated);
    assert_eq!(
        store.read_state(),
        SvenState {
            height_mm: 850,
            position: SvenPosition::Standing,
        }
    );
    // The status topic has its own lifecycle; a state update leaves it be.
    assert_eq!(store.read_status(), b"offline".to_vec());
}

#[test]
fn malformed_state_message_changes_nothing() {
    let mut store = DeskStore::new();
    handle_message(
        &mut store,
        b"sven/state",
        b"{\"height_mm\":500,\"position\":\"Top\"}",
    );
    let before = store.read();
    let r = handle_message(&mut store, b"sven/state", b"{\"height_mm\":oops");
    assert_eq!(r, MirrorOutcome::StateRejected);
    let after = store.read();
    assert_eq!(before, after);
}

#[test]
fn last_valid_state_wins() {
    let mut store = DeskStore::new();
    let msgs: [&[u8]; 4] = [
        b"{\"height_mm\":100,\"position\":\"Bottom\"}",
        b"{\"height_mm\":200,\"position\":\"Armrest\"}",
        b"garbage",
        b"{\"height_mm\":300,\"position\":\"Top\"}",
    ];
    for payload in msgs {
        handle_message(&mut store, b"sven/state", payload);
    }
    assert_eq!(
        store.read_state(),
        SvenState {
            height_mm: 300,
            position: SvenPosition::Top,
        }
    );
}

#[test]
fn repeated_report_is_idempotent() {
    let mut store = DeskStore::new();
    let payload: &[u8] = b"{\"height_mm\":850,\"position\":\"Custom\"}";
    handle_message(&mut store, b"sven/state", payload);
    let once = store.read();
    handle_message(&mut store, b"sven/state", payload);
    assert_eq!(store.read(), once);
}

#[test]
fn status_survives_garbage_bytes() {
    let mut store = DeskStore::new();
    let r = handle_message(&mut store, b"sven/status", b"online");
    assert_eq!(r, MirrorOutcome::StatusUpdated);
    assert_eq!(store.read_status(), b"online".to_vec());
    // An unrelated, non-text byte sequence must leave the status alone.
    let r2 = handle_message(&mut store, b"sven/status", &[0xFF, 0xC0, 0x00, 0x9D]);
    assert_eq!(r2, MirrorOutcome::StatusRejected);
    assert_eq!(store.read_status(), b"online".to_vec());
}

#[test]
fn status_update_leaves_state_alone() {
    let mut store = DeskStore::new();
    handle_message(
        &mut store,
        b"sven/state",
        b"{\"height_mm\":640,\"position\":\"Armrest\"}",
    );
    handle_message(&mut store, b"sven/status", b"online");
    assert_eq!(
        store.read_state(),
        SvenState {
            height_mm: 640,
            position: SvenPosition::Armrest,
        }
    );
}

#[test]
fn unknown_topic_is_ignored() {
    let mut store = DeskStore::new();
    let before = store.read();
    let r = handle_message(
        &mut store,
        b"sven/other",
        b"{\"height_mm\":999,\"position\":\"Top\"}",
    );
    assert_eq!(r, MirrorOutcome::Unrecognized);
    assert_eq!(store.read(), before);
}

#[test]
fn utf8_status_text_is_stored_verbatim() {
    let mut store = DeskStore::new();
    // Multi-byte text is fine; only ill-formed sequences are rejected.
    let text = "verbunden \u{2713}".as_bytes();
    let r = handle_message(&mut store, b"sven/status", text);
    assert_eq!(r, MirrorOutcome::StatusUpdated);
    assert_eq!(store.read_status(), text.to_vec());
    // A truncated multi-byte sequence is not well-formed.
    let r2 = handle_message(&mut store, b"sven/status", &text[..text.len() - 1]);
    assert_eq!(r2, MirrorOutcome::StatusRejected);
    assert_eq!(store.read_status(), text.to_vec());
}
