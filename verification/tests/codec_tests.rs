use sven_desk::codec::encode_command;
use sven_desk::codec::encode_state;
use sven_desk::codec::parse_state;
use sven_desk::device::DeskCommand;
use sven_desk::device::SvenCommand;
use sven_desk::device::SvenPosition;
use sven_desk::device::SvenState;

#[test]
fn command_encoding_is_exact() {
    let c = DeskCommand {
        command: SvenCommand::AbsoluteHeight,
        value: 800,
    };
    assert_eq!(
        encode_command(&c),
        b"{\"command\":\"AbsoluteHeight\",\"value\":800}".to_vec()
    );
    let c2 = DeskCommand {
        command: SvenCommand::UpDuration,
        value: 0,
    };
    assert_eq!(
        encode_command(&c2),
        b"{\"command\":\"UpDuration\",\"value\":0}".to_vec()
    );
    let c3 = DeskCommand {
        command: SvenCommand::Position,
        value: 3,
    };
    assert_eq!(
        encode_command(&c3),
        b"{\"command\":\"Position\",\"value\":3}".to_vec()
    );
}

#[test]
fn state_encoding_is_exact() {
    let v = SvenState {
        height_mm: 725,
        position: SvenPosition::Standing,
    };
    assert_eq!(
        encode_state(&v),
        b"{\"height_mm\":725,\"position\":\"Standing\"}".to_vec()
    );
}

#[test]
fn parse_accepts_canonical_form() {
    let r = parse_state(b"{\"height_mm\":500,\"position\":\"Custom\"}");
    assert_eq!(
        r,
        Some(SvenState {
            height_mm: 500,
            position: SvenPosition::Custom,
        })
    );
}

#[test]
fn parse_accepts_whitespace_and_swapped_members() {
    let r = parse_state(b" {\t\"position\" : \"Top\" ,\n \"height_mm\" : 1200 } ");
    assert_eq!(
        r,
        Some(SvenState {
            height_mm: 1200,
            position: SvenPosition::Top,
        })
    );
}

#[test]
fn parse_accepts_every_position_name() {
    let names: [(&[u8], SvenPosition); 6] = [
        (b"Bottom", SvenPosition::Bottom),
        (b"Top", SvenPosition::Top),
        (b"Armrest", SvenPosition::Armrest),
        (b"AboveArmrest", SvenPosition::AboveArmrest),
        (b"Standing", SvenPosition::Standing),
        (b"Custom", SvenPosition::Custom),
    ];
    for (name, pos) in names {
        let mut doc: Vec<u8> = b"{\"height_mm\":10,\"position\":\"".to_vec();
        doc.extend_from_slice(name);
        doc.extend_from_slice(b"\"}");
        assert_eq!(
            parse_state(&doc),
            Some(SvenState {
                height_mm: 10,
                position: pos,
            })
        );
    }
}

#[test]
fn parse_rejects_malformed_payloads() {
    let bad: [&[u8]; 12] = [
        b"",
        b"{}",
        b"not json at all",
        b"{\"height_mm\":500}",
        b"{\"position\":\"Top\"}",
        b"{\"height_mm\":500,\"position\":\"Sideways\"}",
        b"{\"height_mm\":-2,\"position\":\"Top\"}",
        b"{\"height_mm\":007,\"position\":\"Top\"}",
        b"{\"height_mm\":500,\"position\":\"Top\"} trailing",
        b"{\"height_mm\":500,\"position\":\"Top\"",
        b"{\"height\":500,\"position\":\"Top\"}",
        b"[500,\"Top\"]",
    ];
    for payload in bad {
        assert_eq!(parse_state(payload), None);
    }
}

#[test]
fn parse_number_range_limits() {
    assert_eq!(
        parse_state(b"{\"height_mm\":4294967295,\"position\":\"Top\"}"),
        Some(SvenState {
            height_mm: 4294967295,
            position: SvenPosition::Top,
        })
    );
    // One past the largest representable height is rejected, not wrapped.
    assert_eq!(
        parse_state(b"{\"height_mm\":4294967296,\"position\":\"Top\"}"),
        None
    );
    // A lone zero is fine; a redundant leading zero is not.
    assert_eq!(
        parse_state(b"{\"height_mm\":0,\"position\":\"Bottom\"}"),
        Some(SvenState {
            height_mm: 0,
            position: SvenPosition::Bottom,
        })
    );
    assert_eq!(parse_state(b"{\"height_mm\":01,\"position\":\"Bottom\"}"), None);
}

#[test]
fn encode_then_parse_round_trips() {
    let states = [
        SvenState { height_mm: 0, position: SvenPosition::Custom },
        SvenState { height_mm: 1, position: SvenPosition::Bottom },
        SvenState { height_mm: 850, position: SvenPosition::Standing },
        SvenState { height_mm: 4294967295, position: SvenPosition::AboveArmrest },
    ];
    for v in states {
        assert_eq!(parse_state(&encode_state(&v)), Some(v));
    }
}

#[test]
fn command_encoding_reads_back_with_serde() {
    // The outbound bytes must be plain JSON to every other consumer on the
    // bus; serde_json is the reference reader.
    let c = DeskCommand {
        command: SvenCommand::DownRelative,
        value: 120,
    };
    let bytes = encode_command(&c);
    let v: serde_json::Value = serde_json::from_slice(&bytes).unwrap();
    assert_eq!(v.get("command").unwrap().as_str(), Some("DownRelative"));
    assert_eq!(v.get("value").unwrap().as_u64(), Some(120));
}

#[test]
fn state_encoding_reads_back_with_serde() {
    let v = SvenState {
        height_mm: 640,
        position: SvenPosition::Armrest,
    };
    let bytes = encode_state(&v);
    let j: serde_json::Value = serde_json::from_slice(&bytes).unwrap();
    assert_eq!(j.get("height_mm").unwrap().as_u64(), Some(640));
    assert_eq!(j.get("position").unwrap().as_str(), Some("Armrest"));
}

#[test]
fn parse_accepts_serde_emitted_state() {
    // What serde_json emits for a state document is exactly the canonical
    // form the parser accepts.
    let mut m = serde_json::Map::new();
    m.insert(
        "height_mm".to_string(),
        serde_json::Value::Number(serde_json::Number::from(777u64)),
    );
    m.insert(
        "position".to_string(),
        serde_json::Value::String("Standing".to_string()),
    );
    let text = serde_json::to_string(&serde_json::Value::Object(m)).unwrap();
    assert_eq!(
        parse_state(text.as_bytes()),
        Some(SvenState {
            height_mm: 777,
            position: SvenPosition::Standing,
        })
    );
}
