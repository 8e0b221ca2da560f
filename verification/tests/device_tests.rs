use sven_desk::device::SvenCommand;
use sven_desk::device::SvenPosition;
use sven_desk::device::SvenState;

#[test]
fn command_labels_match_display_text() {
    assert_eq!(SvenCommand::UpDuration.label(), "Up Duration");
    assert_eq!(SvenCommand::DownDuration.label(), "Down Duration");
    assert_eq!(SvenCommand::UpRelative.label(), "Up Relative");
    assert_eq!(SvenCommand::DownRelative.label(), "Down Relative");
    assert_eq!(SvenCommand::AbsoluteHeight.label(), "Absolute Height");
    assert_eq!(SvenCommand::Position.label(), "Position");
}

#[test]
fn position_codes_round_trip() {
    let all = [
        SvenPosition::Bottom,
        SvenPosition::Top,
        SvenPosition::Armrest,
        SvenPosition::AboveArmrest,
        SvenPosition::Standing,
        SvenPosition::Custom,
    ];
    for p in all {
        assert_eq!(SvenPosition::from_code(p.code()), Some(p));
    }
    assert_eq!(SvenPosition::from_code(6), None);
    assert_eq!(SvenPosition::from_code(4294967295), None);
}

#[test]
fn initial_state_is_unknown() {
    let s = SvenState::initial();
    assert_eq!(s.height_mm, 0);
    assert_eq!(s.position, SvenPosition::Custom);
}
