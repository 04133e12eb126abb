use sr5900p::error::{Error, ErrorKind};
use sr5900p::tape::{mm_to_px, tape_width_px, Tape, TapeKind};

const KNOWN: [Tape; 7] =
    [Tape::W4, Tape::W6, Tape::W9, Tape::W12, Tape::W18, Tape::W24, Tape::W36];

#[test]
fn width_of_24mm_tape_is_288() {
    assert_eq!(mm_to_px(2000), 283);
    assert_eq!(tape_width_px(&Tape::W24), Ok(288));
    assert_eq!(Tape::W24.width_px(), 288);
}

#[test]
fn widths_of_all_known_tapes() {
    assert_eq!(tape_width_px(&Tape::W4), Ok(40));
    assert_eq!(tape_width_px(&Tape::W6), Ok(72));
    assert_eq!(tape_width_px(&Tape::W9), Ok(104));
    assert_eq!(tape_width_px(&Tape::W12), Ok(144));
    assert_eq!(tape_width_px(&Tape::W18), Ok(216));
    assert_eq!(tape_width_px(&Tape::W24), Ok(288));
    assert_eq!(tape_width_px(&Tape::W36), Ok(368));
}

#[test]
fn widths_are_positive_multiples_of_eight() {
    for kind in KNOWN.iter() {
        let w = tape_width_px(kind).unwrap();
        assert!(w > 0);
        assert_eq!(w % 8, 0);
        assert_eq!(w, kind.width_px());
    }
}

#[test]
fn unknown_tape_has_no_width() {
    let kind: TapeKind = Tape::UnknownIndex(9);
    assert_eq!(tape_width_px(&kind), Err(Error::UnsupportedTape));
    assert_eq!(tape_width_px(&Tape::UnknownIndex(0)), Err(Error::UnsupportedTape));
    assert_eq!(kind.width_centi_mm(), None);
}

#[test]
fn mm_to_px_rounds_down() {
    assert_eq!(mm_to_px(0), 0);
    assert_eq!(mm_to_px(100), 14);
    assert_eq!(mm_to_px(50), 7);
    assert_eq!(mm_to_px(250), 35);
    assert_eq!(mm_to_px(285), 40);
    assert_eq!(mm_to_px(1520), 215);
    assert_eq!(mm_to_px(2540), 360);
    assert_eq!(mm_to_px(2539), 359);
    assert_eq!(mm_to_px(u32::MAX), 608_735_522);
}

#[test]
fn from_mm_knows_the_seven_nominal_widths() {
    assert_eq!(Tape::from_mm(4), Ok(Tape::W4));
    assert_eq!(Tape::from_mm(6), Ok(Tape::W6));
    assert_eq!(Tape::from_mm(9), Ok(Tape::W9));
    assert_eq!(Tape::from_mm(12), Ok(Tape::W12));
    assert_eq!(Tape::from_mm(18), Ok(Tape::W18));
    assert_eq!(Tape::from_mm(24), Ok(Tape::W24));
    assert_eq!(Tape::from_mm(36), Ok(Tape::W36));
}

#[test]
fn from_mm_rejects_other_widths() {
    assert_eq!(Tape::from_mm(0), Err(Error::UnsupportedTape));
    assert_eq!(Tape::from_mm(5), Err(Error::UnsupportedTape));
    assert_eq!(Tape::from_mm(37), Err(Error::UnsupportedTape));
    assert_eq!(Tape::from_mm(usize::MAX), Err(Error::UnsupportedTape));
}

#[test]
fn from_index_follows_the_device_table() {
    assert_eq!(Tape::from_index(1), Tape::W6);
    assert_eq!(Tape::from_index(2), Tape::W9);
    assert_eq!(Tape::from_index(3), Tape::W12);
    assert_eq!(Tape::from_index(4), Tape::W18);
    assert_eq!(Tape::from_index(5), Tape::W24);
    assert_eq!(Tape::from_index(6), Tape::W36);
    assert_eq!(Tape::from_index(0), Tape::UnknownIndex(0));
    assert_eq!(Tape::from_index(7), Tape::UnknownIndex(7));
    assert_eq!(Tape::from_index(255), Tape::UnknownIndex(255));
}

#[test]
fn error_kinds() {
    assert_eq!(Error::Transport.kind(), ErrorKind::Transport);
    assert_eq!(Error::Truncated.kind(), ErrorKind::Truncated);
    assert_eq!(Error::ShortResponse.kind(), ErrorKind::Truncated);
    assert_eq!(Error::ShapeMismatch.kind(), ErrorKind::ShapeMismatch);
    assert_eq!(Error::StartRejected.kind(), ErrorKind::ShapeMismatch);
    assert_eq!(Error::StopRejected.kind(), ErrorKind::ShapeMismatch);
    assert_eq!(Error::NotifyOpenFailed.kind(), ErrorKind::ShapeMismatch);
    assert_eq!(Error::NotifyReadyFailed.kind(), ErrorKind::ShapeMismatch);
    assert_eq!(Error::BadFrame.kind(), ErrorKind::BadFrame);
    assert_eq!(Error::BadRaster.kind(), ErrorKind::BadRaster);
    assert_eq!(Error::UnknownOpcode.kind(), ErrorKind::UnknownOpcode);
    assert_eq!(Error::UnsupportedTape.kind(), ErrorKind::UnsupportedTape);
    assert_eq!(Error::UnexpectedState.kind(), ErrorKind::UnexpectedState);
    assert_eq!(Error::NoCommand.kind(), ErrorKind::Usage);
    assert_eq!(Error::MissingPrinter.kind(), ErrorKind::Usage);
}
