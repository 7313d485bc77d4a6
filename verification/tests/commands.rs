use sh1106::command::{Command, NFrames, Page, VcomhLevel};

fn encoded(c: Command) -> Vec<u8> {
    let (data, len) = c.encode();
    data[..len].to_vec()
}

#[test]
fn encode_length_never_exceeds_two() {
    let commands = vec![
        Command::Contrast(0xCD),
        Command::AllOn(true),
        Command::Invert(false),
        Command::DisplayOn(true),
        Command::ColumnAddressLow(0x7),
        Command::ColumnAddressHigh(0x7),
        Command::PageAddress(Page::Page5),
        Command::StartLine(17),
        Command::SegmentRemap(true),
        Command::Multiplex(63),
        Command::ReverseComDir(true),
        Command::DisplayOffset(12),
        Command::ComPinConfig(true),
        Command::DisplayClockDiv(0x8, 0x0),
        Command::PreChargePeriod(0x1, 0xF),
        Command::VcomhDeselect(VcomhLevel::Auto),
        Command::Noop,
        Command::ChargePump(true),
    ];
    for c in commands {
        let (_, len) = c.encode();
        assert!(len >= 1);
        assert!(len <= 2);
    }
}

#[test]
fn encode_display_on_fixed_pattern() {
    assert_eq!(encoded(Command::DisplayOn(true)), vec![0xAF]);
    assert_eq!(encoded(Command::DisplayOn(false)), vec![0xAE]);
}

#[test]
fn encode_flag_commands() {
    assert_eq!(encoded(Command::AllOn(true)), vec![0xA5]);
    assert_eq!(encoded(Command::AllOn(false)), vec![0xA4]);
    assert_eq!(encoded(Command::Invert(true)), vec![0xA7]);
    assert_eq!(encoded(Command::Invert(false)), vec![0xA6]);
    assert_eq!(encoded(Command::SegmentRemap(true)), vec![0xA1]);
    assert_eq!(encoded(Command::SegmentRemap(false)), vec![0xA0]);
    assert_eq!(encoded(Command::ReverseComDir(true)), vec![0xC8]);
    assert_eq!(encoded(Command::ReverseComDir(false)), vec![0xC0]);
}

#[test]
fn encode_parameter_commands() {
    assert_eq!(encoded(Command::Contrast(0x7F)), vec![0x81, 0x7F]);
    assert_eq!(encoded(Command::ColumnAddressLow(0xAB)), vec![0x0B]);
    assert_eq!(encoded(Command::ColumnAddressHigh(0xAB)), vec![0x1B]);
    assert_eq!(encoded(Command::PageAddress(Page::Page3)), vec![0xB3]);
    assert_eq!(encoded(Command::StartLine(0x45)), vec![0x45]);
    assert_eq!(encoded(Command::Multiplex(63)), vec![0xA8, 63]);
    assert_eq!(encoded(Command::DisplayOffset(5)), vec![0xD3, 5]);
    assert_eq!(encoded(Command::ComPinConfig(true)), vec![0xDA, 0x12]);
    assert_eq!(encoded(Command::ComPinConfig(false)), vec![0xDA, 0x02]);
    assert_eq!(encoded(Command::DisplayClockDiv(0x8, 0x0)), vec![0xD5, 0x80]);
    assert_eq!(encoded(Command::PreChargePeriod(0x1, 0xF)), vec![0x22, 0xF1]);
    assert_eq!(
        encoded(Command::VcomhDeselect(VcomhLevel::Auto)),
        vec![0x35, 0x40]
    );
    assert_eq!(encoded(Command::Noop), vec![0xE3]);
    assert_eq!(encoded(Command::ChargePump(true)), vec![0xAD, 0x8B]);
    assert_eq!(encoded(Command::ChargePump(false)), vec![0xAD, 0x8A]);
}

#[test]
fn page_from_row() {
    assert_eq!(Page::from_row(0), Page::Page0);
    assert_eq!(Page::from_row(7), Page::Page0);
    assert_eq!(Page::from_row(8), Page::Page1);
    assert_eq!(Page::from_row(17), Page::Page2);
    assert_eq!(Page::from_row(63), Page::Page7);
}

#[test]
fn page_values() {
    assert_eq!(Page::Page0.value(), 0);
    assert_eq!(Page::Page7.value(), 7);
}

#[test]
fn nframes_values() {
    assert_eq!(NFrames::F2.value(), 0b111);
    assert_eq!(NFrames::F5.value(), 0b000);
    assert_eq!(NFrames::F256.value(), 0b011);
}

#[test]
fn vcomh_values() {
    assert_eq!(VcomhLevel::V065.value(), 0b001);
    assert_eq!(VcomhLevel::V077.value(), 0b010);
    assert_eq!(VcomhLevel::V083.value(), 0b011);
    assert_eq!(VcomhLevel::Auto.value(), 0b100);
}
