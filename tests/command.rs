use firmware::command::{Command, CommandLog, DisplayMode, VcomhLevel};

#[test]
fn addresses_take_three_bytes() {
    assert_eq!(Command::ColumnAddress(0, 127).encode(), vec![0x15, 0, 127]);
    assert_eq!(Command::RowAddress(1, 63).encode(), vec![0x75, 1, 63]);
    assert_eq!(Command::VScrollArea(4, 60).encode(), vec![0xA3, 4, 60]);
}

#[test]
fn single_parameter_commands() {
    assert_eq!(Command::Contrast(0x7F).encode(), vec![0x81, 0x7F]);
    assert_eq!(Command::Remap(0x43).encode(), vec![0xA0, 0x43]);
    assert_eq!(Command::StartLine(5).encode(), vec![0xA1, 5]);
    assert_eq!(Command::DisplayOffset(9).encode(), vec![0xA2, 9]);
    assert_eq!(Command::Multiplex(63).encode(), vec![0xA8, 63]);
    assert_eq!(Command::PhaseLength(0x22).encode(), vec![0xB1, 0x22]);
    assert_eq!(Command::PreChargePeriod(8).encode(), vec![0xB6, 8]);
    assert_eq!(Command::PreChargeVoltage(0x1F).encode(), vec![0xBC, 0x1F]);
    assert_eq!(Command::DefaultGrayScale().encode(), vec![0xB9, 0]);
}

#[test]
fn flag_commands() {
    assert_eq!(Command::InternalVDD(true).encode(), vec![0xAB, 1]);
    assert_eq!(Command::InternalVDD(false).encode(), vec![0xAB, 0]);
    assert_eq!(Command::InternalIREF(true).encode(), vec![0xAD, 0x9E]);
    assert_eq!(Command::InternalIREF(false).encode(), vec![0xAD, 0x8E]);
    assert_eq!(Command::DisplayOn(true).encode(), vec![0xAF]);
    assert_eq!(Command::DisplayOn(false).encode(), vec![0xAE]);
    assert_eq!(Command::PreChargeCapacitor(true).encode(), vec![0xBD, 1]);
    assert_eq!(Command::PreChargeCapacitor(false).encode(), vec![0xBD, 0]);
}

#[test]
fn lock_flag_sits_in_bit_two() {
    assert_eq!(Command::CommandLock(true).encode(), vec![0xFD, 0x16]);
    assert_eq!(Command::CommandLock(false).encode(), vec![0xFD, 0x12]);
}

#[test]
fn clock_divider_packs_nibbles() {
    assert_eq!(Command::DisplayClockDiv(0x9, 0x1).encode(), vec![0xB3, 0x91]);
    assert_eq!(Command::DisplayClockDiv(0x1F, 0x2A).encode(), vec![0xB3, 0xFA]);
    assert_eq!(Command::DisplayClockDiv(0, 0).encode(), vec![0xB3, 0x00]);
}

#[test]
fn modes_and_levels() {
    assert_eq!(Command::Mode(DisplayMode::Normal).encode(), vec![0x4]);
    assert_eq!(Command::Mode(DisplayMode::AllOn).encode(), vec![0x5]);
    assert_eq!(Command::Mode(DisplayMode::AllOff).encode(), vec![0x6]);
    assert_eq!(Command::Mode(DisplayMode::Inverse).encode(), vec![0x7]);
    assert_eq!(Command::VcomhDeselect(VcomhLevel::V072).encode(), vec![0xBE, 0b000]);
    assert_eq!(Command::VcomhDeselect(VcomhLevel::V082).encode(), vec![0xBE, 0b101]);
    assert_eq!(Command::VcomhDeselect(VcomhLevel::V086).encode(), vec![0xBE, 0b111]);
}

#[test]
fn opcode_and_length_do_not_depend_on_parameters() {
    for v in 0..=255u8 {
        let c = Command::Contrast(v).encode();
        assert_eq!(c.len(), 2);
        assert_eq!(c[0], 0x81);
        let d = Command::DisplayClockDiv(v, 255 - v).encode();
        assert_eq!(d.len(), 2);
        assert_eq!(d[0], 0xB3);
        let e = Command::ColumnAddress(v, v / 2).encode();
        assert_eq!(e.len(), 3);
        assert_eq!(e[0], 0x15);
    }
}

#[test]
fn send_hands_one_frame_to_the_interface() {
    let mut log = CommandLog::new();
    assert_eq!(Command::DisplayOn(true).send(&mut log), Ok(()));
    assert_eq!(Command::ColumnAddress(64, 127).send(&mut log), Ok(()));
    assert_eq!(log.commands().clone(), vec![vec![0xAF], vec![0x15, 64, 127]]);
    assert!(log.data().is_empty());
}
