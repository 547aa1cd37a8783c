use touch_display::display::xpt2046::command::Command;
use touch_display::display::xpt2046::read_commands::{read_commands, PASS_COMMANDS, XY_READS};
use touch_display::display::xpt2046::{
    channels, nearest_avg, pressure, read_12bits, reduce_pass, strength, MAX_SCALE,
};

fn response(value: u16) -> [u8; 2] {
    [(value >> 5) as u8, ((value & 0x1F) << 3) as u8]
}

#[test]
fn nearest_avg_picks_the_closest_pair() {
    assert_eq!(nearest_avg(&[10, 40, 12]), 11);
}

#[test]
fn nearest_avg_first_found_wins_a_tie() {
    assert_eq!(nearest_avg(&[12, 50, 11, 49]), 11);
}

#[test]
fn nearest_avg_without_the_first_reading() {
    let samples = [12u16, 50, 11, 49];
    assert_eq!(nearest_avg(&samples[1..]), 49);
}

#[test]
fn nearest_avg_of_two() {
    assert_eq!(nearest_avg(&[7, 10]), 8);
    assert_eq!(nearest_avg(&[65535, 65535]), 65535);
    assert_eq!(nearest_avg(&[0, 65535]), 32767);
}

#[test]
fn nearest_avg_looks_at_pairs_with_the_first_element() {
    assert_eq!(nearest_avg(&[100, 500, 900, 102]), 101);
}

#[test]
fn pressure_of_a_light_touch() {
    assert_eq!(pressure(100, 50, 60), 2);
    assert_eq!(strength(100, 50, 60), 998);
}

#[test]
fn pressure_is_zero_without_contact() {
    assert_eq!(pressure(0, 50, 60), 0);
    assert_eq!(pressure(100, 0, 60), 0);
    assert_eq!(pressure(100, 60, 50), 0);
    assert_eq!(strength(0, 50, 60), MAX_SCALE as u16);
    assert_eq!(strength(100, 0, 60), 1000);
}

#[test]
fn pressure_rounds_to_nearest() {
    // 1 * 21 * 400 / 4 = 2100; 2100 + 2047 = 4147; 4147 >> 12 = 1
    assert_eq!(pressure(21, 4, 5), 1);
    // 1 * 20 * 400 / 4 = 2000; 2000 + 2047 = 4047; 4047 >> 12 = 0
    assert_eq!(pressure(20, 4, 5), 0);
}

#[test]
fn strength_saturates_at_zero() {
    assert_eq!(pressure(4095, 1, 4095), 1637200);
    assert_eq!(strength(4095, 1, 4095), 0);
    assert_eq!(pressure(65535, 1, 65535), 419411200);
    assert_eq!(strength(65535, 1, 65535), 0);
}

#[test]
fn read_12bits_joins_the_two_bytes() {
    assert_eq!(read_12bits(&[0x12, 0x34]), 0x246);
    assert_eq!(read_12bits(&[0x7F, 0xF8]), 0xFFF);
    assert_eq!(read_12bits(&[0x00, 0x07]), 0);
    assert_eq!(read_12bits(&response(1234)), 1234);
}

#[test]
fn control_bytes() {
    let x = Command { channel: channels::X, mode: false, ser_dfr: false, pd1: true, pd0: true };
    assert_eq!(u8::from(x), 0xD3);
    let y = Command { channel: channels::Y, mode: false, ser_dfr: false, pd1: true, pd0: true };
    assert_eq!(u8::from(y), 0x93);
    let z1 = Command { channel: channels::Z1, mode: false, ser_dfr: true, pd1: false, pd0: false };
    assert_eq!(u8::from(z1), 0xB4);
    let all = Command { channel: 7, mode: true, ser_dfr: true, pd1: true, pd0: true };
    let byte: u8 = all.into();
    assert_eq!(byte, 0xFF);
    let none = Command { channel: 0, mode: false, ser_dfr: false, pd1: false, pd0: false };
    assert_eq!(u8::from(none), 0x80);
    let mode_only = Command { channel: 0, mode: true, ser_dfr: false, pd1: false, pd0: false };
    assert_eq!(u8::from(mode_only), 0x88);
}

#[test]
fn a_pass_is_four_pairs_then_the_pressure_reads() {
    let mut commands = read_commands();
    let mut bytes = Vec::new();
    while let Some(c) = commands.next() {
        assert!(!c.mode);
        bytes.push(u8::from(c));
    }
    assert_eq!(bytes, vec![0xD3, 0x93, 0xD3, 0x93, 0xD3, 0x93, 0xD3, 0x93, 0xB4, 0xC4]);
    assert!(commands.next().is_none());
    assert!(commands.next().is_none());
    assert_eq!(PASS_COMMANDS, 2 * XY_READS + 2);
}

#[test]
fn collect_gives_what_is_left() {
    let mut commands = read_commands();
    commands.next();
    commands.next();
    let rest = commands.collect();
    assert_eq!(rest.len(), 8);
    assert_eq!(u8::from(rest[0]), 0xD3);
    assert_eq!(u8::from(rest[7]), 0xC4);
    assert!(commands.next().is_none());
}

#[test]
fn a_pass_is_reduced_without_the_first_readings() {
    // x: 999 is left out, 100 and 104 are nearest; y: 5 is left out, 2000
    // and 2010 are nearest; 10 * 102 * 400 / 50 = 8160, rounded and scaled 2
    let samples = [999, 5, 100, 2000, 300, 2010, 104, 1000, 50, 60];
    assert_eq!(reduce_pass(&samples), (102, 2005, 998));
}

#[test]
fn a_pass_without_contact() {
    assert_eq!(reduce_pass(&[0; 10]), (0, 0, 1000));
    assert_eq!(reduce_pass(&[7, 7, 7, 7, 7, 7, 7, 7, 0, 9]), (7, 7, 1000));
}

#[test]
fn a_pass_with_a_tie_among_the_candidates() {
    // the candidates of x are 50, 11, 49: 50 and 49 are nearest
    let samples = [12, 0, 50, 0, 11, 0, 49, 0, 1, 1];
    assert_eq!(reduce_pass(&samples).0, 49);
}
