use touch_display::display::ili9486::command::{
    ColumnAddressSet, Command, DisplayOff, DisplayOn, InterfacePixelFormat, InversionOff,
    InversionOn, MemoryAccessControl, MemoryWrite, PageAddressSet, PartialArea, PartialModeOn,
    PixelFormat, SleepIn, SleepOut,
};
use touch_display::display::{rgb_from_16bpp, rgb_to_16bpp, spi_mode0, HEIGHT, WIDTH};
use touch_display::display::spi1::Target;
use touch_display::spi::AsBytes;

fn flags(
    row_addr_order: bool,
    col_addr_order: bool,
    row_col_exchange: bool,
    vert_refresh_order: bool,
    rgb_to_bgr: bool,
    horiz_refresh_order: bool,
) -> u8 {
    MemoryAccessControl {
        row_addr_order,
        col_addr_order,
        row_col_exchange,
        vert_refresh_order,
        horiz_refresh_order,
        rgb_to_bgr,
    }
    .encode()[0]
}

#[test]
fn memory_access_control_bgr_only_is_0x08() {
    assert_eq!(flags(false, false, false, false, true, false), 0x08);
}

#[test]
fn memory_access_control_places_each_flag() {
    assert_eq!(flags(true, false, false, false, false, false), 0x80);
    assert_eq!(flags(false, true, false, false, false, false), 0x40);
    assert_eq!(flags(false, false, true, false, false, false), 0x20);
    assert_eq!(flags(false, false, false, true, false, false), 0x10);
    assert_eq!(flags(false, false, false, false, false, true), 0x04);
    assert_eq!(flags(false, false, false, false, false, false), 0x00);
    assert_eq!(flags(true, true, true, true, true, true), 0xFC);
}

#[test]
fn panel_orientation_byte_is_0x48() {
    assert_eq!(flags(false, true, false, false, true, false), 0x48);
}

#[test]
fn interface_pixel_format_16_16_is_0x55() {
    let c = InterfacePixelFormat {
        cpu_format: PixelFormat::Bpp16,
        rgb_format: PixelFormat::Bpp16,
    };
    assert_eq!(c.encode(), [0x55]);
}

#[test]
fn interface_pixel_format_mixed() {
    let c = InterfacePixelFormat {
        cpu_format: PixelFormat::Bpp18,
        rgb_format: PixelFormat::Bpp16,
    };
    assert_eq!(c.encode(), [0x65]);
    let c = InterfacePixelFormat {
        cpu_format: PixelFormat::Bpp16,
        rgb_format: PixelFormat::Bpp18,
    };
    assert_eq!(c.encode(), [0x56]);
}

#[test]
fn pixel_format_codes() {
    assert_eq!(PixelFormat::Bpp16.bits(), 0b101);
    assert_eq!(PixelFormat::Bpp18.bits(), 0b110);
    assert_eq!(PixelFormat::from(0b101), PixelFormat::Bpp16);
    assert_eq!(PixelFormat::from(0b110), PixelFormat::Bpp18);
}

#[test]
fn opcodes_are_the_panel_s() {
    assert_eq!(SleepIn::number(), 0x10);
    assert_eq!(SleepOut::number(), 0x11);
    assert_eq!(PartialModeOn::number(), 0x12);
    assert_eq!(InversionOn::number(), 0x21);
    assert_eq!(InversionOff::number(), 0x28);
    assert_eq!(DisplayOn::number(), 0x29);
    assert_eq!(DisplayOff::number(), 0x28);
    assert_eq!(ColumnAddressSet::number(), 0x2A);
    assert_eq!(PageAddressSet::number(), 0x2B);
    assert_eq!(MemoryWrite::number(), 0x2C);
    assert_eq!(PartialArea::number(), 0x30);
    assert_eq!(MemoryAccessControl::number(), 0x36);
    assert_eq!(InterfacePixelFormat::number(), 0x3A);
}

#[test]
fn simple_commands_have_no_payload() {
    assert_eq!(SleepIn.encode().len(), 0);
    assert_eq!(SleepOut.encode().len(), 0);
    assert_eq!(PartialModeOn.encode().len(), 0);
    assert_eq!(InversionOn.encode().len(), 0);
    assert_eq!(InversionOff.encode().len(), 0);
    assert_eq!(DisplayOn.encode().len(), 0);
    assert_eq!(DisplayOff.encode().len(), 0);
}

#[test]
fn address_ranges_are_big_endian() {
    assert_eq!(
        ColumnAddressSet { sc: 0x0102, ec: 0x0304 }.encode(),
        [0x01, 0x02, 0x03, 0x04]
    );
    assert_eq!(
        PageAddressSet { sp: 0, ep: 479 }.encode(),
        [0x00, 0x00, 0x01, 0xDF]
    );
    assert_eq!(
        PartialArea { sr: 0xFFFF, er: 0x00FF }.encode(),
        [0xFF, 0xFF, 0x00, 0xFF]
    );
}

#[test]
fn memory_write_payload_is_the_pixel_stream() {
    let mut pixels = [1u8, 2, 3, 4, 5];
    let buffer = MemoryWrite(&mut pixels).encode();
    assert_eq!(buffer.as_bytes(), &[1u8, 2, 3, 4, 5]);
}

#[test]
fn color_packing_round_trip_of_exact_color() {
    let bytes = rgb_to_16bpp(248, 64, 8);
    assert_eq!(bytes, [0xFA, 0x01]);
    assert_eq!(rgb_from_16bpp(bytes), (248, 64, 8));
}

#[test]
fn color_packing_drops_the_low_bits() {
    let bytes = rgb_to_16bpp(0x12, 0x34, 0x56);
    assert_eq!(bytes, [0x11, 0xAA]);
    assert_eq!(rgb_from_16bpp(bytes), (0x10, 0x34, 0x50));
    let bytes = rgb_to_16bpp(255, 255, 255);
    assert_eq!(bytes, [0xFF, 0xFF]);
    assert_eq!(rgb_from_16bpp(bytes), (0xF8, 0xFC, 0xF8));
    assert_eq!(rgb_to_16bpp(0, 0, 0), [0, 0]);
    assert_eq!(rgb_to_16bpp(7, 3, 7), [0, 0]);
}

#[test]
fn color_round_trip_law_on_every_green() {
    for g in 0..=255u8 {
        let (r, g2, b) = rgb_from_16bpp(rgb_to_16bpp(0xA5, g, 0x5A));
        assert_eq!((r, g2, b), (0xA5 & 0xF8, g & 0xFC, 0x5A & 0xF8));
    }
}

#[test]
fn targets_have_their_clock_and_mode() {
    assert_eq!(Target::Tft.mhz(), 12);
    assert_eq!(Target::Ts.mhz(), 2);
    assert_eq!(Target::Sd.mhz(), 8);
    assert!(Target::Tft.mode() == embedded_hal::spi::MODE_0);
    assert!(Target::Ts.mode() == embedded_hal::spi::MODE_0);
    assert!(Target::Sd.mode() == embedded_hal::spi::MODE_0);
    assert!(spi_mode0() == embedded_hal::spi::MODE_0);
}

#[test]
fn panel_size() {
    assert_eq!(WIDTH, 320);
    assert_eq!(HEIGHT, 480);
}
