//! The panel's commands: opcode and request payload of each.

use crate::spi::AsBytes;
use vstd::prelude::*;

verus! {

/// A panel command. On the wire it is the opcode, then the payload.
pub trait Command {
    type Buffer: AsBytes;

    /// The opcode.
    spec fn opcode() -> u8;

    /// The request payload.
    spec fn payload(&self) -> Seq<u8>;

    fn number() -> (n: u8)
        ensures
            n == Self::opcode(),
    ;

    fn encode(self) -> (buffer: Self::Buffer)
        ensures
            buffer.bytes() == self.payload(),
    ;
}

/// Opens a pixel stream into the addressing window.
pub struct MemoryWrite<'a>(pub &'a mut [u8]);

impl<'a> Command for MemoryWrite<'a> {
    type Buffer = &'a [u8];

    open spec fn opcode() -> u8 {
        0x2C
    }

    open spec fn payload(&self) -> Seq<u8> {
        self.0@
    }

    fn number() -> (n: u8) {
        0x2C
    }

    fn encode(self) -> (buffer: Self::Buffer) {
        let buffer: &'a [u8] = self.0;
        assert(buffer.bytes() == buffer@);
        buffer
    }
}

pub struct SleepIn;

impl Command for SleepIn {
    type Buffer = [u8; 0];

    open spec fn opcode() -> u8 {
        0x10
    }

    open spec fn payload(&self) -> Seq<u8> {
        Seq::empty()
    }

    fn number() -> (n: u8) {
        0x10
    }

    fn encode(self) -> (buffer: Self::Buffer) {
        let buffer: [u8; 0] = [];
        assert(buffer.bytes() =~= Seq::<u8>::empty());
        buffer
    }
}

pub struct SleepOut;

impl Command for SleepOut {
    type Buffer = [u8; 0];

    open spec fn opcode() -> u8 {
        0x11
    }

    open spec fn payload(&self) -> Seq<u8> {
        Seq::empty()
    }

    fn number() -> (n: u8) {
        0x11
    }

    fn encode(self) -> (buffer: Self::Buffer) {
        let buffer: [u8; 0] = [];
        assert(buffer.bytes() =~= Seq::<u8>::empty());
        buffer
    }
}

pub struct PartialModeOn;

impl Command for PartialModeOn {
    type Buffer = [u8; 0];

    open spec fn opcode() -> u8 {
        0x12
    }

    open spec fn payload(&self) -> Seq<u8> {
        Seq::empty()
    }

    fn number() -> (n: u8) {
        0x12
    }

    fn encode(self) -> (buffer: Self::Buffer) {
        let buffer: [u8; 0] = [];
        assert(buffer.bytes() =~= Seq::<u8>::empty());
        buffer
    }
}

pub struct InversionOn;

impl Command for InversionOn {
    type Buffer = [u8; 0];

    open spec fn opcode() -> u8 {
        0x21
    }

    open spec fn payload(&self) -> Seq<u8> {
        Seq::empty()
    }

    fn number() -> (n: u8) {
        0x21
    }

    fn encode(self) -> (buffer: Self::Buffer) {
        let buffer: [u8; 0] = [];
        assert(buffer.bytes() =~= Seq::<u8>::empty());
        buffer
    }
}

pub struct InversionOff;

impl Command for InversionOff {
    type Buffer = [u8; 0];

    open spec fn opcode() -> u8 {
        0x28
    }

    open spec fn payload(&self) -> Seq<u8> {
        Seq::empty()
    }

    fn number() -> (n: u8) {
        0x28
    }

    fn encode(self) -> (buffer: Self::Buffer) {
        let buffer: [u8; 0] = [];
        assert(buffer.bytes() =~= Seq::<u8>::empty());
        buffer
    }
}

pub struct DisplayOn;

impl Command for DisplayOn {
    type Buffer = [u8; 0];

    open spec fn opcode() -> u8 {
        0x29
    }

    open spec fn payload(&self) -> Seq<u8> {
        Seq::empty()
    }

    fn number() -> (n: u8) {
        0x29
    }

    fn encode(self) -> (buffer: Self::Buffer) {
        let buffer: [u8; 0] = [];
        assert(buffer.bytes() =~= Seq::<u8>::empty());
        buffer
    }
}

pub struct DisplayOff;

impl Command for DisplayOff {
    type Buffer = [u8; 0];

    open spec fn opcode() -> u8 {
        0x28
    }

    open spec fn payload(&self) -> Seq<u8> {
        Seq::empty()
    }

    fn number() -> (n: u8) {
        0x28
    }

    fn encode(self) -> (buffer: Self::Buffer) {
        let buffer: [u8; 0] = [];
        assert(buffer.bytes() =~= Seq::<u8>::empty());
        buffer
    }
}

/// A 16-bit start and a 16-bit end, each with its high byte first.
pub open spec fn range_payload(start: u16, end: u16) -> Seq<u8> {
    seq![(start >> 8u16) as u8, (start & 0xff) as u8, (end >> 8u16) as u8, (end & 0xff) as u8]
}

fn encode_range(start: u16, end: u16) -> (buffer: [u8; 4])
    ensures
        buffer@ == range_payload(start, end),
{
    assert(start >> 8u16 <= 0xff) by (bit_vector);
    assert(start & 0xff <= 0xff) by (bit_vector);
    assert(end >> 8u16 <= 0xff) by (bit_vector);
    assert(end & 0xff <= 0xff) by (bit_vector);
    let buffer = [(start >> 8) as u8, (start & 0xff) as u8, (end >> 8) as u8, (end & 0xff) as u8];
    assert(buffer@ =~= range_payload(start, end));
    buffer
}

#[derive(Debug, Copy, Clone)]
pub struct ColumnAddressSet {
    /// Start X
    pub sc: u16,
    /// End X
    pub ec: u16,
}

impl Command for ColumnAddressSet {
    type Buffer = [u8; 4];

    open spec fn opcode() -> u8 {
        0x2A
    }

    open spec fn payload(&self) -> Seq<u8> {
        range_payload(self.sc, self.ec)
    }

    fn number() -> (n: u8) {
        0x2A
    }

    fn encode(self) -> (buffer: Self::Buffer) {
        let buffer = encode_range(self.sc, self.ec);
        assert(buffer.bytes() == buffer@);
        buffer
    }
}

#[derive(Debug, Copy, Clone)]
pub struct PageAddressSet {
    /// Start Y
    pub sp: u16,
    /// End Y
    pub ep: u16,
}

impl Command for PageAddressSet {
    type Buffer = [u8; 4];

    open spec fn opcode() -> u8 {
        0x2B
    }

    open spec fn payload(&self) -> Seq<u8> {
        range_payload(self.sp, self.ep)
    }

    fn number() -> (n: u8) {
        0x2B
    }

    fn encode(self) -> (buffer: Self::Buffer) {
        let buffer = encode_range(self.sp, self.ep);
        assert(buffer.bytes() == buffer@);
        buffer
    }
}

#[derive(Debug, Copy, Clone)]
pub struct PartialArea {
    /// Start Y
    pub sr: u16,
    /// End Y
    pub er: u16,
}

impl Command for PartialArea {
    type Buffer = [u8; 4];

    open spec fn opcode() -> u8 {
        0x30
    }

    open spec fn payload(&self) -> Seq<u8> {
        range_payload(self.sr, self.er)
    }

    fn number() -> (n: u8) {
        0x30
    }

    fn encode(self) -> (buffer: Self::Buffer) {
        let buffer = encode_range(self.sr, self.er);
        assert(buffer.bytes() == buffer@);
        buffer
    }
}

/// `1 << bit` where the condition holds, else 0.
pub open spec fn bit_if(condition: bool, bit: u8) -> u8 {
    if condition {
        1u8 << bit
    } else {
        0u8
    }
}

fn exec_bit_if(condition: bool, bit: u8) -> (mask: u8)
    requires
        bit < 8,
    ensures
        mask == bit_if(condition, bit),
{
    if condition {
        1 << bit
    } else {
        0
    }
}

/// Orientation of the panel's memory.
pub struct MemoryAccessControl {
    pub row_addr_order: bool,
    pub col_addr_order: bool,
    pub row_col_exchange: bool,
    pub vert_refresh_order: bool,
    pub horiz_refresh_order: bool,
    pub rgb_to_bgr: bool,
}

impl MemoryAccessControl {
    /// The flags in one byte: row order in bit 7, column order in bit 6,
    /// row/column exchange in bit 5, vertical refresh order in bit 4,
    /// RGB/BGR in bit 3, horizontal refresh order in bit 2.
    pub open spec fn flags(&self) -> u8 {
        bit_if(self.row_addr_order, 7) | bit_if(self.col_addr_order, 6) | bit_if(
            self.row_col_exchange,
            5,
        ) | bit_if(self.vert_refresh_order, 4) | bit_if(self.rgb_to_bgr, 3) | bit_if(
            self.horiz_refresh_order,
            2,
        )
    }
}

impl Command for MemoryAccessControl {
    type Buffer = [u8; 1];

    open spec fn opcode() -> u8 {
        0x36
    }

    open spec fn payload(&self) -> Seq<u8> {
        seq![self.flags()]
    }

    fn number() -> (n: u8) {
        0x36
    }

    fn encode(self) -> (buffer: Self::Buffer) {
        let my = exec_bit_if(self.row_addr_order, 7);
        let mx = exec_bit_if(self.col_addr_order, 6);
        let mv = exec_bit_if(self.row_col_exchange, 5);
        let ml = exec_bit_if(self.vert_refresh_order, 4);
        let bgr = exec_bit_if(self.rgb_to_bgr, 3);
        let mh = exec_bit_if(self.horiz_refresh_order, 2);
        let buffer = [my | mx | mv | ml | bgr | mh];
        assert(buffer.bytes() =~= seq![self.flags()]);
        buffer
    }
}

/// Bits per pixel on an interface.
#[derive(Debug, Copy, Clone, PartialEq, Eq, Structural)]
pub enum PixelFormat {
    Bpp16,
    Bpp18,
}

impl PixelFormat {
    /// The format's code: `0b101` for 16 bits per pixel, `0b110` for 18.
    pub open spec fn spec_bits(self) -> u8 {
        match self {
            PixelFormat::Bpp16 => 0b101,
            PixelFormat::Bpp18 => 0b110,
        }
    }

    #[verifier::when_used_as_spec(spec_bits)]
    pub fn bits(self) -> (code: u8)
        ensures
            code == self.spec_bits(),
    {
        match self {
            PixelFormat::Bpp16 => 0b101,
            PixelFormat::Bpp18 => 0b110,
        }
    }

    /// The format with the given code. Only the two codes of `bits` name a
    /// format.
    pub fn from(x: u8) -> (format: Self)
        requires
            x == 0b101 || x == 0b110,
        ensures
            format.bits() == x,
    {
        if x == 0b101 {
            PixelFormat::Bpp16
        } else {
            PixelFormat::Bpp18
        }
    }
}

/// Pixel formats of the CPU interface and of the RGB interface.
#[derive(Debug, Copy, Clone)]
pub struct InterfacePixelFormat {
    pub cpu_format: PixelFormat,
    pub rgb_format: PixelFormat,
}

impl InterfacePixelFormat {
    /// CPU format in the high nibble, RGB format in the low one.
    pub open spec fn formats(&self) -> u8 {
        (self.cpu_format.bits() << 4u8) | self.rgb_format.bits()
    }
}

impl Command for InterfacePixelFormat {
    type Buffer = [u8; 1];

    open spec fn opcode() -> u8 {
        0x3A
    }

    open spec fn payload(&self) -> Seq<u8> {
        seq![self.formats()]
    }

    fn number() -> (n: u8) {
        0x3A
    }

    fn encode(self) -> (buffer: Self::Buffer) {
        let buffer = [(self.cpu_format.bits() << 4) | self.rgb_format.bits()];
        assert(buffer.bytes() =~= seq![self.formats()]);
        buffer
    }
}

/// Asks the panel who made it. The answer comes back in the payload phase.
pub struct ReadDisplayIdentification;

impl Command for ReadDisplayIdentification {
    type Buffer = [u8; 0];

    open spec fn opcode() -> u8 {
        0x04
    }

    open spec fn payload(&self) -> Seq<u8> {
        Seq::empty()
    }

    fn number() -> (n: u8) {
        0x04
    }

    fn encode(self) -> (buffer: Self::Buffer) {
        let buffer: [u8; 0] = [];
        assert(buffer.bytes() =~= Seq::<u8>::empty());
        buffer
    }
}

/// Bytes in the panel's answer to `ReadDisplayIdentification`.
pub const IDENTIFICATION_BYTES: usize = 4;

/// What the panel says of itself.
#[derive(Debug, Copy, Clone, PartialEq, Eq, Structural)]
pub struct DisplayIdentification {
    pub manufacturer: u8,
    pub version: u8,
    pub module: u8,
}

impl DisplayIdentification {
    /// The answer taken apart: a dummy byte first, then manufacturer,
    /// version and module.
    pub open spec fn spec_decode(response: Seq<u8>) -> DisplayIdentification {
        DisplayIdentification {
            manufacturer: response[1],
            version: response[2],
            module: response[3],
        }
    }

    pub fn decode(response: &[u8; IDENTIFICATION_BYTES]) -> (id: Self)
        ensures
            id == Self::spec_decode(response@),
    {
        DisplayIdentification {
            manufacturer: response[1],
            version: response[2],
            module: response[3],
        }
    }
}

} // verus!
