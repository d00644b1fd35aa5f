use vstd::prelude::*;

verus! {

/// A bus to the display controller that takes command bytes and data bytes.
pub trait DisplayInterface {
    type Error;

    /// The command frames that this interface has accepted so far, oldest
    /// first. An interface that keeps no account of them leaves this empty.
    closed spec fn sent_commands(&self) -> Seq<Seq<u8>> {
        Seq::empty()
    }

    /// Sends `cmds` as one command frame.
    fn send_commands(&mut self, cmds: &[u8]) -> (r: Result<(), Self::Error>)
        ensures
            r is Ok ==> final(self).sent_commands() == old(self).sent_commands().push(cmds@),
            r is Err ==> final(self).sent_commands() == old(self).sent_commands(),
    ;

    /// Sends `buf` as display data.
    fn send_data(&mut self, buf: &[u8]) -> (r: Result<(), Self::Error>)
        ensures
            final(self).sent_commands() == old(self).sent_commands(),
    ;
}

/// Display mode selection.
#[derive(Clone, Copy, Debug, PartialEq, Eq, Structural)]
pub enum DisplayMode {
    Normal,
    AllOn,
    AllOff,
    Inverse,
}

impl DisplayMode {
    pub open spec fn spec_code(self) -> u8 {
        match self {
            DisplayMode::Normal => 0x4,
            DisplayMode::AllOn => 0x5,
            DisplayMode::AllOff => 0x6,
            DisplayMode::Inverse => 0x7,
        }
    }

    /// The byte that selects this mode.
    pub fn code(self) -> (r: u8)
        ensures
            r == self.spec_code(),
    {
        match self {
            DisplayMode::Normal => 0x4,
            DisplayMode::AllOn => 0x5,
            DisplayMode::AllOff => 0x6,
            DisplayMode::Inverse => 0x7,
        }
    }
}

/// Vcomh deselect level.
#[derive(Clone, Copy, Debug, PartialEq, Eq, Structural)]
pub enum VcomhLevel {
    /// 0.72 * Vcc
    V072,
    /// 0.77 * Vcc
    V082,
    /// 0.83 * Vcc
    V086,
}

impl VcomhLevel {
    pub open spec fn spec_code(self) -> u8 {
        match self {
            VcomhLevel::V072 => 0b000,
            VcomhLevel::V082 => 0b101,
            VcomhLevel::V086 => 0b111,
        }
    }

    /// The parameter byte that selects this level.
    pub fn code(self) -> (r: u8)
        ensures
            r == self.spec_code(),
    {
        match self {
            VcomhLevel::V072 => 0b000,
            VcomhLevel::V082 => 0b101,
            VcomhLevel::V086 => 0b111,
        }
    }
}

/// One operation of the SSD1362 display controller, with its parameters.
#[derive(Debug)]
pub enum Command {
    /// Column start and end address, 0 to 127; horizontal or vertical
    /// addressing mode only.
    ColumnAddress(u8, u8),
    /// Row start and end address, 0 to 63; horizontal or vertical addressing
    /// mode only.
    RowAddress(u8, u8),
    /// Contrast; higher is more. Reset value 0x7F.
    Contrast(u8),
    /// Re-map flags, as one byte.
    Remap(u8),
    /// Display start line, 0 to 63.
    StartLine(u8),
    /// Vertical offset by COM, 0 to 63.
    DisplayOffset(u8),
    /// Rows above the scroll area (0 to 63) and rows that scroll (0 to 64).
    VScrollArea(u8, u8),
    /// Display mode.
    Mode(DisplayMode),
    /// Multiplex ratio, 3 to 63 (MUX - 1).
    Multiplex(u8),
    /// true selects the internal VDD, false an external one.
    InternalVDD(bool),
    /// true selects the internal I_REF, false an external one.
    InternalIREF(bool),
    /// Turns the display on or off.
    DisplayOn(bool),
    /// PWM phase 1 and phase 2 lengths.
    PhaseLength(u8),
    /// Oscillator frequency (high nibble) and divide ratio - 1 (low nibble).
    DisplayClockDiv(u8, u8),
    /// Second pre-charge period, 1 to 15.
    PreChargePeriod(u8),
    /// Linear gray scale table.
    DefaultGrayScale(),
    /// Pre-charge voltage level, 0 to 0x1F.
    PreChargeVoltage(u8),
    /// true when an external Vp capacitor is fitted.
    PreChargeCapacitor(bool),
    /// Vcomh deselect level.
    VcomhDeselect(VcomhLevel),
    /// true locks the controller's interface against further commands.
    CommandLock(bool),
}

pub open spec fn flag(b: bool) -> u8 {
    if b { 1 } else { 0 }
}

/// Oscillator frequency in the high nibble, divide ratio in the low nibble.
pub open spec fn clock_div_byte(fosc: u8, div: u8) -> u8 {
    ((fosc as int % 16) * 16 + div as int % 16) as u8
}

/// The lock flag in bit 2, over the fixed pattern 0x12.
pub open spec fn lock_byte(lock: bool) -> u8 {
    if lock { 0x16 } else { 0x12 }
}

/// The internal I_REF flag in bit 4, over the fixed pattern 0x8E.
pub open spec fn iref_byte(en: bool) -> u8 {
    if en { 0x9E } else { 0x8E }
}

fn frame1(op: u8) -> (r: Vec<u8>)
    ensures
        r@ == seq![op],
{
    let mut v: Vec<u8> = Vec::new();
    v.push(op);
    assert(v@ =~= seq![op]);
    v
}

fn frame2(op: u8, p: u8) -> (r: Vec<u8>)
    ensures
        r@ == seq![op, p],
{
    let mut v: Vec<u8> = Vec::new();
    v.push(op);
    v.push(p);
    assert(v@ =~= seq![op, p]);
    v
}

fn frame3(op: u8, p: u8, q: u8) -> (r: Vec<u8>)
    ensures
        r@ == seq![op, p, q],
{
    let mut v: Vec<u8> = Vec::new();
    v.push(op);
    v.push(p);
    v.push(q);
    assert(v@ =~= seq![op, p, q]);
    v
}

impl Command {
    /// The bytes that carry this command on the bus: opcode first, then
    /// parameters.
    pub open spec fn encoding(self) -> Seq<u8> {
        match self {
            Command::ColumnAddress(start, end) => seq![0x15, start, end],
            Command::RowAddress(start, end) => seq![0x75, start, end],
            Command::Contrast(val) => seq![0x81, val],
            Command::Remap(remap) => seq![0xA0, remap],
            Command::StartLine(line) => seq![0xA1, line],
            Command::DisplayOffset(offset) => seq![0xA2, offset],
            Command::VScrollArea(above, lines) => seq![0xA3, above, lines],
            Command::Mode(mode) => seq![mode.spec_code()],
            Command::Multiplex(ratio) => seq![0xA8, ratio],
            Command::InternalVDD(en) => seq![0xAB, flag(en)],
            Command::InternalIREF(en) => seq![0xAD, iref_byte(en)],
            Command::DisplayOn(on) => seq![(0xAE + flag(on)) as u8],
            Command::PhaseLength(len) => seq![0xB1, len],
            Command::DisplayClockDiv(fosc, div) => seq![0xB3, clock_div_byte(fosc, div)],
            Command::PreChargePeriod(period) => seq![0xB6, period],
            Command::DefaultGrayScale() => seq![0xB9, 0],
            Command::PreChargeVoltage(vol) => seq![0xBC, vol],
            Command::PreChargeCapacitor(cap) => seq![0xBD, flag(cap)],
            Command::VcomhDeselect(level) => seq![0xBE, level.spec_code()],
            Command::CommandLock(lock) => seq![0xFD, lock_byte(lock)],
        }
    }

    /// The number of bytes that a command of this variant takes on the bus.
    pub open spec fn declared_len(self) -> nat {
        match self {
            Command::ColumnAddress(..) | Command::RowAddress(..) | Command::VScrollArea(..) => 3,
            Command::Mode(..) | Command::DisplayOn(..) => 1,
            _ => 2,
        }
    }

    /// Whether two commands are of the same variant, whatever their parameters.
    pub open spec fn same_variant(self, other: Command) -> bool {
        match (self, other) {
            (Command::ColumnAddress(..), Command::ColumnAddress(..)) => true,
            (Command::RowAddress(..), Command::RowAddress(..)) => true,
            (Command::Contrast(..), Command::Contrast(..)) => true,
            (Command::Remap(..), Command::Remap(..)) => true,
            (Command::StartLine(..), Command::StartLine(..)) => true,
            (Command::DisplayOffset(..), Command::DisplayOffset(..)) => true,
            (Command::VScrollArea(..), Command::VScrollArea(..)) => true,
            (Command::Mode(..), Command::Mode(..)) => true,
            (Command::Multiplex(..), Command::Multiplex(..)) => true,
            (Command::InternalVDD(..), Command::InternalVDD(..)) => true,
            (Command::InternalIREF(..), Command::InternalIREF(..)) => true,
            (Command::DisplayOn(..), Command::DisplayOn(..)) => true,
            (Command::PhaseLength(..), Command::PhaseLength(..)) => true,
            (Command::DisplayClockDiv(..), Command::DisplayClockDiv(..)) => true,
            (Command::PreChargePeriod(..), Command::PreChargePeriod(..)) => true,
            (Command::DefaultGrayScale(), Command::DefaultGrayScale()) => true,
            (Command::PreChargeVoltage(..), Command::PreChargeVoltage(..)) => true,
            (Command::PreChargeCapacitor(..), Command::PreChargeCapacitor(..)) => true,
            (Command::VcomhDeselect(..), Command::VcomhDeselect(..)) => true,
            (Command::CommandLock(..), Command::CommandLock(..)) => true,
            _ => false,
        }
    }

    /// Whether this variant carries its parameter inside the opcode byte.
    pub open spec fn param_in_opcode(self) -> bool {
        self is Mode || self is DisplayOn
    }

    /// The bytes of this command on the bus.
    pub fn encode(&self) -> (r: Vec<u8>)
        ensures
            r@ == self.encoding(),
    {
        match *self {
            Command::ColumnAddress(start, end) => frame3(0x15, start, end),
            Command::RowAddress(start, end) => frame3(0x75, start, end),
            Command::Contrast(val) => frame2(0x81, val),
            Command::Remap(remap) => frame2(0xA0, remap),
            Command::StartLine(line) => frame2(0xA1, line),
            Command::DisplayOffset(offset) => frame2(0xA2, offset),
            Command::VScrollArea(above, lines) => frame3(0xA3, above, lines),
            Command::Mode(mode) => frame1(mode.code()),
            Command::Multiplex(ratio) => frame2(0xA8, ratio),
            Command::InternalVDD(en) => frame2(0xAB, en as u8),
            Command::InternalIREF(en) => {
                let e: u8 = en as u8;
                let packed: u8 = (e << 4) | 0x8E;
                assert(packed == if e == 1 { 0x9Eu8 } else { 0x8Eu8 }) by (bit_vector)
                    requires
                        e == 0 || e == 1,
                        packed == (e << 4) | 0x8E,
                ;
                frame2(0xAD, packed)
            },
            Command::DisplayOn(on) => {
                let e: u8 = on as u8;
                let packed: u8 = 0xAE | e;
                assert(packed == 0xAE + e) by (bit_vector)
                    requires
                        e == 0 || e == 1,
                        packed == 0xAE | e,
                ;
                frame1(packed)
            },
            Command::PhaseLength(len) => frame2(0xB1, len),
            Command::DisplayClockDiv(fosc, div) => {
                let packed: u8 = ((0xF & fosc) << 4) | (0xF & div);
                assert(packed == ((fosc % 16) * 16 + div % 16) as u8) by (bit_vector)
                    requires
                        packed == ((0xF & fosc) << 4) | (0xF & div),
                ;
                frame2(0xB3, packed)
            },
            Command::PreChargePeriod(period) => frame2(0xB6, period),
            Command::DefaultGrayScale() => frame2(0xB9, 0),
            Command::PreChargeVoltage(vol) => frame2(0xBC, vol),
            Command::PreChargeCapacitor(cap) => frame2(0xBD, cap as u8),
            Command::VcomhDeselect(level) => frame2(0xBE, level.code()),
            Command::CommandLock(lock) => {
                let e: u8 = lock as u8;
                let packed: u8 = (e << 2) | 0x12;
                assert(packed == if e == 1 { 0x16u8 } else { 0x12u8 }) by (bit_vector)
                    requires
                        e == 0 || e == 1,
                        packed == (e << 2) | 0x12,
                ;
                frame2(0xFD, packed)
            },
        }
    }

    /// Sends this command over `iface` as one command frame.
    pub fn send<DI: DisplayInterface>(self, iface: &mut DI) -> (r: Result<(), DI::Error>)
        ensures
            r is Ok ==> final(iface).sent_commands() == old(iface).sent_commands().push(
                self.encoding(),
            ),
            r is Err ==> final(iface).sent_commands() == old(iface).sent_commands(),
    {
        let data = self.encode();
        iface.send_commands(data.as_slice())
    }
}

/// A display interface that keeps every frame it is sent, for inspection.
pub struct CommandLog {
    commands: Vec<Vec<u8>>,
    data: Vec<u8>,
}

fn copy_bytes(src: &[u8]) -> (r: Vec<u8>)
    ensures
        r@ == src@,
{
    let mut v: Vec<u8> = Vec::new();
    let mut i: usize = 0;
    while i < src.len()
        invariant
            i <= src@.len(),
            v@ == src@.take(i as int),
        decreases src@.len() - i,
    {
        v.push(src[i]);
        i = i + 1;
        assert(v@ =~= src@.take(i as int));
    }
    assert(src@.take(i as int) =~= src@);
    v
}

impl CommandLog {
    /// A log with nothing sent.
    pub fn new() -> (r: Self)
        ensures
            r.sent_commands() == Seq::<Seq<u8>>::empty(),
            r.sent_data() == Seq::<u8>::empty(),
    {
        let r = CommandLog { commands: Vec::new(), data: Vec::new() };
        assert(r.sent_commands() =~= Seq::<Seq<u8>>::empty());
        r
    }

    /// The data bytes sent so far, in order.
    pub closed spec fn sent_data(&self) -> Seq<u8> {
        self.data@
    }

    /// The command frames sent so far, oldest first.
    pub fn commands(&self) -> (r: &Vec<Vec<u8>>)
        ensures
            r@.map_values(|v: Vec<u8>| v@) == self.sent_commands(),
    {
        &self.commands
    }

    /// The data bytes sent so far, in order.
    pub fn data(&self) -> (r: &Vec<u8>)
        ensures
            r@ == self.sent_data(),
    {
        &self.data
    }
}

impl DisplayInterface for CommandLog {
    type Error = ();

    closed spec fn sent_commands(&self) -> Seq<Seq<u8>> {
        self.commands@.map_values(|v: Vec<u8>| v@)
    }

    fn send_commands(&mut self, cmds: &[u8]) -> (r: Result<(), ()>) {
        let v = copy_bytes(cmds);
        let ghost before = self.commands@;
        self.commands.push(v);
        assert(self.commands@.map_values(|v: Vec<u8>| v@) =~= before.map_values(|v: Vec<u8>| v@).push(
            cmds@,
        ));
        Ok(())
    }

    fn send_data(&mut self, buf: &[u8]) -> (r: Result<(), ()>)
        ensures
            final(self).sent_data() == old(self).sent_data() + buf@,
    {
        let mut i: usize = 0;
        while i < buf.len()
            invariant
                i <= buf@.len(),
                self.commands@ == old(self).commands@,
                self.data@ == old(self).data@ + buf@.take(i as int),
            decreases buf@.len() - i,
        {
            self.data.push(buf[i]);
            i = i + 1;
            assert(self.data@ =~= old(self).data@ + buf@.take(i as int));
        }
        assert(buf@.take(i as int) =~= buf@);
        Ok(())
    }
}

/// Every command encodes to as many bytes as its variant declares, and two
/// commands of one variant share their opcode byte, unless the variant
/// carries its parameter in the opcode itself.
pub proof fn lemma_encoding_shape(c: Command, d: Command)
    requires
        c.same_variant(d),
    ensures
        c.encoding().len() == c.declared_len(),
        c.declared_len() == d.declared_len(),
        !c.param_in_opcode() ==> c.encoding()[0] == d.encoding()[0],
{
}

} // verus!
