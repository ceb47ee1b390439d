//! The segment structs, field by field, and where each field stands.
//!
//! Every layout change bumps the version constant of its segment; readers
//! refuse a version they do not know. New fields are appended, existing
//! offsets never move. Padding is spelled out, so every bit of a segment
//! belongs to a field, and any bit pattern is a value.
use vstd::prelude::*;

use crate::scalar::Scalar;
use crate::shm::words::{
    bytes_of_words, byte_of, half_of, high, high_half, high_part, high_quarter, le_bytes, le_word,
    lemma_bytes_of_their_word, lemma_half_bytes, lemma_half_offsets, lemma_word_of_its_bytes,
    lemma_word_offset, low, low_half, low_part, low_quarter, of_bits, pack, pack_quarters,
    push_word, read_word, signed_bits, signed_value, to_bits, word_of,
};

verus! {

broadcast use crate::shm::words::group_words;

/// 'PLCD'
pub const PLC_DATA_MAGIC: u32 = 0x504C_4344;

/// 'PLCC'
pub const PLC_COMMAND_MAGIC: u32 = 0x504C_4343;

pub const PLC_DATA_VERSION: u16 = 4;

pub const PLC_COMMAND_VERSION: u16 = 3;

pub const NAME_PLC_DATA: &'static str = "plc_data";

pub const NAME_PLC_COMMAND: &'static str = "plc_cmd";

/// Size of a `PlcData` segment in bytes.
pub const SIZE_PLC_DATA: usize = 248;

/// Size of a `PlcCommand` segment in bytes.
pub const SIZE_PLC_COMMAND: usize = 168;

/// The axes that a segment has room for.
pub const MAX_AXES: usize = 4;

/// First 24 bytes of every segment.
#[derive(Clone, Copy, Debug, PartialEq, Eq, Structural)]
pub struct Header {
    pub magic: u32,
    pub version: u16,
    pub flags: u16,
    pub seq: u32,
    pub _pad: u32,
    pub cycle: u64,
}

/// Published system state. 16 bytes.
#[derive(Clone, Copy, Debug, PartialEq, Eq, Structural)]
pub struct SystemState {
    /// System temperature in °C.
    pub temperature: Scalar,
    pub status_flags: u32,
    pub alarm_flags: u32,
}

/// Published state of one axis. 48 bytes.
#[derive(Clone, Copy, Debug, PartialEq, Eq, Structural)]
pub struct AxisState {
    pub act_pos: Scalar,
    pub act_vel: Scalar,
    pub set_pos: Scalar,
    pub set_vel: Scalar,
    pub step: i32,
    /// bit0=enabled bit1=busy bit2=error bit3=standstill bit4=pos_limit
    /// bit5=neg_limit.
    pub flags: u32,
    pub error_id: i32,
    pub _pad: i32,
}

/// Published state of all axes plus machine-level fields. 200 bytes.
#[derive(Clone, Copy, Debug, PartialEq, Eq)]
pub struct MachineState {
    pub axes: [AxisState; 4],
    pub run_state: u32,
    pub alarms: u32,
}

/// Commands for one axis. 32 bytes.
#[derive(Clone, Copy, Debug, PartialEq, Eq, Structural)]
pub struct AxisCmd {
    /// bit0=enable bit1=home bit2=reset bit3=stop bit4=jog_pos bit5=jog_neg
    /// bit6=move_abs.
    pub control_flags: u32,
    pub _pad: u32,
    pub jog_vel: Scalar,
    pub move_abs_pos: Scalar,
    pub move_abs_vel: Scalar,
}

/// Commands for the whole machine. 136 bytes.
#[derive(Clone, Copy, Debug, PartialEq, Eq)]
pub struct MachineCmd {
    pub axes: [AxisCmd; 4],
    /// bit0=reset bit1=ems bit2=system_run.
    pub control_flags: u32,
    pub _pad: u32,
}

/// Production state, published and requested alike. 8 bytes.
#[derive(Clone, Copy, Debug, PartialEq, Eq, Structural)]
pub struct ProductionState {
    pub n_production_state: i32,
    pub _pad: i32,
}

/// Written by the daemon. 248 bytes.
#[derive(Clone, Copy, Debug, PartialEq, Eq)]
pub struct PlcData {
    pub header: Header,
    pub system: SystemState,
    pub machine: MachineState,
    pub production: ProductionState,
}

/// Read by the daemon. 168 bytes.
#[derive(Clone, Copy, Debug, PartialEq, Eq)]
pub struct PlcCommand {
    pub header: Header,
    pub machine: MachineCmd,
    pub production: ProductionState,
}

/// All fields zero.
pub open spec fn blank_header() -> Header {
    Header { magic: 0, version: 0, flags: 0, seq: 0, _pad: 0, cycle: 0 }
}

/// All fields zero.
pub open spec fn blank_axis_state() -> AxisState {
    AxisState {
        act_pos: Scalar { bits: 0 },
        act_vel: Scalar { bits: 0 },
        set_pos: Scalar { bits: 0 },
        set_vel: Scalar { bits: 0 },
        step: 0,
        flags: 0,
        error_id: 0,
        _pad: 0,
    }
}

/// All fields zero.
pub open spec fn blank_axis_cmd() -> AxisCmd {
    AxisCmd {
        control_flags: 0,
        _pad: 0,
        jog_vel: Scalar { bits: 0 },
        move_abs_pos: Scalar { bits: 0 },
        move_abs_vel: Scalar { bits: 0 },
    }
}

/// The three words of a header.
pub open spec fn header_word(h: Header, i: int) -> u64 {
    if i == 0 {
        word_of(h.magic, half_of(h.version, h.flags))
    } else if i == 1 {
        word_of(h.seq, h._pad)
    } else {
        h.cycle
    }
}

/// The six words of a published axis.
pub open spec fn axis_state_word(a: AxisState, i: int) -> u64 {
    if i == 0 {
        a.act_pos.bits
    } else if i == 1 {
        a.act_vel.bits
    } else if i == 2 {
        a.set_pos.bits
    } else if i == 3 {
        a.set_vel.bits
    } else if i == 4 {
        word_of(signed_bits(a.step), a.flags)
    } else {
        word_of(signed_bits(a.error_id), signed_bits(a._pad))
    }
}

/// The four words of a commanded axis.
pub open spec fn axis_cmd_word(a: AxisCmd, i: int) -> u64 {
    if i == 0 {
        word_of(a.control_flags, a._pad)
    } else if i == 1 {
        a.jog_vel.bits
    } else if i == 2 {
        a.move_abs_pos.bits
    } else {
        a.move_abs_vel.bits
    }
}

/// The word of a production state.
pub open spec fn production_word(p: ProductionState) -> u64 {
    word_of(signed_bits(p.n_production_state), signed_bits(p._pad))
}

/// Word `i` of a `PlcData` segment.
pub open spec fn data_word(d: PlcData, i: int) -> u64 {
    if i < 3 {
        header_word(d.header, i)
    } else if i == 3 {
        d.system.temperature.bits
    } else if i == 4 {
        word_of(d.system.status_flags, d.system.alarm_flags)
    } else if i < 29 {
        axis_state_word(d.machine.axes[(i - 5) / 6], (i - 5) % 6)
    } else if i == 29 {
        word_of(d.machine.run_state, d.machine.alarms)
    } else {
        production_word(d.production)
    }
}

/// Word `i` of a `PlcCommand` segment.
pub open spec fn command_word(c: PlcCommand, i: int) -> u64 {
    if i < 3 {
        header_word(c.header, i)
    } else if i < 19 {
        axis_cmd_word(c.machine.axes[(i - 3) / 4], (i - 3) % 4)
    } else if i == 19 {
        word_of(c.machine.control_flags, c.machine._pad)
    } else {
        production_word(c.production)
    }
}

/// The three header words determine the header.
proof fn lemma_header_words(a: Header, b: Header)
    requires
        forall|i: int| 0 <= i < 3 ==> header_word(a, i) == header_word(b, i),
    ensures
        a == b,
{
    assert(header_word(a, 0) == header_word(b, 0));
    assert(header_word(a, 1) == header_word(b, 1));
    assert(header_word(a, 2) == header_word(b, 2));
    assert(low_half(header_word(a, 0)) == a.magic);
    assert(high_half(header_word(a, 0)) == half_of(a.version, a.flags));
    assert(low_quarter(half_of(a.version, a.flags)) == a.version);
    assert(high_quarter(half_of(a.version, a.flags)) == a.flags);
}

fn header_word_at(h: &Header, i: usize) -> (r: u64)
    requires
        i < 3,
    ensures
        r == header_word(*h, i as int),
{
    if i == 0 {
        pack(h.magic, pack_quarters(h.version, h.flags))
    } else if i == 1 {
        pack(h.seq, h._pad)
    } else {
        h.cycle
    }
}

fn header_with_word(h: Header, i: usize, w: u64) -> (r: Header)
    requires
        i < 3,
    ensures
        header_word(r, i as int) == w,
        forall|j: int| 0 <= j < 3 && j != i ==> header_word(r, j) == header_word(h, j),
{
    if i == 0 {
        let half: u32 = high(w);
        Header { magic: low(w), version: low_part(half), flags: high_part(half), ..h }
    } else if i == 1 {
        Header { seq: low(w), _pad: high(w), ..h }
    } else {
        Header { cycle: w, ..h }
    }
}

fn axis_state_word_at(a: &AxisState, i: usize) -> (r: u64)
    requires
        i < 6,
    ensures
        r == axis_state_word(*a, i as int),
{
    if i == 0 {
        a.act_pos.bits
    } else if i == 1 {
        a.act_vel.bits
    } else if i == 2 {
        a.set_pos.bits
    } else if i == 3 {
        a.set_vel.bits
    } else if i == 4 {
        pack(to_bits(a.step), a.flags)
    } else {
        pack(to_bits(a.error_id), to_bits(a._pad))
    }
}

fn axis_state_with_word(a: AxisState, i: usize, w: u64) -> (r: AxisState)
    requires
        i < 6,
    ensures
        axis_state_word(r, i as int) == w,
        forall|j: int| 0 <= j < 6 && j != i ==> axis_state_word(r, j) == axis_state_word(a, j),
{
    if i == 0 {
        AxisState { act_pos: Scalar { bits: w }, ..a }
    } else if i == 1 {
        AxisState { act_vel: Scalar { bits: w }, ..a }
    } else if i == 2 {
        AxisState { set_pos: Scalar { bits: w }, ..a }
    } else if i == 3 {
        AxisState { set_vel: Scalar { bits: w }, ..a }
    } else if i == 4 {
        AxisState { step: of_bits(low(w)), flags: high(w), ..a }
    } else {
        AxisState { error_id: of_bits(low(w)), _pad: of_bits(high(w)), ..a }
    }
}

fn axis_cmd_word_at(a: &AxisCmd, i: usize) -> (r: u64)
    requires
        i < 4,
    ensures
        r == axis_cmd_word(*a, i as int),
{
    if i == 0 {
        pack(a.control_flags, a._pad)
    } else if i == 1 {
        a.jog_vel.bits
    } else if i == 2 {
        a.move_abs_pos.bits
    } else {
        a.move_abs_vel.bits
    }
}

fn axis_cmd_with_word(a: AxisCmd, i: usize, w: u64) -> (r: AxisCmd)
    requires
        i < 4,
    ensures
        axis_cmd_word(r, i as int) == w,
        forall|j: int| 0 <= j < 4 && j != i ==> axis_cmd_word(r, j) == axis_cmd_word(a, j),
{
    if i == 0 {
        AxisCmd { control_flags: low(w), _pad: high(w), ..a }
    } else if i == 1 {
        AxisCmd { jog_vel: Scalar { bits: w }, ..a }
    } else if i == 2 {
        AxisCmd { move_abs_pos: Scalar { bits: w }, ..a }
    } else {
        AxisCmd { move_abs_vel: Scalar { bits: w }, ..a }
    }
}

proof fn lemma_axis_state_words(a: AxisState, b: AxisState)
    requires
        forall|i: int| 0 <= i < 6 ==> axis_state_word(a, i) == axis_state_word(b, i),
    ensures
        a == b,
{
    assert(axis_state_word(a, 0) == axis_state_word(b, 0));
    assert(axis_state_word(a, 1) == axis_state_word(b, 1));
    assert(axis_state_word(a, 2) == axis_state_word(b, 2));
    assert(axis_state_word(a, 3) == axis_state_word(b, 3));
    assert(axis_state_word(a, 4) == axis_state_word(b, 4));
    assert(axis_state_word(a, 5) == axis_state_word(b, 5));
    lemma_equal_words(signed_bits(a.step), a.flags, signed_bits(b.step), b.flags);
    lemma_equal_words(
        signed_bits(a.error_id),
        signed_bits(a._pad),
        signed_bits(b.error_id),
        signed_bits(b._pad),
    );
    lemma_equal_signed(a.step, b.step);
    lemma_equal_signed(a.error_id, b.error_id);
    lemma_equal_signed(a._pad, b._pad);
}

proof fn lemma_axis_cmd_words(a: AxisCmd, b: AxisCmd)
    requires
        forall|i: int| 0 <= i < 4 ==> axis_cmd_word(a, i) == axis_cmd_word(b, i),
    ensures
        a == b,
{
    assert(axis_cmd_word(a, 0) == axis_cmd_word(b, 0));
    assert(axis_cmd_word(a, 1) == axis_cmd_word(b, 1));
    assert(axis_cmd_word(a, 2) == axis_cmd_word(b, 2));
    assert(axis_cmd_word(a, 3) == axis_cmd_word(b, 3));
    lemma_equal_words(a.control_flags, a._pad, b.control_flags, b._pad);
}

/// Equal words have equal halves.
pub proof fn lemma_equal_words(a: u32, b: u32, c: u32, d: u32)
    requires
        word_of(a, b) == word_of(c, d),
    ensures
        a == c,
        b == d,
{
    assert(low_half(word_of(a, b)) == a && high_half(word_of(a, b)) == b);
    assert(low_half(word_of(c, d)) == c && high_half(word_of(c, d)) == d);
}

/// Equal patterns have equal signed values.
pub proof fn lemma_equal_signed(a: i32, b: i32)
    requires
        signed_bits(a) == signed_bits(b),
    ensures
        a == b,
{
    assert(signed_value(signed_bits(a)) == a);
    assert(signed_value(signed_bits(b)) == b);
}

proof fn lemma_production_word(a: ProductionState, b: ProductionState)
    requires
        production_word(a) == production_word(b),
    ensures
        a == b,
{
    lemma_equal_words(
        signed_bits(a.n_production_state),
        signed_bits(a._pad),
        signed_bits(b.n_production_state),
        signed_bits(b._pad),
    );
    lemma_equal_signed(a.n_production_state, b.n_production_state);
    lemma_equal_signed(a._pad, b._pad);
}

/// A shared-memory segment: a header, then fields, all of it 64-bit words that
/// determine the value, and any words make a value.
pub trait Segment: Copy {
    /// The magic number of this segment.
    spec fn magic_number() -> u32;

    /// The layout version of this segment.
    spec fn layout_version() -> u16;

    /// The name of this segment.
    spec fn segment_name() -> Seq<char>;

    /// The segment's size in 64-bit words.
    spec fn size_in_words() -> nat;

    /// Word `i` of the segment.
    spec fn word_value(self, i: int) -> u64;

    /// The header.
    spec fn header_value(self) -> Header;

    /// The same fields under another header.
    spec fn under_header(self, h: Header) -> Self;

    /// Every field zero.
    spec fn blank_value() -> Self;

    /// The header is the first three words.
    proof fn lemma_header_first(self)
        ensures
            3 <= Self::size_in_words() <= 0x1000,
            forall|i: int| 0 <= i < 3 ==> self.word_value(i) == header_word(self.header_value(), i),
    ;

    /// Another header changes the first three words only.
    proof fn lemma_under_header(self, h: Header)
        ensures
            self.under_header(h).header_value() == h,
            forall|i: int| 3 <= i ==> self.under_header(h).word_value(i) == self.word_value(i),
            self.under_header(self.header_value()) == self,
            forall|g: Header| self.under_header(h).under_header(g) == self.under_header(g),
    ;

    /// Values with the same words are the same.
    proof fn lemma_words_determine(a: Self, b: Self)
        requires
            forall|i: int| 0 <= i < Self::size_in_words() ==> a.word_value(i) == b.word_value(i),
        ensures
            a == b,
    ;

    /// The words of the blank value are zero.
    proof fn lemma_blank(i: int)
        requires
            0 <= i < Self::size_in_words(),
        ensures
            Self::blank_value().word_value(i) == 0,
    ;

    fn magic() -> (r: u32)
        ensures
            r == Self::magic_number(),
    ;

    fn version() -> (r: u16)
        ensures
            r == Self::layout_version(),
    ;

    fn name() -> (r: &'static str)
        ensures
            r@ == Self::segment_name(),
    ;

    fn word_count() -> (r: usize)
        ensures
            r == Self::size_in_words(),
    ;

    fn blank() -> (r: Self)
        ensures
            r == Self::blank_value(),
    ;

    fn header(&self) -> (r: &Header)
        ensures
            *r == self.header_value(),
    ;

    fn header_mut(&mut self) -> (r: &mut Header)
        ensures
            *r == old(self).header_value(),
            *final(self) == old(self).under_header(*final(r)),
    ;

    fn word(&self, i: usize) -> (r: u64)
        requires
            i < Self::size_in_words(),
        ensures
            r == self.word_value(i as int),
    ;

    fn set_word(&mut self, i: usize, w: u64)
        requires
            i < Self::size_in_words(),
        ensures
            final(self).word_value(i as int) == w,
            forall|j: int|
                0 <= j < Self::size_in_words() && j != i ==> final(self).word_value(j) == old(
                    self,
                ).word_value(j),
    ;
}

/// The words of a segment value.
pub open spec fn words_of<T: Segment>(v: T) -> Seq<u64> {
    Seq::new(T::size_in_words(), |i: int| v.word_value(i))
}

impl Segment for PlcData {
    open spec fn magic_number() -> u32 {
        PLC_DATA_MAGIC
    }

    open spec fn segment_name() -> Seq<char> {
        "plc_data"@
    }

    open spec fn layout_version() -> u16 {
        PLC_DATA_VERSION
    }

    open spec fn size_in_words() -> nat {
        31
    }

    open spec fn word_value(self, i: int) -> u64 {
        data_word(self, i)
    }

    open spec fn header_value(self) -> Header {
        self.header
    }

    open spec fn under_header(self, h: Header) -> PlcData {
        PlcData { header: h, ..self }
    }

    open spec fn blank_value() -> PlcData {
        PlcData {
            header: blank_header(),
            system: SystemState {
                temperature: Scalar { bits: 0 },
                status_flags: 0,
                alarm_flags: 0,
            },
            machine: MachineState { axes: [
                    blank_axis_state(),
                    blank_axis_state(),
                    blank_axis_state(),
                    blank_axis_state(),
                ], run_state: 0, alarms: 0 },
            production: ProductionState { n_production_state: 0, _pad: 0 },
        }
    }

    proof fn lemma_header_first(self) {
    }

    proof fn lemma_under_header(self, h: Header) {
    }

    proof fn lemma_words_determine(a: PlcData, b: PlcData) {
        assert forall|i: int| 0 <= i < 3 implies header_word(a.header, i) == header_word(
            b.header,
            i,
        ) by {
            assert(a.word_value(i) == b.word_value(i));
        }
        lemma_header_words(a.header, b.header);
        assert(a.word_value(3) == b.word_value(3));
        assert(a.word_value(4) == b.word_value(4));
        lemma_equal_words(
            a.system.status_flags,
            a.system.alarm_flags,
            b.system.status_flags,
            b.system.alarm_flags,
        );
        assert forall|k: int| 0 <= k < 4 implies a.machine.axes[k] == b.machine.axes[k] by {
            assert forall|j: int| 0 <= j < 6 implies axis_state_word(a.machine.axes[k], j)
                == axis_state_word(b.machine.axes[k], j) by {
                assert(a.word_value(5 + 6 * k + j) == b.word_value(5 + 6 * k + j));
            }
            lemma_axis_state_words(a.machine.axes[k], b.machine.axes[k]);
        }
        assert(a.machine.axes =~= b.machine.axes);
        assert(a.word_value(29) == b.word_value(29));
        lemma_equal_words(
            a.machine.run_state,
            a.machine.alarms,
            b.machine.run_state,
            b.machine.alarms,
        );
        assert(a.word_value(30) == b.word_value(30));
        lemma_production_word(a.production, b.production);
    }

    proof fn lemma_blank(i: int) {
    }

    fn magic() -> (r: u32) {
        PLC_DATA_MAGIC
    }

    fn version() -> (r: u16) {
        PLC_DATA_VERSION
    }

    fn name() -> (r: &'static str) {
        NAME_PLC_DATA
    }

    fn word_count() -> (r: usize) {
        31
    }

    fn blank() -> (r: PlcData) {
        let a = AxisState {
            act_pos: Scalar { bits: 0 },
            act_vel: Scalar { bits: 0 },
            set_pos: Scalar { bits: 0 },
            set_vel: Scalar { bits: 0 },
            step: 0,
            flags: 0,
            error_id: 0,
            _pad: 0,
        };
        PlcData {
            header: Header { magic: 0, version: 0, flags: 0, seq: 0, _pad: 0, cycle: 0 },
            system: SystemState {
                temperature: Scalar { bits: 0 },
                status_flags: 0,
                alarm_flags: 0,
            },
            machine: MachineState {
                axes: [a, a, a, a],
                run_state: 0,
                alarms: 0,
            },
            production: ProductionState { n_production_state: 0, _pad: 0 },
        }
    }

    fn header(&self) -> (r: &Header) {
        &self.header
    }

    fn header_mut(&mut self) -> (r: &mut Header) {
        &mut self.header
    }

    fn word(&self, i: usize) -> (r: u64) {
        if i < 3 {
            header_word_at(&self.header, i)
        } else if i == 3 {
            self.system.temperature.bits
        } else if i == 4 {
            pack(self.system.status_flags, self.system.alarm_flags)
        } else if i < 29 {
            axis_state_word_at(&self.machine.axes[(i - 5) / 6], (i - 5) % 6)
        } else if i == 29 {
            pack(self.machine.run_state, self.machine.alarms)
        } else {
            pack(to_bits(self.production.n_production_state), to_bits(self.production._pad))
        }
    }

    fn set_word(&mut self, i: usize, w: u64) {
        if i < 3 {
            self.header = header_with_word(self.header, i, w);
        } else if i == 3 {
            self.system.temperature = Scalar { bits: w };
        } else if i == 4 {
            self.system.status_flags = low(w);
            self.system.alarm_flags = high(w);
        } else if i < 29 {
            let k: usize = (i - 5) / 6;
            let a = axis_state_with_word(self.machine.axes[k], (i - 5) % 6, w);
            self.machine.axes[k] = a;
            assert forall|j: int| 5 <= j < 29 && j != i implies data_word(*self, j) == data_word(
                *old(self),
                j,
            ) by {
                if (j - 5) / 6 == k {
                    assert((j - 5) % 6 != (i - 5) % 6);
                }
            }
        } else if i == 29 {
            self.machine.run_state = low(w);
            self.machine.alarms = high(w);
        } else {
            self.production = ProductionState {
                n_production_state: of_bits(low(w)),
                _pad: of_bits(high(w)),
            };
        }
    }
}

impl Segment for PlcCommand {
    open spec fn magic_number() -> u32 {
        PLC_COMMAND_MAGIC
    }

    open spec fn segment_name() -> Seq<char> {
        "plc_cmd"@
    }

    open spec fn layout_version() -> u16 {
        PLC_COMMAND_VERSION
    }

    open spec fn size_in_words() -> nat {
        21
    }

    open spec fn word_value(self, i: int) -> u64 {
        command_word(self, i)
    }

    open spec fn header_value(self) -> Header {
        self.header
    }

    open spec fn under_header(self, h: Header) -> PlcCommand {
        PlcCommand { header: h, ..self }
    }

    open spec fn blank_value() -> PlcCommand {
        PlcCommand {
            header: blank_header(),
            machine: MachineCmd {
                axes: [
                    blank_axis_cmd(),
                    blank_axis_cmd(),
                    blank_axis_cmd(),
                    blank_axis_cmd(),
                ],
                control_flags: 0,
                _pad: 0,
            },
            production: ProductionState { n_production_state: 0, _pad: 0 },
        }
    }

    proof fn lemma_header_first(self) {
    }

    proof fn lemma_under_header(self, h: Header) {
    }

    proof fn lemma_words_determine(a: PlcCommand, b: PlcCommand) {
        assert forall|i: int| 0 <= i < 3 implies header_word(a.header, i) == header_word(
            b.header,
            i,
        ) by {
            assert(a.word_value(i) == b.word_value(i));
        }
        lemma_header_words(a.header, b.header);
        assert forall|k: int| 0 <= k < 4 implies a.machine.axes[k] == b.machine.axes[k] by {
            assert forall|j: int| 0 <= j < 4 implies axis_cmd_word(a.machine.axes[k], j)
                == axis_cmd_word(b.machine.axes[k], j) by {
                assert(a.word_value(3 + 4 * k + j) == b.word_value(3 + 4 * k + j));
            }
            lemma_axis_cmd_words(a.machine.axes[k], b.machine.axes[k]);
        }
        assert(a.machine.axes =~= b.machine.axes);
        assert(a.word_value(19) == b.word_value(19));
        lemma_equal_words(
            a.machine.control_flags,
            a.machine._pad,
            b.machine.control_flags,
            b.machine._pad,
        );
        assert(a.word_value(20) == b.word_value(20));
        lemma_production_word(a.production, b.production);
    }

    proof fn lemma_blank(i: int) {
    }

    fn magic() -> (r: u32) {
        PLC_COMMAND_MAGIC
    }

    fn version() -> (r: u16) {
        PLC_COMMAND_VERSION
    }

    fn name() -> (r: &'static str) {
        NAME_PLC_COMMAND
    }

    fn word_count() -> (r: usize) {
        21
    }

    fn blank() -> (r: PlcCommand) {
        let a = AxisCmd {
            control_flags: 0,
            _pad: 0,
            jog_vel: Scalar { bits: 0 },
            move_abs_pos: Scalar { bits: 0 },
            move_abs_vel: Scalar { bits: 0 },
        };
        PlcCommand {
            header: Header { magic: 0, version: 0, flags: 0, seq: 0, _pad: 0, cycle: 0 },
            machine: MachineCmd {
                axes: [a, a, a, a],
                control_flags: 0,
                _pad: 0,
            },
            production: ProductionState { n_production_state: 0, _pad: 0 },
        }
    }

    fn header(&self) -> (r: &Header) {
        &self.header
    }

    fn header_mut(&mut self) -> (r: &mut Header) {
        &mut self.header
    }

    fn word(&self, i: usize) -> (r: u64) {
        if i < 3 {
            header_word_at(&self.header, i)
        } else if i < 19 {
            axis_cmd_word_at(&self.machine.axes[(i - 3) / 4], (i - 3) % 4)
        } else if i == 19 {
            pack(self.machine.control_flags, self.machine._pad)
        } else {
            pack(to_bits(self.production.n_production_state), to_bits(self.production._pad))
        }
    }

    fn set_word(&mut self, i: usize, w: u64) {
        if i < 3 {
            self.header = header_with_word(self.header, i, w);
        } else if i < 19 {
            let k: usize = (i - 3) / 4;
            let a = axis_cmd_with_word(self.machine.axes[k], (i - 3) % 4, w);
            self.machine.axes[k] = a;
            assert forall|j: int| 3 <= j < 19 && j != i implies command_word(*self, j)
                == command_word(*old(self), j) by {
                if (j - 3) / 4 == k {
                    assert((j - 3) % 4 != (i - 3) % 4);
                }
            }
        } else if i == 19 {
            self.machine.control_flags = low(w);
            self.machine._pad = high(w);
        } else {
            self.production = ProductionState {
                n_production_state: of_bits(low(w)),
                _pad: of_bits(high(w)),
            };
        }
    }
}

impl Default for PlcData {
    fn default() -> (r: PlcData)
        ensures
            r == PlcData::blank_value(),
    {
        PlcData::blank()
    }
}

impl Default for PlcCommand {
    fn default() -> (r: PlcCommand)
        ensures
            r == PlcCommand::blank_value(),
    {
        PlcCommand::blank()
    }
}

/// The raw bytes of a segment.
pub fn as_bytes<T: Segment>(v: &T) -> (r: Vec<u8>)
    ensures
        r@ == bytes_of_words(words_of(*v)),
{
    let n: usize = T::word_count();
    let mut out: Vec<u8> = Vec::new();
    let ghost words = words_of(*v);
    let mut i: usize = 0;
    while i < n
        invariant
            n == T::size_in_words(),
            i <= n,
            words == words_of(*v),
            out@ == bytes_of_words(words.take(i as int)),
        decreases n - i,
    {
        push_word(&mut out, v.word(i));
        proof {
            lemma_append_word(words, i as int);
        }
        i += 1;
    }
    assert(words.take(n as int) =~= words);
    out
}

/// One word more is eight bytes more.
pub proof fn lemma_append_word(words: Seq<u64>, i: int)
    requires
        0 <= i < words.len(),
    ensures
        bytes_of_words(words.take(i + 1)) == bytes_of_words(words.take(i)) + le_bytes(
            words[i] as int,
            8,
        ),
{
    let longer = bytes_of_words(words.take(i + 1));
    let shorter = bytes_of_words(words.take(i));
    assert forall|j: int| 0 <= j < longer.len() implies longer[j] == (shorter + le_bytes(
        words[i] as int,
        8,
    ))[j] by {
        if j < 8 * i {
            assert(longer[j] == byte_of(words.take(i + 1)[j / 8] as int, j % 8));
            assert(shorter[j] == byte_of(words.take(i)[j / 8] as int, j % 8));
        } else {
            assert(j / 8 == i && j % 8 == j - 8 * i);
        }
    }
    assert(longer =~= shorter + le_bytes(words[i] as int, 8));
}

/// The segment whose raw bytes these are.
pub fn from_bytes<T: Segment>(b: &[u8]) -> (r: T)
    requires
        b@.len() == T::size_in_words() * 8,
    ensures
        bytes_of_words(words_of(r)) == b@,
{
    let n: usize = T::word_count();
    let mut v: T = T::blank();
    proof {
        v.lemma_header_first();
    }
    let mut i: usize = 0;
    while i < n
        invariant
            n == T::size_in_words(),
            n <= 0x1000,
            i <= n,
            b@.len() == n * 8,
            forall|j: int|
                0 <= j < i ==> v.word_value(j) == le_word(b@.subrange(8 * j, 8 * j + 8)),
        decreases n - i,
    {
        v.set_word(i, read_word(b, 8 * i));
        i += 1;
    }
    proof {
        let bytes = bytes_of_words(words_of(v));
        assert forall|j: int| 0 <= j < b@.len() implies bytes[j] == b@[j] by {
            let k = j / 8;
            let part = b@.subrange(8 * k, 8 * k + 8);
            lemma_bytes_of_their_word(part);
            assert(words_of(v)[k] == le_word(part));
            assert(le_bytes(le_word(part) as int, 8)[j % 8] == part[j % 8]);
        }
        assert(bytes =~= b@);
    }
    v
}

/// Different segments have different bytes: what `from_bytes` makes of
/// `as_bytes` is the value itself.
pub proof fn bytes_determine_the_segment<T: Segment>(a: T, b: T)
    requires
        bytes_of_words(words_of(a)) == bytes_of_words(words_of(b)),
    ensures
        a == b,
{
    assert forall|i: int| 0 <= i < T::size_in_words() implies a.word_value(i) == b.word_value(
        i,
    ) by {
        lemma_word_offset(words_of(a), i);
        lemma_word_offset(words_of(b), i);
        lemma_word_of_its_bytes(words_of(a)[i]);
        lemma_word_of_its_bytes(words_of(b)[i]);
        assert(words_of(a)[i] == a.word_value(i));
        assert(words_of(b)[i] == b.word_value(i));
    }
    T::lemma_words_determine(a, b);
}

/// The bytes of a field stand at its offset.
pub open spec fn field_at(bytes: Seq<u8>, offset: int, size: nat, value: int) -> bool {
    bytes.subrange(offset, offset + size) == le_bytes(value, size)
}

/// Where the fields of a header stand in any segment.
pub proof fn header_offsets<T: Segment>(v: T)
    ensures
        ({
            let b = bytes_of_words(words_of(v));
            let h = v.header_value();
            &&& field_at(b, 0, 4, h.magic as int)
            &&& field_at(b, 4, 2, h.version as int)
            &&& field_at(b, 6, 2, h.flags as int)
            &&& field_at(b, 8, 4, h.seq as int)
            &&& field_at(b, 12, 4, h._pad as int)
            &&& field_at(b, 16, 8, h.cycle as int)
        }),
{
    let b = bytes_of_words(words_of(v));
    let h = v.header_value();
    v.lemma_header_first();
    assert(words_of(v)[0] == header_word(h, 0));
    assert(words_of(v)[1] == header_word(h, 1));
    assert(words_of(v)[2] == header_word(h, 2));
    lemma_half_offsets(words_of(v), 0, h.magic, half_of(h.version, h.flags));
    lemma_half_offsets(words_of(v), 1, h.seq, h._pad);
    lemma_word_offset(words_of(v), 2);
    lemma_half_bytes(h.version, h.flags);
    let part = b.subrange(4, 8);
    assert(b.subrange(4, 6) =~= part.subrange(0, 2));
    assert(b.subrange(6, 8) =~= part.subrange(2, 4));
    assert(part.subrange(0, 2) =~= le_bytes(h.version as int, 2));
    assert(part.subrange(2, 4) =~= le_bytes(h.flags as int, 2));
}

/// Where the fields of a `PlcData` stand: the system at 24, axis `k` at
/// `40 + 48 * k`, the machine fields at 232, production at 240, 248 bytes in
/// all.
pub proof fn plc_data_offsets(d: PlcData, k: int)
    requires
        0 <= k < 4,
    ensures
        ({
            let b = bytes_of_words(words_of(d));
            let a = d.machine.axes[k];
            let at = 40 + 48 * k;
            &&& b.len() == SIZE_PLC_DATA
            &&& field_at(b, 24, 8, d.system.temperature.bits as int)
            &&& field_at(b, 32, 4, d.system.status_flags as int)
            &&& field_at(b, 36, 4, d.system.alarm_flags as int)
            &&& field_at(b, at, 8, a.act_pos.bits as int)
            &&& field_at(b, at + 8, 8, a.act_vel.bits as int)
            &&& field_at(b, at + 16, 8, a.set_pos.bits as int)
            &&& field_at(b, at + 24, 8, a.set_vel.bits as int)
            &&& field_at(b, at + 32, 4, signed_bits(a.step) as int)
            &&& field_at(b, at + 36, 4, a.flags as int)
            &&& field_at(b, at + 40, 4, signed_bits(a.error_id) as int)
            &&& field_at(b, 232, 4, d.machine.run_state as int)
            &&& field_at(b, 236, 4, d.machine.alarms as int)
            &&& field_at(b, 240, 4, signed_bits(d.production.n_production_state) as int)
        }),
{
    let w = words_of(d);
    let a = d.machine.axes[k];
    lemma_word_offset(w, 3);
    lemma_half_offsets(w, 4, d.system.status_flags, d.system.alarm_flags);
    lemma_half_offsets(w, 29, d.machine.run_state, d.machine.alarms);
    lemma_half_offsets(
        w,
        30,
        signed_bits(d.production.n_production_state),
        signed_bits(d.production._pad),
    );
    let i = 5 + 6 * k;
    assert forall|j: int| 0 <= j < 6 implies w[i + j] == axis_state_word(a, j) by {
        assert((i + j - 5) / 6 == k && (i + j - 5) % 6 == j);
    }
    assert(w[i + 0] == a.act_pos.bits);
    assert(w[i + 1] == a.act_vel.bits);
    assert(w[i + 2] == a.set_pos.bits);
    assert(w[i + 3] == a.set_vel.bits);
    assert(w[i + 4] == word_of(signed_bits(a.step), a.flags));
    assert(w[i + 5] == word_of(signed_bits(a.error_id), signed_bits(a._pad)));
    lemma_word_offset(w, i);
    lemma_word_offset(w, i + 1);
    lemma_word_offset(w, i + 2);
    lemma_word_offset(w, i + 3);
    lemma_half_offsets(w, i + 4, signed_bits(a.step), a.flags);
    lemma_half_offsets(w, i + 5, signed_bits(a.error_id), signed_bits(a._pad));
}

/// Where the fields of a `PlcCommand` stand: axis `k` at `24 + 32 * k`, the
/// machine word at 152, production at 160, 168 bytes in all.
pub proof fn plc_command_offsets(c: PlcCommand, k: int)
    requires
        0 <= k < 4,
    ensures
        ({
            let b = bytes_of_words(words_of(c));
            let a = c.machine.axes[k];
            let at = 24 + 32 * k;
            &&& b.len() == SIZE_PLC_COMMAND
            &&& field_at(b, at, 4, a.control_flags as int)
            &&& field_at(b, at + 8, 8, a.jog_vel.bits as int)
            &&& field_at(b, at + 16, 8, a.move_abs_pos.bits as int)
            &&& field_at(b, at + 24, 8, a.move_abs_vel.bits as int)
            &&& field_at(b, 152, 4, c.machine.control_flags as int)
            &&& field_at(b, 160, 4, signed_bits(c.production.n_production_state) as int)
        }),
{
    let w = words_of(c);
    let a = c.machine.axes[k];
    lemma_half_offsets(w, 19, c.machine.control_flags, c.machine._pad);
    lemma_half_offsets(
        w,
        20,
        signed_bits(c.production.n_production_state),
        signed_bits(c.production._pad),
    );
    let i = 3 + 4 * k;
    assert forall|j: int| 0 <= j < 4 implies w[i + j] == axis_cmd_word(a, j) by {
        assert((i + j - 3) / 4 == k && (i + j - 3) % 4 == j);
    }
    assert(w[i + 0] == word_of(a.control_flags, a._pad));
    assert(w[i + 1] == a.jog_vel.bits);
    assert(w[i + 2] == a.move_abs_pos.bits);
    assert(w[i + 3] == a.move_abs_vel.bits);
    lemma_half_offsets(w, i, a.control_flags, a._pad);
    lemma_word_offset(w, i + 1);
    lemma_word_offset(w, i + 2);
    lemma_word_offset(w, i + 3);
}

} // verus!
