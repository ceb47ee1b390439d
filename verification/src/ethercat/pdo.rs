//! Process-image layout for cyclic position mode: the mapping configured on
//! every drive, and the bytes of its inputs and outputs, little-endian.
//!
//! Outputs, 6 bytes: 0x6040:00 u16 controlword, 0x607A:00 i32 target position.
//! Inputs, 10 or 14 bytes: 0x6041:00 u16 statusword, 0x6064:00 i32 position,
//! 0x606C:00 i32 velocity, and optionally 0x60FD:00 u32 digital inputs (bit 0
//! negative limit, bit 1 positive limit, bit 2 home switch).
use vstd::prelude::*;

use crate::shm::words::{le_bytes, of_bits, signed_bits, signed_value, to_bits};

pub mod obj;

verus! {

/// Mapping entries: index in the high half, sub-index and bit length below.
pub const RX_MAPPING: [u32; 2] = [0x6040_0010, 0x607A_0020];

pub const TX_MAPPING_BASE: [u32; 3] = [0x6041_0010, 0x6064_0020, 0x606C_0020];

/// Optional trailing entry for limit and home switches.
pub const TX_MAPPING_DIN: u32 = 0x60FD_0020;

pub const RX_BYTES: usize = 6;

pub const TX_BYTES_BASE: usize = 10;

pub const TX_BYTES_DIN: usize = 14;

pub const DIN_NEG_LIMIT: u32 = 0x1;

pub const DIN_POS_LIMIT: u32 = 0x2;

pub const DIN_HOME_SWITCH: u32 = 0x4;

/// Size of a drive's inputs.
pub open spec fn input_size(with_din: bool) -> usize {
    if with_din {
        TX_BYTES_DIN
    } else {
        TX_BYTES_BASE
    }
}

/// Size of a drive's inputs.
pub fn tx_bytes(with_din: bool) -> (r: usize)
    ensures
        r == input_size(with_din),
{
    if with_din {
        TX_BYTES_DIN
    } else {
        TX_BYTES_BASE
    }
}

/// The output bytes of one axis.
pub open spec fn rx_image(controlword: u16, target_position: i32) -> Seq<u8> {
    le_bytes(controlword as int, 2) + le_bytes(signed_bits(target_position) as int, 4)
}

/// Write one axis' outputs into the front of `buf`.
pub fn encode_rx(buf: &mut [u8], controlword: u16, target_position: i32)
    requires
        old(buf)@.len() >= RX_BYTES,
    ensures
        final(buf)@ == rx_image(controlword, target_position) + old(buf)@.skip(6),
{
    let t: u32 = to_bits(target_position);
    buf[0] = (controlword % 0x100) as u8;
    buf[1] = (controlword / 0x100) as u8;
    buf[2] = (t % 0x100) as u8;
    buf[3] = ((t / 0x100) % 0x100) as u8;
    buf[4] = ((t / 0x1_0000) % 0x100) as u8;
    buf[5] = (t / 0x100_0000) as u8;
    assert(buf@ =~= rx_image(controlword, target_position) + old(buf)@.skip(6));
}

/// One axis' decoded inputs.
#[derive(Clone, Copy, Debug, Default, PartialEq, Eq, Structural)]
pub struct TxPdo {
    pub statusword: u16,
    pub position: i32,
    pub velocity: i32,
    /// Zero when digital inputs are not mapped.
    pub digital_inputs: u32,
}

/// The number that two little-endian bytes make.
pub open spec fn u16_at(b: Seq<u8>, at: int) -> u16 {
    (b[at] + b[at + 1] * 0x100) as u16
}

/// The number that four little-endian bytes make.
pub open spec fn u32_at(b: Seq<u8>, at: int) -> u32 {
    (b[at] + b[at + 1] * 0x100 + b[at + 2] * 0x1_0000 + b[at + 3] * 0x100_0000) as u32
}

/// The inputs that these bytes hold.
pub open spec fn inputs_in(b: Seq<u8>, with_din: bool) -> TxPdo {
    TxPdo {
        statusword: u16_at(b, 0),
        position: signed_value(u32_at(b, 2)),
        velocity: signed_value(u32_at(b, 6)),
        digital_inputs: if with_din {
            u32_at(b, 10)
        } else {
            0
        },
    }
}

fn read_u32(b: &[u8], at: usize) -> (r: u32)
    requires
        at + 4 <= b@.len(),
    ensures
        r == u32_at(b@, at as int),
{
    b[at] as u32 + b[at + 1] as u32 * 0x100 + b[at + 2] as u32 * 0x1_0000 + b[at + 3] as u32
        * 0x100_0000
}

/// Read one axis' inputs from the front of `buf`.
pub fn decode_tx(buf: &[u8], with_din: bool) -> (r: TxPdo)
    requires
        buf@.len() >= input_size(with_din),
    ensures
        r == inputs_in(buf@, with_din),
{
    TxPdo {
        statusword: buf[0] as u16 + buf[1] as u16 * 0x100,
        position: of_bits(read_u32(buf, 2)),
        velocity: of_bits(read_u32(buf, 6)),
        digital_inputs: if with_din {
            read_u32(buf, 10)
        } else {
            0
        },
    }
}

/// The input bytes that hold these inputs, digital inputs mapped.
pub open spec fn tx_image(t: TxPdo) -> Seq<u8> {
    le_bytes(t.statusword as int, 2) + le_bytes(signed_bits(t.position) as int, 4) + le_bytes(
        signed_bits(t.velocity) as int,
        4,
    ) + le_bytes(t.digital_inputs as int, 4)
}

/// Inputs are read back from their bytes, with or without digital inputs.
pub proof fn inputs_read_back(t: TxPdo)
    ensures
        inputs_in(tx_image(t), true) == t,
        inputs_in(tx_image(t).take(10), false) == (TxPdo { digital_inputs: 0, ..t }),
{
    broadcast use crate::shm::words::group_words;

    let b = tx_image(t);
    lemma_u16_bytes(t.statusword);
    lemma_u32_bytes(signed_bits(t.position));
    lemma_u32_bytes(signed_bits(t.velocity));
    lemma_u32_bytes(t.digital_inputs);
    let p = le_bytes(signed_bits(t.position) as int, 4);
    let v = le_bytes(signed_bits(t.velocity) as int, 4);
    let d = le_bytes(t.digital_inputs as int, 4);
    assert(b[2] == p[0] && b[3] == p[1] && b[4] == p[2] && b[5] == p[3]);
    assert(b[6] == v[0] && b[7] == v[1] && b[8] == v[2] && b[9] == v[3]);
    assert(b[10] == d[0] && b[11] == d[1] && b[12] == d[2] && b[13] == d[3]);
    assert(signed_value(signed_bits(t.position)) == t.position);
    assert(signed_value(signed_bits(t.velocity)) == t.velocity);
    assert(u16_at(b, 0) == t.statusword);
    let front = b.take(10);
    assert(u16_at(front, 0) == u16_at(b, 0));
    assert(u32_at(front, 2) == u32_at(b, 2));
    assert(u32_at(front, 6) == u32_at(b, 6));
}

proof fn lemma_u16_bytes(x: u16)
    ensures
        u16_at(le_bytes(x as int, 2), 0) == x,
{
    let b = le_bytes(x as int, 2);
    assert(b[0] == x % 0x100 && b[1] == (x / 0x100) % 0x100);
}

proof fn lemma_u32_bytes(x: u32)
    ensures
        u32_at(le_bytes(x as int, 4), 0) == x,
{
    let b = le_bytes(x as int, 4);
    let v = x as int;
    vstd::arithmetic::div_mod::lemma_div_denominator(v, 0x100, 0x100);
    vstd::arithmetic::div_mod::lemma_div_denominator(v, 0x1_0000, 0x100);
    let q1 = v / 0x100;
    let q2 = v / 0x1_0000;
    let q3 = v / 0x100_0000;
    assert(b[0] == v % 0x100 && b[1] == q1 % 0x100 && b[2] == q2 % 0x100 && b[3] == q3 % 0x100);
    assert(q3 < 0x100);
}

} // verus!
