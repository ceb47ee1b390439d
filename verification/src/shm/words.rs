//! Little-endian words: how fields share a 64-bit word, and how a word stands
//! as eight bytes.
use vstd::arithmetic::div_mod::lemma_div_denominator;
use vstd::prelude::*;

verus! {

/// Two 32-bit fields in one word, the first in the low half.
pub open spec fn word_of(lo: u32, hi: u32) -> u64 {
    (lo + hi * 0x1_0000_0000) as u64
}

/// The low half of a word.
pub open spec fn low_half(w: u64) -> u32 {
    (w % 0x1_0000_0000) as u32
}

/// The high half of a word.
pub open spec fn high_half(w: u64) -> u32 {
    (w / 0x1_0000_0000) as u32
}

/// Two 16-bit fields in one 32-bit half, the first in the low part.
pub open spec fn half_of(lo: u16, hi: u16) -> u32 {
    (lo + hi * 0x1_0000) as u32
}

/// The low part of a half.
pub open spec fn low_quarter(h: u32) -> u16 {
    (h % 0x1_0000) as u16
}

/// The high part of a half.
pub open spec fn high_quarter(h: u32) -> u16 {
    (h / 0x1_0000) as u16
}

/// The two's-complement pattern of a signed 32-bit field.
pub open spec fn signed_bits(x: i32) -> u32 {
    (if x >= 0 {
        x as int
    } else {
        x + 0x1_0000_0000
    }) as u32
}

/// The signed value of a two's-complement pattern.
pub open spec fn signed_value(bits: u32) -> i32 {
    (if bits < 0x8000_0000 {
        bits as int
    } else {
        bits - 0x1_0000_0000
    }) as i32
}

pub fn pack(lo: u32, hi: u32) -> (r: u64)
    ensures
        r == word_of(lo, hi),
{
    lo as u64 + hi as u64 * 0x1_0000_0000
}

pub fn low(w: u64) -> (r: u32)
    ensures
        r == low_half(w),
{
    (w % 0x1_0000_0000) as u32
}

pub fn high(w: u64) -> (r: u32)
    ensures
        r == high_half(w),
{
    (w / 0x1_0000_0000) as u32
}

pub fn pack_quarters(lo: u16, hi: u16) -> (r: u32)
    ensures
        r == half_of(lo, hi),
{
    lo as u32 + hi as u32 * 0x1_0000
}

pub fn low_part(h: u32) -> (r: u16)
    ensures
        r == low_quarter(h),
{
    (h % 0x1_0000) as u16
}

pub fn high_part(h: u32) -> (r: u16)
    ensures
        r == high_quarter(h),
{
    (h / 0x1_0000) as u16
}

pub fn to_bits(x: i32) -> (r: u32)
    ensures
        r == signed_bits(x),
{
    if x >= 0 {
        x as u32
    } else {
        (x as i64 + 0x1_0000_0000) as u32
    }
}

pub fn of_bits(bits: u32) -> (r: i32)
    ensures
        r == signed_value(bits),
{
    if bits < 0x8000_0000 {
        bits as i32
    } else {
        (bits as i64 - 0x1_0000_0000) as i32
    }
}

/// Halves and words carry each other without loss.
pub broadcast proof fn lemma_word_halves(lo: u32, hi: u32)
    ensures
        #![trigger word_of(lo, hi)]
        low_half(word_of(lo, hi)) == lo,
        high_half(word_of(lo, hi)) == hi,
{
}

/// A word is its two halves.
pub broadcast proof fn lemma_halves_word(w: u64)
    ensures
        #![trigger low_half(w)]
        #![trigger high_half(w)]
        word_of(low_half(w), high_half(w)) == w,
{
}

/// Quarters and halves carry each other without loss.
pub broadcast proof fn lemma_half_quarters(lo: u16, hi: u16)
    ensures
        #![trigger half_of(lo, hi)]
        low_quarter(half_of(lo, hi)) == lo,
        high_quarter(half_of(lo, hi)) == hi,
{
}

/// A half is its two quarters.
pub broadcast proof fn lemma_quarters_half(h: u32)
    ensures
        #![trigger low_quarter(h)]
        #![trigger high_quarter(h)]
        half_of(low_quarter(h), high_quarter(h)) == h,
{
}

/// Signed values and their patterns carry each other without loss.
pub broadcast proof fn lemma_signed_bits(x: i32)
    ensures
        signed_value(#[trigger] signed_bits(x)) == x,
{
}

/// Patterns and their signed values carry each other without loss.
pub broadcast proof fn lemma_signed_value(bits: u32)
    ensures
        signed_bits(#[trigger] signed_value(bits)) == bits,
{
}

pub broadcast group group_words {
    lemma_word_halves,
    lemma_halves_word,
    lemma_half_quarters,
    lemma_quarters_half,
    lemma_signed_bits,
    lemma_signed_value,
}

/// The weight of byte `i` of a little-endian number.
pub open spec fn byte_weight(i: int) -> int {
    if i == 0 {
        1
    } else if i == 1 {
        0x100
    } else if i == 2 {
        0x1_0000
    } else if i == 3 {
        0x100_0000
    } else if i == 4 {
        0x1_0000_0000
    } else if i == 5 {
        0x100_0000_0000
    } else if i == 6 {
        0x1_0000_0000_0000
    } else {
        0x100_0000_0000_0000
    }
}

/// Byte `i` of a little-endian number.
pub open spec fn byte_of(v: int, i: int) -> u8 {
    ((v / byte_weight(i)) % 256) as u8
}

/// The little-endian bytes of a number, `n` of them.
pub open spec fn le_bytes(v: int, n: nat) -> Seq<u8> {
    Seq::new(n, |i: int| byte_of(v, i))
}

/// The word that eight little-endian bytes make.
pub open spec fn le_word(b: Seq<u8>) -> u64 {
    (b[0] + b[1] * 0x100 + b[2] * 0x1_0000 + b[3] * 0x100_0000 + b[4] * 0x1_0000_0000 + b[5]
        * 0x100_0000_0000 + b[6] * 0x1_0000_0000_0000 + b[7] * 0x100_0000_0000_0000) as u64
}

/// Words as a byte string, lowest byte of the lowest word first.
pub open spec fn bytes_of_words(words: Seq<u64>) -> Seq<u8> {
    Seq::new(words.len() * 8, |i: int| byte_of(words[i / 8] as int, i % 8))
}

/// Dividing by a byte weight is dividing by 256 that many times.
proof fn lemma_byte_chain(v: int)
    requires
        0 <= v,
    ensures
        v / byte_weight(2) == (v / byte_weight(1)) / 0x100,
        v / byte_weight(3) == (v / byte_weight(2)) / 0x100,
        v / byte_weight(4) == (v / byte_weight(3)) / 0x100,
        v / byte_weight(5) == (v / byte_weight(4)) / 0x100,
        v / byte_weight(6) == (v / byte_weight(5)) / 0x100,
        v / byte_weight(7) == (v / byte_weight(6)) / 0x100,
{
    lemma_div_denominator(v, 0x100, 0x100);
    lemma_div_denominator(v, 0x1_0000, 0x100);
    lemma_div_denominator(v, 0x100_0000, 0x100);
    lemma_div_denominator(v, 0x1_0000_0000, 0x100);
    lemma_div_denominator(v, 0x100_0000_0000, 0x100);
    lemma_div_denominator(v, 0x1_0000_0000_0000, 0x100);
}

/// Eight bytes make the word whose bytes they are.
pub proof fn lemma_word_of_its_bytes(w: u64)
    ensures
        le_word(le_bytes(w as int, 8)) == w,
{
    let b = le_bytes(w as int, 8);
    let v = w as int;
    lemma_byte_chain(v);
    let q1 = v / byte_weight(1);
    let q2 = v / byte_weight(2);
    let q3 = v / byte_weight(3);
    let q4 = v / byte_weight(4);
    let q5 = v / byte_weight(5);
    let q6 = v / byte_weight(6);
    let q7 = v / byte_weight(7);
    assert(b[0] == v % 0x100 && b[1] == q1 % 0x100 && b[2] == q2 % 0x100 && b[3] == q3 % 0x100
        && b[4] == q4 % 0x100 && b[5] == q5 % 0x100 && b[6] == q6 % 0x100);
    assert(q7 < 0x100);
    assert(b[7] == q7);
    assert(v == b[0] + 0x100 * q1);
    assert(q1 == b[1] + 0x100 * q2);
    assert(q2 == b[2] + 0x100 * q3);
    assert(q3 == b[3] + 0x100 * q4);
    assert(q4 == b[4] + 0x100 * q5);
    assert(q5 == b[5] + 0x100 * q6);
    assert(q6 == b[6] + 0x100 * q7);
}

/// The bytes of the word that eight bytes make are those bytes.
pub proof fn lemma_bytes_of_their_word(b: Seq<u8>)
    requires
        b.len() == 8,
    ensures
        le_bytes(le_word(b) as int, 8) == b,
{
    let w = le_word(b) as int;
    let q6 = b[6] + b[7] * 0x100;
    let q5 = b[5] + q6 * 0x100;
    let q4 = b[4] + q5 * 0x100;
    let q3 = b[3] + q4 * 0x100;
    let q2 = b[2] + q3 * 0x100;
    let q1 = b[1] + q2 * 0x100;
    assert(w == b[0] + q1 * 0x100);
    lemma_byte_chain(w);
    assert(w / byte_weight(1) == q1);
    assert(w / byte_weight(2) == q2);
    assert(w / byte_weight(3) == q3);
    assert(w / byte_weight(4) == q4);
    assert(w / byte_weight(5) == q5);
    assert(w / byte_weight(6) == q6);
    assert(w / byte_weight(7) == b[7]);
    assert(le_bytes(w, 8) =~= b);
}

/// A word of two halves stands as the bytes of the low half, then the high.
pub proof fn lemma_word_bytes(lo: u32, hi: u32)
    ensures
        le_bytes(word_of(lo, hi) as int, 8) == le_bytes(lo as int, 4) + le_bytes(hi as int, 4),
{
    let w = word_of(lo, hi) as int;
    let l = lo as int;
    let h = hi as int;
    assert(w == l + h * 0x1_0000_0000);
    assert(w / 0x100 == l / 0x100 + h * 0x100_0000);
    assert(w / 0x1_0000 == l / 0x1_0000 + h * 0x1_0000);
    assert(w / 0x100_0000 == l / 0x100_0000 + h * 0x100);
    assert(w / 0x1_0000_0000 == h);
    lemma_byte_chain(w);
    lemma_byte_chain(h);
    assert(w / byte_weight(5) == h / byte_weight(1));
    assert(w / byte_weight(6) == h / byte_weight(2));
    assert(w / byte_weight(7) == h / byte_weight(3));
    assert(byte_of(w, 0) == byte_of(l, 0));
    assert(byte_of(w, 1) == byte_of(l, 1));
    assert(byte_of(w, 2) == byte_of(l, 2));
    assert(byte_of(w, 3) == byte_of(l, 3));
    assert(byte_of(w, 4) == byte_of(h, 0));
    assert(byte_of(w, 5) == byte_of(h, 1));
    assert(byte_of(w, 6) == byte_of(h, 2));
    assert(byte_of(w, 7) == byte_of(h, 3));
    assert(le_bytes(w, 8) =~= le_bytes(l, 4) + le_bytes(h, 4));
}

/// A half of two quarters stands as the bytes of the low quarter, then the high.
pub proof fn lemma_half_bytes(lo: u16, hi: u16)
    ensures
        le_bytes(half_of(lo, hi) as int, 4) == le_bytes(lo as int, 2) + le_bytes(hi as int, 2),
{
    let h = half_of(lo, hi) as int;
    assert(byte_of(h, 0) == byte_of(lo as int, 0));
    assert(byte_of(h, 1) == byte_of(lo as int, 1));
    assert(byte_of(h, 2) == byte_of(hi as int, 0));
    assert(byte_of(h, 3) == byte_of(hi as int, 1));
    assert(le_bytes(h, 4) =~= le_bytes(lo as int, 2) + le_bytes(hi as int, 2));
}

/// The bytes of word `i` stand at offset `8 * i`.
pub proof fn lemma_word_offset(words: Seq<u64>, i: int)
    requires
        0 <= i < words.len(),
    ensures
        bytes_of_words(words).subrange(8 * i, 8 * i + 8) == le_bytes(words[i] as int, 8),
{
    let b = bytes_of_words(words);
    assert forall|j: int| 0 <= j < 8 implies b.subrange(8 * i, 8 * i + 8)[j] == le_bytes(
        words[i] as int,
        8,
    )[j] by {
        assert(b[8 * i + j] == byte_of(words[(8 * i + j) / 8] as int, (8 * i + j) % 8));
    }
    assert(b.subrange(8 * i, 8 * i + 8) =~= le_bytes(words[i] as int, 8));
}

/// The field in the low half of word `i` stands at byte `8 * i`, the one in the
/// high half four bytes on.
pub proof fn lemma_half_offsets(words: Seq<u64>, i: int, lo: u32, hi: u32)
    requires
        0 <= i < words.len(),
        words[i] == word_of(lo, hi),
    ensures
        bytes_of_words(words).subrange(8 * i, 8 * i + 4) == le_bytes(lo as int, 4),
        bytes_of_words(words).subrange(8 * i + 4, 8 * i + 8) == le_bytes(hi as int, 4),
{
    let b = bytes_of_words(words);
    let w = b.subrange(8 * i, 8 * i + 8);
    lemma_word_offset(words, i);
    lemma_word_bytes(lo, hi);
    let l = le_bytes(lo as int, 4);
    let h = le_bytes(hi as int, 4);
    assert(w == l + h);
    assert(w.subrange(0, 4) =~= l);
    assert(w.subrange(4, 8) =~= h);
    assert(b.subrange(8 * i, 8 * i + 4) =~= w.subrange(0, 4));
    assert(b.subrange(8 * i + 4, 8 * i + 8) =~= w.subrange(4, 8));
}

/// Append the bytes of a word.
pub fn push_word(out: &mut Vec<u8>, w: u64)
    ensures
        final(out)@ == old(out)@ + le_bytes(w as int, 8),
{
    out.push((w % 0x100) as u8);
    out.push(((w / 0x100) % 0x100) as u8);
    out.push(((w / 0x1_0000) % 0x100) as u8);
    out.push(((w / 0x100_0000) % 0x100) as u8);
    out.push(((w / 0x1_0000_0000) % 0x100) as u8);
    out.push(((w / 0x100_0000_0000) % 0x100) as u8);
    out.push(((w / 0x1_0000_0000_0000) % 0x100) as u8);
    out.push(((w / 0x100_0000_0000_0000) % 0x100) as u8);
    assert(out@ =~= old(out)@ + le_bytes(w as int, 8));
}

/// Read the word whose bytes start at `at`.
pub fn read_word(b: &[u8], at: usize) -> (r: u64)
    requires
        at + 8 <= b@.len(),
    ensures
        r == le_word(b@.subrange(at as int, at + 8)),
{
    b[at] as u64 + b[at + 1] as u64 * 0x100 + b[at + 2] as u64 * 0x1_0000 + b[at + 3] as u64
        * 0x100_0000 + b[at + 4] as u64 * 0x1_0000_0000 + b[at + 5] as u64 * 0x100_0000_0000 + b[at
        + 6] as u64 * 0x1_0000_0000_0000 + b[at + 7] as u64 * 0x100_0000_0000_0000
}

/// The first byte of a word counts least, each further one 256 times as much as
/// the one before.
pub proof fn the_first_byte_counts_least(w: u64)
    ensures
        ({
            let b = le_bytes(w as int, 8);
            let low = b[0] + 0x100 * (b[1] + 0x100 * (b[2] + 0x100 * b[3]));
            let high = b[4] + 0x100 * (b[5] + 0x100 * (b[6] + 0x100 * b[7]));
            &&& b.len() == 8
            &&& w == low + 0x1_0000_0000 * high
        }),
{
    lemma_word_of_its_bytes(w);
}

/// Fields that share a word stand side by side: the first counts less. Signed
/// ones wrap below zero.
pub proof fn fields_share_words_side_by_side(lo: u32, hi: u32, a: u16, b: u16, x: i32)
    ensures
        word_of(lo, hi) == lo + hi * 0x1_0000_0000,
        half_of(a, b) == a + b * 0x1_0000,
        signed_bits(x) == if x < 0 {
            x + 0x1_0000_0000
        } else {
            x as int
        },
        signed_value(signed_bits(x)) == x,
{
}

} // verus!
