//! The `plc_trace` segment: a single-producer broadcast ring with one sample
//! per control cycle.
//!
//! The writer never waits. `write_idx` counts the samples ever written; slot
//! `i % capacity` holds sample `i`. A reader copies a range, loads `write_idx`
//! again and drops every sample that the writer may have reached meanwhile.
//! While `write_idx` is `w` the writer may be storing sample `w`, so the oldest
//! sample that is surely whole is `w - capacity + 1`.
use vstd::arithmetic::power2::{lemma2_to64, lemma_pow2_strictly_increases, lemma_pow2_unfold, pow2};
use vstd::prelude::*;

use crate::scalar::Scalar;
use crate::shm::layout::{lemma_append_word, lemma_equal_signed, lemma_equal_words};
use crate::shm::mapping::Mapping;
use crate::shm::words::{
    bytes_of_words, half_of, high, high_half, high_part, high_quarter, le_bytes, le_word,
    lemma_bytes_of_their_word, low, low_half, low_part, low_quarter, of_bits, pack, pack_quarters,
    push_word, read_word, signed_bits, to_bits, word_of,
};

verus! {

broadcast use crate::shm::words::group_words;

/// 'PLCT'
pub const PLC_TRACE_MAGIC: u32 = 0x504C_4354;

pub const PLC_TRACE_VERSION: u16 = 1;

pub const NAME_PLC_TRACE: &'static str = "plc_trace";

/// Size of the header in bytes.
pub const SIZE_TRACE_HEADER: usize = 64;

/// Size of a sample in bytes.
pub const SIZE_TRACE_SAMPLE: usize = 256;

/// Size of the header in words.
pub const HEADER_WORDS: usize = 8;

/// Size of a sample in words.
pub const SAMPLE_WORDS: usize = 32;

/// The word that holds `write_idx`.
pub const WRITE_IDX_WORD: usize = 4;

/// First 64 bytes of the trace segment. Everything but `write_idx` is written
/// once.
#[derive(Clone, Copy, Debug, PartialEq, Eq)]
pub struct TraceHeader {
    pub magic: u32,
    pub version: u16,
    pub flags: u16,
    /// Size of a sample in bytes.
    pub sample_size: u32,
    /// Ring capacity in samples, a power of two.
    pub capacity: u32,
    /// Nominal cycle period in nanoseconds.
    pub period_ns: u64,
    /// Wall-clock time at segment creation.
    pub epoch_unix_ns: u64,
    /// The samples ever written.
    pub write_idx: u64,
    pub _pad: [u64; 3],
}

/// Per-axis slice of a sample. 56 bytes.
#[derive(Clone, Copy, Debug, PartialEq, Eq, Structural)]
pub struct TraceAxisSample {
    pub act_pos: Scalar,
    pub act_vel: Scalar,
    pub set_pos: Scalar,
    pub set_vel: Scalar,
    pub step: i32,
    pub flags: u32,
    pub error_id: i32,
    pub fault_code: u32,
    /// 0=offline 1=disabled 2=enabling 3=enabled 4=quick stop 5=fault.
    pub drive_status: u32,
    /// b0=pos_limit b1=neg_limit b2=homed b3=enable b4=fault_reset.
    pub io_bits: u32,
}

/// One control cycle. 256 bytes.
#[derive(Clone, Copy, Debug, PartialEq, Eq)]
pub struct TraceSample {
    /// The published cycle counter.
    pub cycle: u64,
    /// Nanoseconds since segment creation.
    pub t_mono_ns: u64,
    /// Measured wake-to-wake period.
    pub period_ns: u32,
    /// Duration of the bus exchange.
    pub exchange_ns: u32,
    /// 0=init 1=pre-op 2=safe-op 3=op.
    pub bus_state: u8,
    /// b0=exchange_error b1=cmd_fresh b2=cmd_valid b3=overrun b4=wkc_error.
    pub status_bits: u8,
    pub _pad: u16,
    pub run_state: u32,
    pub axes: [TraceAxisSample; 4],
}

/// All fields zero.
pub open spec fn blank_axis_sample() -> TraceAxisSample {
    TraceAxisSample {
        act_pos: Scalar { bits: 0 },
        act_vel: Scalar { bits: 0 },
        set_pos: Scalar { bits: 0 },
        set_vel: Scalar { bits: 0 },
        step: 0,
        flags: 0,
        error_id: 0,
        fault_code: 0,
        drive_status: 0,
        io_bits: 0,
    }
}

/// All fields zero.
pub open spec fn blank_sample() -> TraceSample {
    TraceSample {
        cycle: 0,
        t_mono_ns: 0,
        period_ns: 0,
        exchange_ns: 0,
        bus_state: 0,
        status_bits: 0,
        _pad: 0,
        run_state: 0,
        axes: [blank_axis_sample(), blank_axis_sample(), blank_axis_sample(), blank_axis_sample()],
    }
}

impl Default for TraceAxisSample {
    fn default() -> (r: TraceAxisSample)
        ensures
            r == blank_axis_sample(),
    {
        TraceAxisSample {
            act_pos: Scalar { bits: 0 },
            act_vel: Scalar { bits: 0 },
            set_pos: Scalar { bits: 0 },
            set_vel: Scalar { bits: 0 },
            step: 0,
            flags: 0,
            error_id: 0,
            fault_code: 0,
            drive_status: 0,
            io_bits: 0,
        }
    }
}

impl Default for TraceSample {
    fn default() -> (r: TraceSample)
        ensures
            r == blank_sample(),
    {
        let a = TraceAxisSample {
            act_pos: Scalar { bits: 0 },
            act_vel: Scalar { bits: 0 },
            set_pos: Scalar { bits: 0 },
            set_vel: Scalar { bits: 0 },
            step: 0,
            flags: 0,
            error_id: 0,
            fault_code: 0,
            drive_status: 0,
            io_bits: 0,
        };
        TraceSample {
            cycle: 0,
            t_mono_ns: 0,
            period_ns: 0,
            exchange_ns: 0,
            bus_state: 0,
            status_bits: 0,
            _pad: 0,
            run_state: 0,
            axes: [a, a, a, a],
        }
    }
}

/// Word `i` of a trace header.
pub open spec fn trace_header_word(h: TraceHeader, i: int) -> u64 {
    if i == 0 {
        word_of(h.magic, half_of(h.version, h.flags))
    } else if i == 1 {
        word_of(h.sample_size, h.capacity)
    } else if i == 2 {
        h.period_ns
    } else if i == 3 {
        h.epoch_unix_ns
    } else if i == 4 {
        h.write_idx
    } else {
        h._pad[i - 5]
    }
}

/// The seven words of an axis in a sample.
pub open spec fn axis_sample_word(a: TraceAxisSample, i: int) -> u64 {
    if i == 0 {
        a.act_pos.bits
    } else if i == 1 {
        a.act_vel.bits
    } else if i == 2 {
        a.set_pos.bits
    } else if i == 3 {
        a.set_vel.bits
    } else if i == 4 {
        word_of(signed_bits(a.step), a.flags)
    } else if i == 5 {
        word_of(signed_bits(a.error_id), a.fault_code)
    } else {
        word_of(a.drive_status, a.io_bits)
    }
}

/// The half with the bus state and the status bits.
pub open spec fn state_half(s: TraceSample) -> u32 {
    half_of((s.bus_state + s.status_bits * 0x100) as u16, s._pad)
}

/// Word `i` of a sample.
pub open spec fn sample_word(s: TraceSample, i: int) -> u64 {
    if i == 0 {
        s.cycle
    } else if i == 1 {
        s.t_mono_ns
    } else if i == 2 {
        word_of(s.period_ns, s.exchange_ns)
    } else if i == 3 {
        word_of(state_half(s), s.run_state)
    } else {
        axis_sample_word(s.axes[(i - 4) / 7], (i - 4) % 7)
    }
}

/// The words of a sample.
pub open spec fn sample_words(s: TraceSample) -> Seq<u64> {
    Seq::new(32, |i: int| sample_word(s, i))
}

/// Samples with the same words are the same.
pub proof fn sample_words_determine(a: TraceSample, b: TraceSample)
    requires
        forall|i: int| 0 <= i < 32 ==> sample_word(a, i) == sample_word(b, i),
    ensures
        a == b,
{
    assert(sample_word(a, 0) == sample_word(b, 0));
    assert(sample_word(a, 1) == sample_word(b, 1));
    assert(sample_word(a, 2) == sample_word(b, 2));
    assert(sample_word(a, 3) == sample_word(b, 3));
    lemma_equal_words(a.period_ns, a.exchange_ns, b.period_ns, b.exchange_ns);
    lemma_equal_words(state_half(a), a.run_state, state_half(b), b.run_state);
    assert(low_quarter(state_half(a)) == low_quarter(state_half(b)));
    assert(high_quarter(state_half(a)) == high_quarter(state_half(b)));
    assert(a.bus_state + a.status_bits * 0x100 == b.bus_state + b.status_bits * 0x100);
    assert forall|k: int| 0 <= k < 4 implies a.axes[k] == b.axes[k] by {
        assert forall|j: int| 0 <= j < 7 implies axis_sample_word(a.axes[k], j)
            == axis_sample_word(b.axes[k], j) by {
            assert(sample_word(a, 4 + 7 * k + j) == sample_word(b, 4 + 7 * k + j));
        }
        lemma_axis_sample_words(a.axes[k], b.axes[k]);
    }
    assert(a.axes =~= b.axes);
}

proof fn lemma_axis_sample_words(a: TraceAxisSample, b: TraceAxisSample)
    requires
        forall|j: int| 0 <= j < 7 ==> axis_sample_word(a, j) == axis_sample_word(b, j),
    ensures
        a == b,
{
    assert(axis_sample_word(a, 0) == axis_sample_word(b, 0));
    assert(axis_sample_word(a, 1) == axis_sample_word(b, 1));
    assert(axis_sample_word(a, 2) == axis_sample_word(b, 2));
    assert(axis_sample_word(a, 3) == axis_sample_word(b, 3));
    assert(axis_sample_word(a, 4) == axis_sample_word(b, 4));
    assert(axis_sample_word(a, 5) == axis_sample_word(b, 5));
    assert(axis_sample_word(a, 6) == axis_sample_word(b, 6));
    lemma_equal_words(signed_bits(a.step), a.flags, signed_bits(b.step), b.flags);
    lemma_equal_words(
        signed_bits(a.error_id),
        a.fault_code,
        signed_bits(b.error_id),
        b.fault_code,
    );
    lemma_equal_words(a.drive_status, a.io_bits, b.drive_status, b.io_bits);
    lemma_equal_signed(a.step, b.step);
    lemma_equal_signed(a.error_id, b.error_id);
}

fn axis_sample_word_at(a: &TraceAxisSample, i: usize) -> (r: u64)
    requires
        i < 7,
    ensures
        r == axis_sample_word(*a, i as int),
{
    if i == 0 {
        a.act_pos.bits
    } else if i == 1 {
        a.act_vel.bits
    } else if i == 2 {
        a.set_pos.bits
    } else if i == 3 {
        a.set_vel.bits
    } else if i == 4 {
        pack(to_bits(a.step), a.flags)
    } else if i == 5 {
        pack(to_bits(a.error_id), a.fault_code)
    } else {
        pack(a.drive_status, a.io_bits)
    }
}

fn axis_sample_with_word(a: TraceAxisSample, i: usize, w: u64) -> (r: TraceAxisSample)
    requires
        i < 7,
    ensures
        axis_sample_word(r, i as int) == w,
        forall|j: int| 0 <= j < 7 && j != i ==> axis_sample_word(r, j) == axis_sample_word(a, j),
{
    if i == 0 {
        TraceAxisSample { act_pos: Scalar { bits: w }, ..a }
    } else if i == 1 {
        TraceAxisSample { act_vel: Scalar { bits: w }, ..a }
    } else if i == 2 {
        TraceAxisSample { set_pos: Scalar { bits: w }, ..a }
    } else if i == 3 {
        TraceAxisSample { set_vel: Scalar { bits: w }, ..a }
    } else if i == 4 {
        TraceAxisSample { step: of_bits(low(w)), flags: high(w), ..a }
    } else if i == 5 {
        TraceAxisSample { error_id: of_bits(low(w)), fault_code: high(w), ..a }
    } else {
        TraceAxisSample { drive_status: low(w), io_bits: high(w), ..a }
    }
}

impl TraceSample {
    /// Word `i` of this sample.
    pub fn word(&self, i: usize) -> (r: u64)
        requires
            i < 32,
        ensures
            r == sample_word(*self, i as int),
    {
        if i == 0 {
            self.cycle
        } else if i == 1 {
            self.t_mono_ns
        } else if i == 2 {
            pack(self.period_ns, self.exchange_ns)
        } else if i == 3 {
            let state: u16 = self.bus_state as u16 + self.status_bits as u16 * 0x100;
            pack(pack_quarters(state, self._pad), self.run_state)
        } else {
            axis_sample_word_at(&self.axes[(i - 4) / 7], (i - 4) % 7)
        }
    }

    /// Replace word `i` of this sample.
    pub fn set_word(&mut self, i: usize, w: u64)
        requires
            i < 32,
        ensures
            sample_word(*final(self), i as int) == w,
            forall|j: int|
                0 <= j < 32 && j != i ==> sample_word(*final(self), j) == sample_word(
                    *old(self),
                    j,
                ),
    {
        if i == 0 {
            self.cycle = w;
        } else if i == 1 {
            self.t_mono_ns = w;
        } else if i == 2 {
            self.period_ns = low(w);
            self.exchange_ns = high(w);
        } else if i == 3 {
            let half: u32 = low(w);
            let state: u16 = low_part(half);
            self.bus_state = (state % 0x100) as u8;
            self.status_bits = (state / 0x100) as u8;
            self._pad = high_part(half);
            self.run_state = high(w);
            assert(self.bus_state + self.status_bits * 0x100 == state);
        } else {
            let k: usize = (i - 4) / 7;
            let a = axis_sample_with_word(self.axes[k], (i - 4) % 7, w);
            self.axes[k] = a;
            assert forall|j: int| 4 <= j < 32 && j != i implies sample_word(*self, j)
                == sample_word(*old(self), j) by {
                if (j - 4) / 7 == k {
                    assert((j - 4) % 7 != (i - 4) % 7);
                }
            }
        }
    }
}

impl TraceHeader {
    /// Word `i` of this header.
    pub fn word(&self, i: usize) -> (r: u64)
        requires
            i < 8,
        ensures
            r == trace_header_word(*self, i as int),
    {
        if i == 0 {
            pack(self.magic, pack_quarters(self.version, self.flags))
        } else if i == 1 {
            pack(self.sample_size, self.capacity)
        } else if i == 2 {
            self.period_ns
        } else if i == 3 {
            self.epoch_unix_ns
        } else if i == 4 {
            self.write_idx
        } else {
            self._pad[i - 5]
        }
    }
}

/// The raw bytes of a sample.
pub fn sample_as_bytes(s: &TraceSample) -> (r: Vec<u8>)
    ensures
        r@ == bytes_of_words(sample_words(*s)),
{
    let mut out: Vec<u8> = Vec::new();
    let ghost words = sample_words(*s);
    let mut i: usize = 0;
    while i < SAMPLE_WORDS
        invariant
            i <= SAMPLE_WORDS,
            words == sample_words(*s),
            out@ == bytes_of_words(words.take(i as int)),
        decreases SAMPLE_WORDS - i,
    {
        push_word(&mut out, s.word(i));
        proof {
            lemma_append_word(words, i as int);
        }
        i += 1;
    }
    assert(words.take(32) =~= words);
    out
}

/// The sample whose raw bytes these are.
pub fn sample_from_bytes(b: &[u8]) -> (r: TraceSample)
    requires
        b@.len() == SIZE_TRACE_SAMPLE,
    ensures
        bytes_of_words(sample_words(r)) == b@,
{
    let mut s = TraceSample::default();
    let mut i: usize = 0;
    while i < SAMPLE_WORDS
        invariant
            i <= SAMPLE_WORDS,
            b@.len() == SIZE_TRACE_SAMPLE,
            forall|j: int|
                0 <= j < i ==> sample_word(s, j) == le_word(b@.subrange(8 * j, 8 * j + 8)),
        decreases SAMPLE_WORDS - i,
    {
        s.set_word(i, read_word(b, 8 * i));
        i += 1;
    }
    proof {
        let bytes = bytes_of_words(sample_words(s));
        assert forall|j: int| 0 <= j < b@.len() implies bytes[j] == b@[j] by {
            let k = j / 8;
            let part = b@.subrange(8 * k, 8 * k + 8);
            lemma_bytes_of_their_word(part);
            assert(sample_words(s)[k] == le_word(part));
            assert(le_bytes(le_word(part) as int, 8)[j % 8] == part[j % 8]);
        }
        assert(bytes =~= b@);
    }
    s
}

/// A power of two.
pub open spec fn power_of_two(n: int) -> bool {
    exists|k: nat| n == #[trigger] pow2(k)
}

/// Total segment size in bytes for a ring capacity.
pub fn segment_size(capacity: u32) -> (r: usize)
    requires
        SIZE_TRACE_HEADER + capacity * SIZE_TRACE_SAMPLE <= usize::MAX,
    ensures
        r == SIZE_TRACE_HEADER + capacity * SIZE_TRACE_SAMPLE,
{
    SIZE_TRACE_HEADER + capacity as usize * SIZE_TRACE_SAMPLE
}

/// The samples that `seconds` take at one per `period_ns`, rounded up; both
/// count as at least one.
pub open spec fn samples_in(seconds: u64, period_ns: u64) -> int {
    let s = if seconds < 1 {
        1
    } else {
        seconds as int
    };
    let p = if period_ns < 1 {
        1
    } else {
        period_ns as int
    };
    (s * 1_000_000_000 + p - 1) / p
}

/// Whether a number is a power of two.
pub fn is_power_of_two(n: u32) -> (r: bool)
    ensures
        r == power_of_two(n as int),
{
    let mut p: u64 = 1;
    let ghost mut k: nat = 0;
    proof {
        lemma2_to64();
    }
    while p < n as u64
        invariant
            p == pow2(k),
            1 <= p < 0x2_0000_0000,
            n > 0 && k > 0 ==> pow2((k - 1) as nat) < n,
        decreases 0x2_0000_0000 - p,
    {
        proof {
            lemma_pow2_unfold(k + 1);
            k = k + 1;
        }
        p = p * 2;
    }
    proof {
        if power_of_two(n as int) {
            let j = choose|j: nat| n == #[trigger] pow2(j);
            vstd::arithmetic::power2::lemma_pow2_pos(j);
            if j < k {
                if j < k - 1 {
                    lemma_pow2_strictly_increases(j, (k - 1) as nat);
                }
                assert(false);
            } else if j > k {
                lemma_pow2_strictly_increases(k, j);
                assert(false);
            }
        }
        if p == n {
            assert(n == pow2(k));
        }
    }
    p == n as u64
}

/// The smallest ring capacity, a power of two up to 2^31, that covers at least
/// `seconds` at one sample per `period_ns`; 2^31 where none is large enough.
pub fn capacity_for(seconds: u64, period_ns: u64) -> (r: u32)
    requires
        seconds * 1_000_000_000 <= u64::MAX,
        samples_in(seconds, period_ns) <= 0x8000_0000_0000_0000,
    ensures
        power_of_two(r as int),
        samples_in(seconds, period_ns) <= 0x8000_0000 ==> samples_in(seconds, period_ns) <= r,
        samples_in(seconds, period_ns) > 0x8000_0000 ==> r == 0x8000_0000,
        r > 1 ==> r < 2 * samples_in(seconds, period_ns),
{
    let s: u64 = if seconds < 1 {
        1
    } else {
        seconds
    };
    let p: u64 = if period_ns < 1 {
        1
    } else {
        period_ns
    };
    let total: u64 = s * 1_000_000_000;
    let ghost want = samples_in(seconds, period_ns);
    let whole: u64 = total / p;
    let samples: u64 = if total % p == 0 {
        whole
    } else {
        proof {
            lemma_round_up(total as int, p as int);
        }
        whole + 1
    };
    proof {
        lemma_round_up(total as int, p as int);
        assert(samples == want);
        lemma2_to64();
    }
    let mut capacity: u32 = 1;
    let ghost mut k: nat = 0;
    while (capacity as u64) < samples && capacity < 0x8000_0000
        invariant
            capacity == pow2(k),
            k <= 31,
            1 <= capacity <= 0x8000_0000,
            capacity > 1 ==> capacity < 2 * samples,
        decreases 0x8000_0000 - capacity,
    {
        proof {
            lemma_pow2_unfold(k + 1);
            lemma2_to64();
            if k + 1 > 31 {
                if k > 31 {
                    lemma_pow2_strictly_increases(31, k);
                }
                assert(false);
            }
            k = k + 1;
        }
        capacity = capacity * 2;
    }
    assert(capacity == pow2(k));
    capacity
}

/// Rounding up is one more than the quotient unless the division is exact.
proof fn lemma_round_up(total: int, p: int)
    requires
        total >= 0,
        p >= 1,
    ensures
        (total + p - 1) / p == if total % p == 0 {
            total / p
        } else {
            total / p + 1
        },
        total % p != 0 ==> p >= 2,
        total / p <= total,
        p >= 2 ==> total / p <= total / 2,
{
    let q = total / p;
    let r = total % p;
    vstd::arithmetic::div_mod::lemma_fundamental_div_mod(total, p);
    assert(0 <= r < p);
    if r == 0 {
        vstd::arithmetic::div_mod::lemma_fundamental_div_mod_converse(total + p - 1, p, q, p - 1);
    } else {
        assert(total + p - 1 == p * (q + 1) + (r - 1)) by (nonlinear_arith)
            requires
                total == p * q + r,
        ;
        vstd::arithmetic::div_mod::lemma_fundamental_div_mod_converse(
            total + p - 1,
            p,
            q + 1,
            r - 1,
        );
    }
    assert(q >= 0 && q <= total) by (nonlinear_arith)
        requires
            total == p * q + r,
            0 <= r < p,
            p >= 1,
            total >= 0,
    ;
    if p >= 2 {
        assert(2 * q <= total) by (nonlinear_arith)
            requires
                total == p * q + r,
                0 <= r,
                p >= 2,
                q >= 0,
        ;
    }
}

/// A header for a new ring.
pub open spec fn new_header(capacity: u32, period_ns: u64, epoch_unix_ns: u64) -> TraceHeader {
    TraceHeader {
        magic: PLC_TRACE_MAGIC,
        version: PLC_TRACE_VERSION,
        flags: 0,
        sample_size: 256,
        capacity,
        period_ns,
        epoch_unix_ns,
        write_idx: 0,
        _pad: [0, 0, 0],
    }
}

/// A header for a new ring.
pub fn make_header(capacity: u32, period_ns: u64, epoch_unix_ns: u64) -> (r: TraceHeader)
    ensures
        r == new_header(capacity, period_ns, epoch_unix_ns),
{
    let _pad: [u64; 3] = [0, 0, 0];
    TraceHeader {
        magic: PLC_TRACE_MAGIC,
        version: PLC_TRACE_VERSION,
        flags: 0,
        sample_size: 256,
        capacity,
        period_ns,
        epoch_unix_ns,
        write_idx: 0,
        _pad,
    }
}

/// The word at which sample `i` begins.
pub open spec fn slot_start(capacity: int, i: int) -> int {
    8 + 32 * (i % capacity)
}

/// Store `k` of pushing `image` as sample `i`: the words of the sample, then the
/// new `write_idx`.
pub open spec fn push_access(capacity: int, i: int, image: Seq<u64>, k: int) -> (int, u64) {
    if k < 32 {
        (slot_start(capacity, i) + k, image[k])
    } else {
        (4, (i + 1) as u64)
    }
}

/// The number of stores of a push.
pub const PUSH_STORES: usize = 33;

/// The memory after the first `k` stores of a push.
pub open spec fn partly_pushed(
    mem: Seq<u64>,
    capacity: int,
    i: int,
    image: Seq<u64>,
    k: int,
) -> Seq<u64>
    decreases k,
{
    if k <= 0 {
        mem
    } else {
        let (index, value) = push_access(capacity, i, image, k - 1);
        partly_pushed(mem, capacity, i, image, k - 1).update(index, value)
    }
}

/// The memory after a whole push of sample `i`: its words in its slot, and
/// `write_idx` at `i + 1`.
pub open spec fn pushed(mem: Seq<u64>, capacity: int, i: int, image: Seq<u64>) -> Seq<u64> {
    Seq::new(
        mem.len(),
        |j: int|
            if j == 4 {
                (i + 1) as u64
            } else if slot_start(capacity, i) <= j < slot_start(capacity, i) + 32 {
                image[j - slot_start(capacity, i)]
            } else {
                mem[j]
            },
    )
}

/// The slot of any sample lies inside the segment, behind the header.
pub proof fn lemma_slot_bounds(capacity: int, i: int)
    requires
        capacity > 0,
        0 <= i,
    ensures
        8 <= slot_start(capacity, i),
        slot_start(capacity, i) + 32 <= 8 + 32 * capacity,
{
    vstd::arithmetic::div_mod::lemma_mod_bound(i, capacity);
}

/// The stores of a push fill the slot word by word.
pub proof fn lemma_partly_pushed(mem: Seq<u64>, capacity: int, i: int, image: Seq<u64>, k: int)
    requires
        capacity > 0,
        0 <= i,
        mem.len() >= 8 + 32 * capacity,
        image.len() == 32,
        0 <= k <= 32,
    ensures
        ({
            let m = partly_pushed(mem, capacity, i, image, k);
            let at = slot_start(capacity, i);
            &&& m.len() == mem.len()
            &&& forall|j: int|
                0 <= j < mem.len() ==> #[trigger] m[j] == if at <= j < at + k {
                    image[j - at]
                } else {
                    mem[j]
                }
        }),
    decreases k,
{
    lemma_slot_bounds(capacity, i);
    if k > 0 {
        lemma_partly_pushed(mem, capacity, i, image, k - 1);
    }
}

/// A whole push leaves exactly the pushed memory.
pub proof fn lemma_push_completes(mem: Seq<u64>, capacity: int, i: int, image: Seq<u64>)
    requires
        capacity > 0,
        0 <= i,
        mem.len() >= 8 + 32 * capacity,
        image.len() == 32,
    ensures
        partly_pushed(mem, capacity, i, image, 33) == pushed(mem, capacity, i, image),
{
    lemma_slot_bounds(capacity, i);
    lemma_partly_pushed(mem, capacity, i, image, 32);
    let m = partly_pushed(mem, capacity, i, image, 32);
    assert(partly_pushed(mem, capacity, i, image, 33) == m.update(4, (i + 1) as u64));
    assert(m.update(4, (i + 1) as u64) =~= pushed(mem, capacity, i, image));
}

/// The producer's side of a ring: its capacity and the samples written.
pub struct TraceRing {
    pub capacity: u32,
    pub count: u64,
}

impl TraceRing {
    /// Store `k` of pushing the next sample, as word index and value. Each is
    /// one atomic store; the last one is ordered behind the others.
    pub fn store(&self, s: &TraceSample, k: usize) -> (r: (usize, u64))
        requires
            self.capacity > 0,
            self.count < u64::MAX,
            k < PUSH_STORES,
            8 + 32 * self.capacity <= usize::MAX,
        ensures
            r.0 == push_access(self.capacity as int, self.count as int, sample_words(*s), k as int).0,
            r.1 == push_access(self.capacity as int, self.count as int, sample_words(*s), k as int).1,
            r.0 < 8 + 32 * self.capacity,
    {
        proof {
            lemma_slot_bounds(self.capacity as int, self.count as int);
        }
        if k < SAMPLE_WORDS {
            let slot: usize = (self.count % self.capacity as u64) as usize;
            (HEADER_WORDS + slot * SAMPLE_WORDS + k, s.word(k))
        } else {
            (WRITE_IDX_WORD, self.count + 1)
        }
    }
}

/// Sole writer of a trace ring.
pub struct TraceWriter {
    map: Mapping,
    ring: TraceRing,
}

/// A fresh ring's memory: the header in front, and the first byte of every page
/// touched.
pub open spec fn initialised(mem: Seq<u64>, capacity: u32, h: TraceHeader) -> Seq<u64> {
    Seq::new(
        mem.len(),
        |i: int|
            if i < 8 {
                trace_header_word(h, i)
            } else if i % 512 == 0 && i < 8 + 32 * capacity {
                (mem[i] - mem[i] % 0x100) as u64
            } else {
                mem[i]
            },
    )
}

impl TraceWriter {
    /// The memory of the segment.
    pub closed spec fn memory(self) -> Seq<u64> {
        self.map@
    }

    /// The ring capacity.
    pub closed spec fn capacity(self) -> u32 {
        self.ring.capacity
    }

    /// The samples written.
    pub closed spec fn written(self) -> u64 {
        self.ring.count
    }

    /// The segment has room for the ring, whose size is a power of two.
    pub open spec fn valid(self) -> bool {
        &&& power_of_two(self.capacity() as int)
        &&& self.capacity() > 0
        &&& self.memory().len() >= 8 + 32 * self.capacity()
        &&& self.memory().len() <= usize::MAX
    }

    /// Take over a fresh segment: touch every page, then write the header.
    pub fn new(m: Mapping, capacity: u32, period_ns: u64, epoch_unix_ns: u64) -> (r: TraceWriter)
        requires
            power_of_two(capacity as int),
            m@.len() * 8 >= SIZE_TRACE_HEADER + capacity * SIZE_TRACE_SAMPLE,
        ensures
            r.valid(),
            r.capacity() == capacity,
            r.written() == 0,
            r.memory() == initialised(
                m@,
                capacity,
                new_header(capacity, period_ns, epoch_unix_ns),
            ),
    {
        let mut map: Mapping = m;
        let total: usize = map.len() / 8;
        proof {
            let k = choose|k: nat| capacity == #[trigger] pow2(k);
            vstd::arithmetic::power2::lemma_pow2_pos(k);
        }
        let words: usize = HEADER_WORDS + capacity as usize * SAMPLE_WORDS;
        let ghost mem = m@;
        let pages: usize = (words + 511) / 512;
        let mut page: usize = 0;
        while page < pages
            invariant
                words == 8 + 32 * capacity,
                words <= mem.len() == total,
                pages == (words + 511) / 512,
                page <= pages,
                map@.len() == mem.len(),
                forall|i: int|
                    0 <= i < mem.len() ==> #[trigger] map@[i] == if i % 512 == 0 && i < 512 * page {
                        (mem[i] - mem[i] % 0x100) as u64
                    } else {
                        mem[i]
                    },
            decreases pages - page,
        {
            let w: u64 = map.word(page * 512);
            map.set_word(page * 512, w - w % 0x100);
            page += 1;
        }
        let h = make_header(capacity, period_ns, epoch_unix_ns);
        let ghost touched = map@;
        let mut i: usize = 0;
        while i < HEADER_WORDS
            invariant
                i <= HEADER_WORDS,
                8 <= mem.len(),
                touched.len() == mem.len(),
                map@.len() == mem.len(),
                forall|j: int|
                    0 <= j < mem.len() ==> #[trigger] map@[j] == if j < i {
                        trace_header_word(h, j)
                    } else {
                        touched[j]
                    },
            decreases HEADER_WORDS - i,
        {
            map.set_word(i, h.word(i));
            i += 1;
        }
        assert(map@ =~= initialised(mem, capacity, h));
        TraceWriter { map, ring: TraceRing { capacity, count: 0 } }
    }

    /// The segment, for a reader in the same process.
    pub fn mapping(&self) -> (r: &Mapping)
        ensures
            r@ == self.memory(),
    {
        &self.map
    }

    /// Append one sample.
    pub fn push(&mut self, s: &TraceSample)
        requires
            old(self).valid(),
            old(self).written() < u64::MAX,
        ensures
            final(self).valid(),
            final(self).capacity() == old(self).capacity(),
            final(self).written() == old(self).written() + 1,
            final(self).memory() == pushed(
                old(self).memory(),
                old(self).capacity() as int,
                old(self).written() as int,
                sample_words(*s),
            ),
    {
        let ghost mem = self.map@;
        let ghost cap = self.ring.capacity as int;
        let ghost n = self.ring.count as int;
        let ghost image = sample_words(*s);
        proof {
            lemma_push_completes(mem, cap, n, image);
        }
        let mut k: usize = 0;
        while k < PUSH_STORES
            invariant
                k <= PUSH_STORES,
                cap == self.ring.capacity,
                cap > 0,
                n == self.ring.count,
                n < u64::MAX,
                image == sample_words(*s),
                mem.len() >= 8 + 32 * cap,
                mem.len() <= usize::MAX,
                self.map@.len() == mem.len(),
                self.map@ == partly_pushed(mem, cap, n, image, k as int),
            decreases PUSH_STORES - k,
        {
            let (index, value) = self.ring.store(s, k);
            self.map.set_word(index, value);
            k += 1;
        }
        self.ring.count = self.ring.count + 1;
    }

    /// The samples written so far.
    pub fn count(&self) -> (r: u64)
        ensures
            r == self.written(),
    {
        self.ring.count
    }
}

/// Why a segment is no trace ring that can be read.
#[derive(Clone, Copy, Debug, PartialEq, Eq, Structural)]
pub enum TraceReadError {
    MagicMismatch,
    VersionMismatch,
    /// Sample size or capacity disagree with this layout or with the segment's
    /// length.
    Geometry,
}

impl TraceReadError {
    /// The error as a message.
    pub fn to_text(self) -> (r: String)
        ensures
            r@ == match self {
                TraceReadError::MagicMismatch => "trace: magic mismatch"@,
                TraceReadError::VersionMismatch => "trace: version mismatch"@,
                TraceReadError::Geometry => "trace: header geometry invalid"@,
            },
    {
        match self {
            TraceReadError::MagicMismatch => "trace: magic mismatch".to_owned(),
            TraceReadError::VersionMismatch => "trace: version mismatch".to_owned(),
            TraceReadError::Geometry => "trace: header geometry invalid".to_owned(),
        }
    }
}

/// What one `read_range` returned.
#[derive(Clone, Copy, Debug, PartialEq, Eq, Structural)]
pub struct TraceRange {
    /// Index of the first returned sample.
    pub first: u64,
    /// Where to continue without gaps.
    pub next: u64,
    /// Samples asked for that were overwritten.
    pub dropped: u64,
}

/// The samples that a reader sets out to copy: `start` up to `end`.
#[derive(Clone, Copy, Debug, PartialEq, Eq, Structural)]
pub struct TraceWindow {
    pub start: u64,
    pub end: u64,
}

/// The live part of what was asked for, no more than `max` samples of it.
pub open spec fn window_of(written: u64, capacity: u32, since: u64, max: usize) -> TraceWindow {
    let oldest: int = if written >= capacity {
        written - capacity
    } else {
        0
    };
    let start: int = if since >= oldest {
        since as int
    } else {
        oldest
    };
    let end: int = if written <= start + max {
        written as int
    } else {
        start + max
    };
    TraceWindow { start: start as u64, end: end as u64 }
}

/// The first sample of the window that the writer, now at `written`, cannot have
/// reached.
pub open spec fn clean_from(window: TraceWindow, written: u64, capacity: u32) -> u64 {
    let clean: int = if written + 1 >= capacity {
        written + 1 - capacity
    } else {
        0
    };
    if clean > window.start {
        clean as u64
    } else {
        window.start
    }
}

/// What is reported of a copy of `window`, with the writer at `before` when it
/// began and at `after` when it ended.
/// Of an empty window nothing is consumed: the next read goes on where it starts.
pub open spec fn range_of(
    window: TraceWindow,
    before: u64,
    after: u64,
    capacity: u32,
    since: u64,
) -> TraceRange {
    if window.start >= window.end {
        TraceRange {
            first: before,
            next: window.start,
            dropped: (window.start - since) as u64,
        }
    } else {
        let clean = clean_from(window, after, capacity);
        TraceRange { first: clean, next: window.end, dropped: (clean - since) as u64 }
    }
}

/// Samples of the window that the lap check drops.
pub open spec fn torn_count(window: TraceWindow, after: u64, capacity: u32) -> int {
    if window.start >= window.end {
        0
    } else if clean_from(window, after, capacity) < window.end {
        clean_from(window, after, capacity) - window.start
    } else {
        window.end - window.start
    }
}

/// Plan a copy: the live part of what was asked for, no more than `max` samples.
pub fn plan_window(written: u64, capacity: u32, since: u64, max: usize) -> (r: TraceWindow)
    ensures
        r == window_of(written, capacity, since, max),
        since <= r.start,
{
    let oldest: u64 = written.saturating_sub(capacity as u64);
    let start: u64 = if since >= oldest {
        since
    } else {
        oldest
    };
    let end: u64 = if written <= start {
        written
    } else if written - start <= max as u64 {
        written
    } else {
        start + max as u64
    };
    TraceWindow { start, end }
}

/// Finish a copy of `window`: drop the samples that the writer may have reached
/// while it was made, and report what is left.
pub fn lap_check(
    window: TraceWindow,
    before: u64,
    after: u64,
    capacity: u32,
    since: u64,
    copied: &mut Vec<TraceSample>,
) -> (r: TraceRange)
    requires
        capacity > 0,
        since <= window.start,
        old(copied)@.len() == if window.start < window.end {
            window.end - window.start
        } else {
            0
        },
    ensures
        r == range_of(window, before, after, capacity, since),
        final(copied)@ == old(copied)@.skip(torn_count(window, after, capacity)),
{
    if window.start >= window.end {
        assert(copied@.skip(0) =~= copied@);
        return TraceRange { first: before, next: window.start, dropped: window.start - since };
    }
    let lap: u64 = capacity as u64 - 1;
    let clean: u64 = if after > lap && after - lap > window.start {
        after - lap
    } else {
        window.start
    };
    let all_copied: usize = copied.len();
    let torn: usize = if clean < window.end {
        (clean - window.start) as usize
    } else {
        all_copied
    };
    let ghost all = copied@;
    let kept: Vec<TraceSample> = copied.split_off(torn);
    *copied = kept;
    assert(copied@ =~= all.skip(torn as int));
    TraceRange { first: clean, next: window.end, dropped: clean - since }
}

/// Reads a trace ring.
pub struct TraceReader<'a> {
    map: &'a Mapping,
    capacity: u32,
}

/// The header found in a segment.
pub open spec fn header_in(mem: Seq<u64>) -> TraceHeader {
    TraceHeader {
        magic: low_half(mem[0]),
        version: low_quarter(high_half(mem[0])),
        flags: high_quarter(high_half(mem[0])),
        sample_size: low_half(mem[1]),
        capacity: high_half(mem[1]),
        period_ns: mem[2],
        epoch_unix_ns: mem[3],
        write_idx: mem[4],
        _pad: [mem[5], mem[6], mem[7]],
    }
}

/// Whether a segment is a trace ring of this layout.
pub open spec fn ring_check(mem: Seq<u64>) -> Result<(), TraceReadError> {
    let h = header_in(mem);
    if mem.len() * 8 < SIZE_TRACE_HEADER {
        Err(TraceReadError::Geometry)
    } else if h.magic != PLC_TRACE_MAGIC {
        Err(TraceReadError::MagicMismatch)
    } else if h.version != PLC_TRACE_VERSION {
        Err(TraceReadError::VersionMismatch)
    } else if h.sample_size != SIZE_TRACE_SAMPLE || !power_of_two(h.capacity as int) || mem.len()
        * 8 < SIZE_TRACE_HEADER + h.capacity * SIZE_TRACE_SAMPLE {
        Err(TraceReadError::Geometry)
    } else {
        Ok(())
    }
}

/// A sample is what the memory holds as sample `i`.
pub open spec fn sample_held(mem: Seq<u64>, capacity: int, i: int, s: TraceSample) -> bool {
    forall|w: int| 0 <= w < 32 ==> sample_word(s, w) == mem[#[trigger] (slot_start(capacity, i) + w)]
}

fn read_header(map: &Mapping) -> (r: TraceHeader)
    requires
        map@.len() >= 8,
    ensures
        r == header_in(map@),
{
    let head: u64 = map.word(0);
    let size: u64 = map.word(1);
    let _pad: [u64; 3] = [map.word(5), map.word(6), map.word(7)];
    TraceHeader {
        magic: low(head),
        version: low_part(high(head)),
        flags: high_part(high(head)),
        sample_size: low(size),
        capacity: high(size),
        period_ns: map.word(2),
        epoch_unix_ns: map.word(3),
        write_idx: map.word(4),
        _pad,
    }
}

impl<'a> TraceReader<'a> {
    /// The memory of the segment.
    pub closed spec fn memory(self) -> Seq<u64> {
        self.map@
    }

    /// The ring capacity.
    pub closed spec fn ring(self) -> u32 {
        self.capacity
    }

    /// The ring lies inside the segment.
    pub open spec fn valid(self) -> bool {
        &&& self.ring() > 0
        &&& self.memory().len() >= 8 + 32 * self.ring()
        &&& self.memory().len() <= usize::MAX
    }

    /// Check the segment's header and read from it.
    pub fn new(map: &'a Mapping) -> (r: Result<TraceReader<'a>, TraceReadError>)
        ensures
            match r {
                Ok(reader) => ring_check(map@) is Ok && reader.memory() == map@ && reader.ring()
                    == header_in(map@).capacity && reader.valid(),
                Err(e) => ring_check(map@) == Err::<(), TraceReadError>(e),
            },
    {
        let len: usize = map.len();
        if len < SIZE_TRACE_HEADER {
            return Err(TraceReadError::Geometry);
        }
        let h = read_header(map);
        if h.magic != PLC_TRACE_MAGIC {
            return Err(TraceReadError::MagicMismatch);
        }
        if h.version != PLC_TRACE_VERSION {
            return Err(TraceReadError::VersionMismatch);
        }
        if h.sample_size != 256 || !is_power_of_two(h.capacity) || (len as u64) < 64
            + h.capacity as u64 * 256 {
            return Err(TraceReadError::Geometry);
        }
        proof {
            let k = choose|k: nat| h.capacity == #[trigger] pow2(k);
            vstd::arithmetic::power2::lemma_pow2_pos(k);
        }
        Ok(TraceReader { map, capacity: h.capacity })
    }

    pub fn header(&self) -> (r: TraceHeader)
        requires
            self.valid(),
        ensures
            r == header_in(self.memory()),
    {
        read_header(self.map)
    }

    /// Copy the samples from `since` on, no more than `max`, as far as the ring
    /// still holds them whole.
    pub fn read_range(&self, since: u64, max: usize, out: &mut Vec<TraceSample>) -> (r: TraceRange)
        requires
            self.valid(),
        ensures
            ({
                let w = self.memory()[4];
                let cap = self.ring();
                let window = window_of(w, cap, since, max);
                let torn = torn_count(window, w, cap);
                &&& r == range_of(window, w, w, cap, since)
                &&& final(out)@.len() == if window.start < window.end {
                    window.end - window.start - torn
                } else {
                    0
                }
                &&& forall|j: int|
                    0 <= j < final(out)@.len() ==> sample_held(
                        self.memory(),
                        cap as int,
                        window.start + torn + j,
                        #[trigger] final(out)@[j],
                    )
            }),
    {
        out.clear();
        let before: u64 = self.map.word(WRITE_IDX_WORD);
        let window = plan_window(before, self.capacity, since, max);
        let mut i: u64 = window.start;
        while i < window.end
            invariant
                self.valid(),
                window.start < window.end ==> window.start <= i <= window.end,
                window.start >= window.end ==> i == window.start,
                out@.len() == i - window.start,
                forall|j: int|
                    0 <= j < out@.len() ==> sample_held(
                        self.memory(),
                        self.ring() as int,
                        window.start + j,
                        #[trigger] out@[j],
                    ),
            decreases window.end - i,
        {
            let s = self.sample(i);
            out.push(s);
            i += 1;
        }
        let ghost all = out@;
        let after: u64 = self.map.word(WRITE_IDX_WORD);
        let range = lap_check(window, before, after, self.capacity, since, out);
        proof {
            let torn = torn_count(window, after, self.capacity);
            assert forall|j: int| 0 <= j < out@.len() implies sample_held(
                self.memory(),
                self.ring() as int,
                window.start + torn + j,
                #[trigger] out@[j],
            ) by {
                assert(out@[j] == all[torn + j]);
            }
        }
        range
    }

    fn sample(&self, i: u64) -> (r: TraceSample)
        requires
            self.valid(),
        ensures
            sample_held(self.memory(), self.ring() as int, i as int, r),
    {
        proof {
            lemma_slot_bounds(self.capacity as int, i as int);
        }
        let slot: usize = (i % self.capacity as u64) as usize;
        let start: usize = HEADER_WORDS + slot * SAMPLE_WORDS;
        let mut s = TraceSample::default();
        let mut w: usize = 0;
        while w < SAMPLE_WORDS
            invariant
                w <= SAMPLE_WORDS,
                start == slot_start(self.capacity as int, i as int),
                start + 32 <= self.map@.len(),
                self.map@.len() <= usize::MAX,
                forall|j: int| 0 <= j < w ==> sample_word(s, j) == self.map@[start + j],
            decreases SAMPLE_WORDS - w,
        {
            s.set_word(w, self.map.word(start + w));
            w += 1;
        }
        s
    }
}

/// The samples counted for a span of time cover it, and one fewer would not.
pub proof fn sample_counts_cover_the_span(seconds: u64, period_ns: u64)
    requires
        seconds >= 1,
        period_ns >= 1,
    ensures
        samples_in(seconds, period_ns) * period_ns >= seconds * 1_000_000_000,
        (samples_in(seconds, period_ns) - 1) * period_ns < seconds * 1_000_000_000,
{
    let t = seconds * 1_000_000_000;
    let p = period_ns as int;
    let n = samples_in(seconds, period_ns);
    vstd::arithmetic::div_mod::lemma_fundamental_div_mod(t + p - 1, p);
    assert(n * p >= t && (n - 1) * p < t) by (nonlinear_arith)
        requires
            t + p - 1 == p * n + (t + p - 1) % p,
            0 <= (t + p - 1) % p < p,
    ;
}

} // verus!
