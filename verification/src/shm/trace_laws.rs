//! What readers of the trace ring can rely on.
use vstd::arithmetic::div_mod::{lemma_mod_equivalence, lemma_small_mod};
use vstd::prelude::*;

use crate::shm::trace::{
    capacity_for, clean_from, header_in, initialised, lemma_partly_pushed, lemma_push_completes,
    lemma_slot_bounds, new_header, partly_pushed, power_of_two, push_access, pushed, range_of,
    ring_check, sample_counts_cover_the_span, sample_held, sample_word, sample_words,
    sample_words_determine, samples_in, segment_size, slot_start, torn_count, trace_header_word,
    window_of, TraceRange, TraceReadError, TraceReader, TraceSample, TraceWriter, PLC_TRACE_MAGIC,
    PLC_TRACE_VERSION,
};
use crate::shm::words::{half_of, high_half, low_half, signed_bits, word_of};

verus! {

broadcast use crate::shm::words::group_words;

/// A fresh ring is one that readers accept, under the header written.
pub proof fn new_rings_are_readable(
    mem: Seq<u64>,
    capacity: u32,
    period_ns: u64,
    epoch_unix_ns: u64,
)
    requires
        power_of_two(capacity as int),
        mem.len() >= 8 + 32 * capacity,
    ensures
        ({
            let h = new_header(capacity, period_ns, epoch_unix_ns);
            let ring = initialised(mem, capacity, h);
            &&& ring_check(ring) is Ok
            &&& header_in(ring).capacity == capacity
            &&& header_in(ring).period_ns == period_ns
            &&& header_in(ring).epoch_unix_ns == epoch_unix_ns
            &&& header_in(ring).write_idx == 0
        }),
{
    let h = new_header(capacity, period_ns, epoch_unix_ns);
    let ring = initialised(mem, capacity, h);
    assert(ring[0] == trace_header_word(h, 0));
    assert(ring[1] == trace_header_word(h, 1));
    assert(low_half(ring[0]) == PLC_TRACE_MAGIC);
    assert(high_half(ring[0]) == half_of(PLC_TRACE_VERSION, 0));
    assert(low_half(ring[1]) == 256 && high_half(ring[1]) == capacity);
}

/// The ring after the first `p` pushes.
pub open spec fn ring_after(mem: Seq<u64>, capacity: int, images: Seq<Seq<u64>>, p: int) -> Seq<u64>
    decreases p,
{
    if p <= 0 {
        mem
    } else {
        pushed(ring_after(mem, capacity, images, p - 1), capacity, p - 1, images[p - 1])
    }
}

/// The ring after the first `t` stores of a writer that pushes the images one
/// after another.
pub open spec fn ring_at(mem: Seq<u64>, capacity: int, images: Seq<Seq<u64>>, t: int) -> Seq<u64> {
    let p = t / 33;
    let base = ring_after(mem, capacity, images, p);
    if p >= images.len() {
        base
    } else {
        partly_pushed(base, capacity, p, images[p], t % 33)
    }
}

/// A fresh ring with room, and images of samples to push into it.
pub open spec fn ring_setup(mem: Seq<u64>, capacity: int, images: Seq<Seq<u64>>) -> bool {
    &&& capacity > 0
    &&& mem.len() >= 8 + 32 * capacity
    &&& mem[4] == 0
    &&& images.len() < u64::MAX
    &&& forall|p: int| 0 <= p < images.len() ==> (#[trigger] images[p]).len() == 32
}

/// The writer's memory moves by one store at a time, each the next of the push
/// in progress.
pub proof fn ring_moves_by_single_stores(
    mem: Seq<u64>,
    capacity: int,
    images: Seq<Seq<u64>>,
    t: int,
)
    requires
        ring_setup(mem, capacity, images),
        0 <= t < 33 * images.len(),
    ensures
        ({
            let p = t / 33;
            let (index, value) = push_access(capacity, p, images[p], t % 33);
            ring_at(mem, capacity, images, t + 1) == ring_at(mem, capacity, images, t).update(
                index,
                value,
            )
        }),
{
    let p = t / 33;
    let r = t % 33;
    let base = ring_after(mem, capacity, images, p);
    lemma_ring_after(mem, capacity, images, p);
    assert(images[p].len() == 32);
    if r == 32 {
        assert((t + 1) / 33 == p + 1 && (t + 1) % 33 == 0);
        lemma_push_completes(base, capacity, p, images[p]);
        assert(ring_after(mem, capacity, images, p + 1) == pushed(base, capacity, p, images[p]));
        let next = ring_after(mem, capacity, images, p + 1);
        if p + 1 < images.len() {
            assert(partly_pushed(next, capacity, p + 1, images[p + 1], 0) == next);
        }
        assert(partly_pushed(base, capacity, p, images[p], 33) == ring_at(
            mem,
            capacity,
            images,
            t + 1,
        ));
    } else {
        assert((t + 1) / 33 == p && (t + 1) % 33 == r + 1);
    }
}

/// `write_idx` counts the pushes.
proof fn lemma_ring_after(mem: Seq<u64>, capacity: int, images: Seq<Seq<u64>>, p: int)
    requires
        ring_setup(mem, capacity, images),
        0 <= p <= images.len(),
    ensures
        ring_after(mem, capacity, images, p).len() == mem.len(),
        ring_after(mem, capacity, images, p)[4] == p,
    decreases p,
{
    if p > 0 {
        lemma_ring_after(mem, capacity, images, p - 1);
    }
}

/// Two samples less than a lap apart have different slots.
proof fn lemma_slots_apart(capacity: int, i: int, p: int)
    requires
        capacity > 0,
        0 <= i < p < i + capacity,
    ensures
        slot_start(capacity, i) + 32 <= slot_start(capacity, p) || slot_start(capacity, p) + 32
            <= slot_start(capacity, i),
{
    lemma_mod_equivalence(p, i, capacity);
    lemma_small_mod((p - i) as nat, capacity as nat);
    let a = i % capacity;
    let b = p % capacity;
    assert(a != b);
}

/// A pushed sample stays in its slot for a whole lap.
proof fn lemma_slot_kept(
    mem: Seq<u64>,
    capacity: int,
    images: Seq<Seq<u64>>,
    i: int,
    p: int,
    w: int,
)
    requires
        ring_setup(mem, capacity, images),
        0 <= i < p <= i + capacity,
        p <= images.len(),
        0 <= w < 32,
    ensures
        ring_after(mem, capacity, images, p)[slot_start(capacity, i) + w] == images[i][w],
    decreases p,
{
    lemma_slot_bounds(capacity, i);
    lemma_ring_after(mem, capacity, images, p - 1);
    lemma_slot_bounds(capacity, p - 1);
    if p > i + 1 {
        lemma_slot_kept(mem, capacity, images, i, p - 1, w);
        lemma_slots_apart(capacity, i, p - 1);
    }
}

/// What was pushed is read back: while no later sample has taken its slot, the
/// ring holds as sample `i` the sample that was pushed as number `i`.
pub proof fn pushed_samples_read_back(
    mem: Seq<u64>,
    capacity: int,
    images: Seq<Seq<u64>>,
    i: int,
    source: TraceSample,
    read: TraceSample,
)
    requires
        ring_setup(mem, capacity, images),
        0 <= i < images.len() <= i + capacity,
        images[i] == sample_words(source),
        sample_held(ring_after(mem, capacity, images, images.len() as int), capacity, i, read),
    ensures
        read == source,
{
    assert forall|w: int| 0 <= w < 32 implies sample_word(read, w) == sample_word(source, w) by {
        lemma_slot_kept(mem, capacity, images, i, images.len() as int, w);
        let at = slot_start(capacity, i) + w;
        assert(sample_word(read, w) == ring_after(
            mem,
            capacity,
            images,
            images.len() as int,
        )[at]);
        assert(sample_words(source)[w] == sample_word(source, w));
    }
    sample_words_determine(read, source);
}

/// No torn samples. A writer pushes any samples one after another while a
/// reader loads `write_idx` at time `t1`, the words of samples at times from
/// then on, and `write_idx` again at `t2`. Every word of a sample that the lap
/// check keeps is the word that was pushed, whenever in between it was loaded.
/// Stores take effect in the order in which they are made.
pub proof fn surviving_samples_are_whole(
    mem: Seq<u64>,
    capacity: u32,
    images: Seq<Seq<u64>>,
    t1: int,
    t2: int,
    since: u64,
    max: usize,
    i: int,
    w: int,
    t: int,
)
    requires
        ring_setup(mem, capacity as int, images),
        0 <= t1 <= t <= t2 <= 33 * images.len(),
        0 <= w < 32,
        ({
            let w1 = ring_at(mem, capacity as int, images, t1)[4];
            let w2 = ring_at(mem, capacity as int, images, t2)[4];
            let window = window_of(w1, capacity, since, max);
            clean_from(window, w2, capacity) <= i < window.end
        }),
    ensures
        0 <= i < images.len(),
        ring_at(mem, capacity as int, images, t)[slot_start(capacity as int, i) + w] == images[i][w],
{
    let cap = capacity as int;
    lemma_index_at(mem, cap, images, t1);
    lemma_index_at(mem, cap, images, t2);
    lemma_index_at(mem, cap, images, t);
    let p = t / 33;
    assert(t1 / 33 <= p <= t2 / 33);
    assert(i < t1 / 33);
    assert(t2 / 33 < i + cap);
    lemma_slot_kept(mem, cap, images, i, p, w);
    lemma_slot_bounds(cap, i);
    if p < images.len() {
        let base = ring_after(mem, cap, images, p);
        lemma_ring_after(mem, cap, images, p);
        assert(images[p].len() == 32);
        lemma_partly_pushed(base, cap, p, images[p], t % 33);
        lemma_slots_apart(cap, i, p);
    }
}

/// `write_idx` at any time is the number of whole pushes.
proof fn lemma_index_at(mem: Seq<u64>, capacity: int, images: Seq<Seq<u64>>, t: int)
    requires
        ring_setup(mem, capacity, images),
        0 <= t <= 33 * images.len(),
    ensures
        ring_at(mem, capacity, images, t)[4] == t / 33,
        0 <= t / 33 <= images.len(),
{
    let p = t / 33;
    lemma_ring_after(mem, capacity, images, p);
    if p < images.len() {
        let base = ring_after(mem, capacity, images, p);
        assert(images[p].len() == 32);
        lemma_slot_bounds(capacity, p);
        lemma_partly_pushed(base, capacity, p, images[p], t % 33);
    }
}

/// Continuing where the last read ended leaves no gap: every sample from
/// `since` up to `next` was returned or counted as dropped, an empty read
/// included. Each is counted once, unless the writer lapped the whole window
/// while it was copied; then nothing is returned, and the count also covers the
/// samples from `next` up to `first`, which are overwritten already.
pub proof fn reads_account_for_every_sample(
    before: u64,
    after: u64,
    capacity: u32,
    since: u64,
    max: usize,
)
    requires
        capacity > 0,
        before <= after < u64::MAX,
    ensures
        ({
            let window = window_of(before, capacity, since, max);
            let r = range_of(window, before, after, capacity, since);
            let returned = if window.start < window.end {
                window.end - window.start - torn_count(window, after, capacity)
            } else {
                0
            };
            let outrun = window.start < window.end < clean_from(window, after, capacity);
            &&& 0 <= returned <= max
            &&& since <= r.next
            &&& returned > 0 ==> r.first == since + r.dropped && r.next == r.first + returned
            &&& !outrun ==> r.dropped + returned == r.next - since
            &&& outrun ==> returned == 0 && r.next < r.first && r.dropped == r.first - since
        }),
{
}

/// A read of at most no samples consumes nothing that the ring still holds: it
/// leaves the reader where it stands, or at the oldest live sample when the ring
/// has overwritten the ones before that.
pub proof fn empty_reads_skip_nothing(written: u64, capacity: u32, since: u64)
    requires
        capacity > 0,
    ensures
        ({
            let r = range_of(
                window_of(written, capacity, since, 0),
                written,
                written,
                capacity,
                since,
            );
            &&& since + capacity >= written ==> r.next == since && r.dropped == 0
            &&& since + capacity < written ==> r.next == written - capacity && r.dropped == written
                - capacity - since
        }),
{
}

/// After a read whose whole window the writer lapped, the next one starts at
/// `next` all the same: it returns nothing before `first`, and counts the
/// samples from `next` up to `first` as dropped a second time.
pub proof fn a_lapped_window_is_counted_again(
    before: u64,
    after: u64,
    capacity: u32,
    since: u64,
    max: usize,
    later_before: u64,
    later_after: u64,
    later_max: usize,
)
    requires
        capacity > 0,
        before <= after <= later_before <= later_after < u64::MAX,
        ({
            let window = window_of(before, capacity, since, max);
            window.start < window.end < clean_from(window, after, capacity)
        }),
    ensures
        ({
            let r = range_of(
                window_of(before, capacity, since, max),
                before,
                after,
                capacity,
                since,
            );
            let window = window_of(later_before, capacity, r.next, later_max);
            let later = range_of(window, later_before, later_after, capacity, r.next);
            window.start < window.end ==> later.first >= r.first && later.dropped >= r.first
                - r.next
        }),
{
}

/// A read returns every sample that was asked for and is surely whole: from
/// `since` on, up to `max` of them counted from the oldest live one, all but
/// those that the writer has reached. They come in order, and none else comes.
pub proof fn reads_return_what_is_whole(
    written: u64,
    capacity: u32,
    since: u64,
    max: usize,
    i: int,
)
    requires
        capacity > 0,
        written < u64::MAX,
    ensures
        ({
            let window = window_of(written, capacity, since, max);
            let oldest: int = if written > capacity {
                written - capacity
            } else {
                0
            };
            let start: int = if since > oldest {
                since as int
            } else {
                oldest
            };
            let first = window.start + torn_count(window, written, capacity);
            let returned = window.start < window.end && first <= i < window.end;
            returned <==> start <= i < start + max && i < written && i + capacity > written
        }),
{
}

/// A push stores the words of the sample in its slot, 32 words each from word 8
/// on, wrapping round with the capacity, counts it in word 4, and touches nothing
/// else.
pub proof fn pushes_fill_their_slot(
    mem: Seq<u64>,
    capacity: int,
    i: int,
    image: Seq<u64>,
    at: int,
)
    requires
        capacity > 0,
        mem.len() >= 8 + 32 * capacity,
        image.len() == 32,
        0 <= i < u64::MAX,
        0 <= at < mem.len(),
    ensures
        ({
            let after = pushed(mem, capacity, i, image);
            let slot = 8 + 32 * (i % capacity);
            &&& after.len() == mem.len()
            &&& at == 4 ==> after[at] == i + 1
            &&& slot <= at < slot + 32 ==> after[at] == image[at - slot]
            &&& at != 4 && !(slot <= at < slot + 32) ==> after[at] == mem[at]
        }),
{
    lemma_slot_bounds(capacity, i);
}

/// Where the fields of a sample stand, in words: number and time first, then
/// period and exchange time, then bus state, status bits and run state, then
/// seven words for each axis.
pub proof fn sample_fields_have_their_places(s: TraceSample, k: int)
    requires
        0 <= k < 4,
    ensures
        ({
            let a = s.axes[k];
            let at = 4 + 7 * k;
            &&& sample_word(s, 0) == s.cycle
            &&& sample_word(s, 1) == s.t_mono_ns
            &&& sample_word(s, 2) == s.period_ns + s.exchange_ns * 0x1_0000_0000
            &&& sample_word(s, 3) == s.bus_state + s.status_bits * 0x100 + s._pad * 0x1_0000
                + s.run_state * 0x1_0000_0000
            &&& sample_word(s, at) == a.act_pos.bits
            &&& sample_word(s, at + 1) == a.act_vel.bits
            &&& sample_word(s, at + 2) == a.set_pos.bits
            &&& sample_word(s, at + 3) == a.set_vel.bits
            &&& sample_word(s, at + 4) == word_of(signed_bits(a.step), a.flags)
            &&& sample_word(s, at + 5) == word_of(signed_bits(a.error_id), a.fault_code)
            &&& sample_word(s, at + 6) == a.drive_status + a.io_bits * 0x1_0000_0000
        }),
{
    assert((4 + 7 * k - 4) / 7 == k && (4 + 7 * k - 4) % 7 == 0);
    assert((4 + 7 * k + 1 - 4) / 7 == k && (4 + 7 * k + 1 - 4) % 7 == 1);
    assert((4 + 7 * k + 2 - 4) / 7 == k && (4 + 7 * k + 2 - 4) % 7 == 2);
    assert((4 + 7 * k + 3 - 4) / 7 == k && (4 + 7 * k + 3 - 4) % 7 == 3);
    assert((4 + 7 * k + 4 - 4) / 7 == k && (4 + 7 * k + 4 - 4) % 7 == 4);
    assert((4 + 7 * k + 5 - 4) / 7 == k && (4 + 7 * k + 5 - 4) % 7 == 5);
    assert((4 + 7 * k + 6 - 4) / 7 == k && (4 + 7 * k + 6 - 4) % 7 == 6);
}

/// A segment is a ring that can be read when its first words hold the magic
/// number, the version, the size of a sample and a capacity that is a power of
/// two and fits; what is wrong is told in that order.
pub proof fn rings_are_known_by_their_header(mem: Seq<u64>)
    requires
        mem.len() >= 8,
    ensures
        ({
            let magic = mem[0] % 0x1_0000_0000;
            let version = (mem[0] / 0x1_0000_0000) % 0x1_0000;
            let size = mem[1] % 0x1_0000_0000;
            let capacity = mem[1] / 0x1_0000_0000;
            let fits = size == 256 && power_of_two(capacity as int) && mem.len() >= 8 + 32
                * capacity;
            &&& magic != 0x504C_4354 ==> ring_check(mem) == Err::<(), TraceReadError>(
                TraceReadError::MagicMismatch,
            )
            &&& magic == 0x504C_4354 && version != 1 ==> ring_check(mem) == Err::<
                (),
                TraceReadError,
            >(TraceReadError::VersionMismatch)
            &&& magic == 0x504C_4354 && version == 1 && !fits ==> ring_check(mem) == Err::<
                (),
                TraceReadError,
            >(TraceReadError::Geometry)
            &&& magic == 0x504C_4354 && version == 1 && fits ==> ring_check(mem) is Ok
            &&& header_in(mem).capacity == capacity
            &&& header_in(mem).period_ns == mem[2]
            &&& header_in(mem).epoch_unix_ns == mem[3]
            &&& header_in(mem).write_idx == mem[4]
        }),
{
}

/// A reader of a whole ring returns the samples from `first` up to `next`, each
/// as its slot holds it, word by word.
pub proof fn readers_copy_the_slots(
    reader: &TraceReader,
    since: u64,
    max: usize,
    out: &mut Vec<TraceSample>,
    r: TraceRange,
    j: int,
    w: int,
)
    requires
        reader.valid(),
        reader.memory()[4] < u64::MAX,
        call_ensures(TraceReader::read_range, (reader, since, max, out), r),
        0 <= j < final(out)@.len(),
        0 <= w < 32,
    ensures
        final(out)@.len() == r.next - r.first,
        r.first == since + r.dropped,
        sample_word(final(out)@[j], w) == reader.memory()[8 + 32 * ((r.first + j)
            % reader.ring() as int) + w],
{
    let written = reader.memory()[4];
    let window = window_of(written, reader.ring(), since, max);
    let torn = torn_count(window, written, reader.ring());
    assert(sample_held(
        reader.memory(),
        reader.ring() as int,
        window.start + torn + j,
        final(out)@[j],
    ));
    assert(window.start + torn == r.first);
    lemma_slot_bounds(reader.ring() as int, r.first + j);
    let at = slot_start(reader.ring() as int, r.first + j) + w;
    assert(sample_word(final(out)@[j], w) == reader.memory()[at]);
}

/// A writer counts what it pushes, and stores each sample where the ring then
/// stands.
pub proof fn writers_push_in_order(writer: &mut TraceWriter, s: &TraceSample)
    requires
        call_ensures(TraceWriter::push, (writer, s), ()),
    ensures
        final(writer).written() == old(writer).written() + 1,
        final(writer).capacity() == old(writer).capacity(),
        final(writer).memory() == pushed(
            old(writer).memory(),
            old(writer).capacity() as int,
            old(writer).written() as int,
            sample_words(*s),
        ),
{
}

/// A ring for a span of time is the smallest power of two that covers it, as far
/// as one does; its segment is a header of 64 bytes and 256 for each sample.
pub proof fn rings_cover_their_span(seconds: u64, period_ns: u64, capacity: u32, size: usize)
    requires
        seconds >= 1,
        period_ns >= 1,
        call_ensures(capacity_for, (seconds, period_ns), capacity),
        call_ensures(segment_size, (capacity,), size),
    ensures
        power_of_two(capacity as int),
        capacity < 0x8000_0000 ==> capacity * period_ns >= seconds * 1_000_000_000,
        capacity > 1 ==> (capacity / 2 - 1) * period_ns < seconds * 1_000_000_000,
        size == 64 + 256 * capacity,
{
    sample_counts_cover_the_span(seconds, period_ns);
    let n = samples_in(seconds, period_ns);
    let c = capacity as int;
    let p = period_ns as int;
    if c < 0x8000_0000 {
        assert(c * p >= n * p) by (nonlinear_arith)
            requires
                c >= n,
                p >= 1,
        ;
    }
    if c > 1 {
        assert((c / 2 - 1) * p <= (n - 1) * p) by (nonlinear_arith)
            requires
                c / 2 <= n,
                p >= 1,
        ;
    }
}

} // verus!
