//! What readers and writers of a segment can rely on.
use vstd::arithmetic::div_mod::{lemma_fundamental_div_mod, lemma_fundamental_div_mod_converse};
use vstd::prelude::*;

use crate::shm::layout::{header_word, words_of, Header, Segment};
use crate::shm::seqlock::{
    after_reset, applied, check_words, in_progress, lemma_partly_written, lemma_write_completes,
    partly_written, payload_index, published, read_step, reset_in_progress, script_action,
    script_len, seq_in, seq_plus, snapshot_words, ReadAction, ReadError, ReadModel,
    SEQLOCK_MAX_RETRIES,
};
use crate::shm::words::{half_of, high_half, low_half, word_of};

verus! {

broadcast use crate::shm::words::group_words;

/// The value that a reader finds after `src` was published: `src` under the
/// segment's own `seq`, its header padding zero.
pub open spec fn as_read<T: Segment>(src: T, seq: u32) -> T {
    src.under_header(Header { seq, _pad: 0, ..src.header_value() })
}

/// A write always marks itself with an odd `seq` and ends on the even value
/// after it, even where a writer died in the middle and left `seq` odd.
pub proof fn writes_are_marked_odd_and_end_even(seq: u32)
    ensures
        in_progress(seq) % 2 == 1,
        seq_plus(in_progress(seq), 1) % 2 == 0,
        seq_plus(in_progress(seq), 1) != seq,
        reset_in_progress(seq) % 2 == 1,
        seq_plus(reset_in_progress(seq), 1) % 2 == 0,
        seq_plus(reset_in_progress(seq), 1) != seq,
{
}

/// A read gives back what a write wrote: a snapshot after publishing `src`
/// succeeds, with `src` under the new `seq`, whatever `seq` stood in `src`.
pub proof fn snapshot_gives_back_what_was_published<T: Segment>(mem: Seq<u64>, src: T, dst: T)
    requires
        mem.len() >= T::size_in_words(),
        src.header_value().magic == T::magic_number(),
        src.header_value().version == T::layout_version(),
        words_of(dst) == snapshot_words(published(mem, words_of(src)), T::size_in_words()),
    ensures
        seq_in(published(mem, words_of(src))) % 2 == 0,
        check_words(
            snapshot_words(published(mem, words_of(src)), T::size_in_words()),
            T::magic_number(),
            T::layout_version(),
        ) == Ok::<(), ReadError>(()),
        dst == as_read(src, seq_plus(in_progress(seq_in(mem)), 1)),
{
    let new = published(mem, words_of(src));
    let seq = seq_plus(in_progress(seq_in(mem)), 1);
    src.lemma_header_first();
    writes_are_marked_odd_and_end_even(seq_in(mem));
    let h = src.header_value();
    let words = snapshot_words(new, T::size_in_words());
    assert(words[0] == header_word(h, 0));
    assert(high_half(words[0]) == half_of(h.version, h.flags));
    let expected = as_read(src, seq);
    src.lemma_under_header(Header { seq, _pad: 0, ..h });
    expected.lemma_header_first();
    assert forall|i: int| 0 <= i < T::size_in_words() implies dst.word_value(i)
        == expected.word_value(i) by {
        assert(words_of(dst)[i] == words[i]);
        if i < 3 {
            assert(expected.word_value(i) == header_word(expected.header_value(), i));
            assert(src.word_value(i) == header_word(h, i));
        } else {
            assert(expected.word_value(i) == src.word_value(i));
        }
    }
    T::lemma_words_determine(dst, expected);
}

/// After a reset a snapshot finds no writer and a blank payload, and `seq` has
/// moved, so that a read under way fails its check.
pub proof fn reset_leaves_no_writer<T: Segment>(mem: Seq<u64>, dst: T)
    requires
        mem.len() >= T::size_in_words(),
        T::magic_number() != 0,
        words_of(dst) == snapshot_words(after_reset(mem, T::size_in_words()), T::size_in_words()),
    ensures
        ({
            let new = after_reset(mem, T::size_in_words());
            let words = snapshot_words(new, T::size_in_words());
            &&& seq_in(new) % 2 == 0
            &&& seq_in(new) != seq_in(mem)
            &&& check_words(words, T::magic_number(), T::layout_version()) == Err::<(), ReadError>(
                ReadError::MagicMismatch,
            )
            &&& dst == as_read(T::blank_value(), seq_in(new))
        }),
{
    let new = after_reset(mem, T::size_in_words());
    let words = snapshot_words(new, T::size_in_words());
    let blank = T::blank_value();
    writes_are_marked_odd_and_end_even(seq_in(mem));
    blank.lemma_header_first();
    assert(low_half(0u64) == 0);
    let h = blank.header_value();
    let expected = as_read(blank, seq_in(new));
    blank.lemma_under_header(Header { seq: seq_in(new), _pad: 0, ..h });
    expected.lemma_header_first();
    assert forall|i: int| 0 <= i < T::size_in_words() implies dst.word_value(i)
        == expected.word_value(i) by {
        assert(words_of(dst)[i] == words[i]);
        T::lemma_blank(i);
        if i < 3 {
            assert(expected.word_value(i) == header_word(expected.header_value(), i));
            assert(blank.word_value(i) == header_word(h, i));
        } else {
            assert(expected.word_value(i) == blank.word_value(i));
        }
    }
    T::lemma_words_determine(dst, expected);
}

/// Publishing from an even `seq` adds two: `seq` counts the writes.
pub proof fn publishing_adds_two(mem: Seq<u64>, image: Seq<u64>)
    requires
        mem.len() >= 2,
        seq_in(mem) % 2 == 0,
    ensures
        seq_in(published(mem, image)) == seq_plus(seq_in(mem), 2),
{
}

/// A reset of a segment at rest is a publish of zeroed words.
pub proof fn reset_is_publishing_blank(mem: Seq<u64>, n: nat)
    requires
        mem.len() >= 2,
        seq_in(mem) % 2 == 0,
    ensures
        after_reset(mem, n) == published(mem, Seq::new(n, |i: int| 0u64)),
{
}

/// The running attempt of a reader began with an even `seq`.
pub open spec fn began_even(m: ReadModel) -> bool {
    m.action is LoadWord || m.action is ReloadSeq ==> m.first % 2 == 0
}

/// A reader finishes with a copy only after two loads of the same even `seq`
/// round it: every attempt begins with an even value and is accepted only if
/// the second load repeats it. All other attempts end in another try, or in
/// `Busy` after the last one.
pub proof fn accepted_reads_saw_one_even_seq(m: ReadModel, value: u64, magic: u32, version: u16)
    requires
        began_even(m),
    ensures
        began_even(read_step(m, value, magic, version)),
        !(m.action is Finish) ==> (match read_step(m, value, magic, version).action {
            ReadAction::Finish { outcome } => if m.action is ReloadSeq && low_half(value)
                == m.first {
                outcome != Err::<(), ReadError>(ReadError::Busy) && m.first % 2 == 0
            } else {
                outcome == Err::<(), ReadError>(ReadError::Busy) && m.failed + 1
                    >= SEQLOCK_MAX_RETRIES
            },
            _ => true,
        }),
{
}

/// The segment at rest after the first `p` of a sequence of writes.
pub open spec fn rested(mem: Seq<u64>, images: Seq<Seq<u64>>, p: int) -> Seq<u64>
    decreases p,
{
    if p <= 0 {
        mem
    } else {
        published(rested(mem, images, p - 1), images[p - 1])
    }
}

/// The memory after the first `t` accesses of a writer that publishes the
/// images one after another, each of `n` words.
pub open spec fn memory_at(mem: Seq<u64>, images: Seq<Seq<u64>>, n: int, t: int) -> Seq<u64> {
    let p = t / script_len(n);
    let base = rested(mem, images, p);
    if p >= images.len() {
        base
    } else {
        partly_written(base, images[p], in_progress(seq_in(base)), t % script_len(n))
    }
}

/// The writer's memory moves by one access at a time, each the next of the
/// script of the write in progress.
pub proof fn memory_moves_by_single_accesses(
    mem: Seq<u64>,
    images: Seq<Seq<u64>>,
    n: int,
    t: int,
)
    requires
        2 <= n <= 0x1000,
        n <= mem.len(),
        forall|p: int| 0 <= p < images.len() ==> (#[trigger] images[p]).len() == n,
        0 <= t < images.len() * script_len(n),
    ensures
        ({
            let p = t / script_len(n);
            let mark = in_progress(seq_in(rested(mem, images, p)));
            &&& 0 <= p < images.len()
            &&& memory_at(mem, images, n, t + 1) == applied(
                memory_at(mem, images, n, t),
                script_action(images[p], mark, t % script_len(n)),
            )
        }),
{
    let len = script_len(n);
    let p = t / len;
    let r = t % len;
    lemma_fundamental_div_mod(t, len);
    assert(p < images.len()) by (nonlinear_arith)
        requires
            t == len * p + r,
            0 <= r,
            t < images.len() * len,
            len > 0,
    ;
    assert(p >= 0) by (nonlinear_arith)
        requires
            t == len * p + r,
            0 <= r < len,
            t >= 0,
    ;
    let base = rested(mem, images, p);
    let mark = in_progress(seq_in(base));
    lemma_rested(mem, images, n, p);
    assert(images[p].len() == n);
    if r + 1 < len {
        lemma_fundamental_div_mod_converse(t + 1, len, p, r + 1);
        assert(partly_written(base, images[p], mark, r + 1) == applied(
            partly_written(base, images[p], mark, r),
            script_action(images[p], mark, r),
        ));
    } else {
        assert(t + 1 == len * (p + 1)) by (nonlinear_arith)
            requires
                t == len * p + r,
                r + 1 == len,
        ;
        lemma_fundamental_div_mod_converse(t + 1, len, p + 1, 0);
        lemma_write_completes(base, images[p], mark);
        assert(rested(mem, images, p + 1) == published(base, images[p]));
        let next = rested(mem, images, p + 1);
        if p + 1 < images.len() {
            assert(partly_written(next, images[p + 1], in_progress(seq_in(next)), 0) == next);
        }
        assert(partly_written(base, images[p], mark, len) == applied(
            partly_written(base, images[p], mark, r),
            script_action(images[p], mark, r),
        ));
    }
}

/// At rest after `p` writes, `seq` is `2 * p` past the first even value.
proof fn lemma_rested(mem: Seq<u64>, images: Seq<Seq<u64>>, n: int, p: int)
    requires
        2 <= n <= mem.len(),
        0 <= p <= images.len(),
    ensures
        rested(mem, images, p).len() == mem.len(),
        p > 0 ==> seq_in(rested(mem, images, p)) == seq_plus(
            seq_in(mem),
            seq_in(mem) % 2 + 2 * p,
        ),
    decreases p,
{
    if p > 0 {
        let base = rested(mem, images, p - 1);
        lemma_rested(mem, images, n, p - 1);
        let s = seq_in(mem);
        let new = rested(mem, images, p);
        assert(new[1] == word_of(seq_plus(in_progress(seq_in(base)), 1), high_half(base[1])));
        if p == 1 {
            lemma_even_steps(s, 0);
        } else {
            lemma_even_steps(s, p - 1);
        }
    }
}

/// One write moves `seq` to the next even value.
proof fn lemma_even_steps(s: u32, q: int)
    requires
        0 <= q,
    ensures
        q == 0 ==> seq_plus(in_progress(s), 1) == seq_plus(s, s % 2 + 2),
        seq_plus(in_progress(seq_plus(s, s % 2 + 2 * q)), 1) == seq_plus(s, s % 2 + 2 * (q + 1)),
{
    let b = seq_plus(s, s % 2 + 2 * q);
    assert(b % 2 == 0);
    assert(in_progress(b) == b + 1);
}

/// `seq` tells where the writer is: at rest after `p` writes it is `2 * p` past
/// the first even value, and in a write it is odd.
proof fn lemma_seq_at(mem: Seq<u64>, images: Seq<Seq<u64>>, n: int, t: int)
    requires
        2 <= n <= 0x1000,
        n <= mem.len(),
        forall|p: int| 0 <= p < images.len() ==> (#[trigger] images[p]).len() == n,
        0 <= t <= images.len() * script_len(n),
    ensures
        ({
            let p = t / script_len(n);
            let r = t % script_len(n);
            let s = seq_in(mem);
            let now = seq_in(memory_at(mem, images, n, t));
            &&& 0 <= p <= images.len()
            &&& t == script_len(n) * p + r
            &&& 0 <= r < script_len(n)
            &&& p == images.len() ==> r == 0
            &&& r == 0 ==> memory_at(mem, images, n, t) == rested(mem, images, p)
            &&& r == 0 && p > 0 ==> now == seq_plus(s, s % 2 + 2 * p)
            &&& r == 0 && p == 0 ==> now == s
            &&& r > 0 ==> now % 2 == 1
        }),
{
    let len = script_len(n);
    let p = t / len;
    let r = t % len;
    lemma_fundamental_div_mod(t, len);
    assert(0 <= p <= images.len()) by (nonlinear_arith)
        requires
            t == len * p + r,
            0 <= r < len,
            0 <= t <= images.len() * len,
    ;
    if p == images.len() {
        assert(r == 0) by (nonlinear_arith)
            requires
                t == len * p + r,
                0 <= r,
                t <= images.len() * len,
                p == images.len(),
        ;
    }
    lemma_rested(mem, images, n, p);
    if r > 0 {
        let base = rested(mem, images, p);
        assert(images[p].len() == n);
        lemma_partly_written(base, images[p], in_progress(seq_in(base)), r);
        writes_are_marked_odd_and_end_even(seq_in(base));
    }
}

/// Fewer than 2^31 writes apart, the even values of `seq` are all different.
proof fn lemma_even_values_differ(s: u32, p: int, q: int)
    requires
        0 <= p <= q < 0x8000_0000,
        p == 0 ==> s % 2 == 0,
        seq_plus(s, s % 2 + 2 * p) == seq_plus(s, s % 2 + 2 * q),
    ensures
        p == q,
{
    let a = s + s % 2 + 2 * p;
    let d = 2 * (q - p);
    assert(a % 0x1_0000_0000 == (a + d) % 0x1_0000_0000);
    assert(0 <= d < 0x1_0000_0000);
}

/// The words loaded at the times `when` are those of the segment at rest after
/// `p` writes.
pub open spec fn loaded_at_rest(
    mem: Seq<u64>,
    images: Seq<Seq<u64>>,
    n: int,
    when: spec_fn(int) -> int,
    p: int,
) -> bool {
    &&& 0 <= p <= images.len()
    &&& forall|i: int|
        0 <= i < n ==> memory_at(mem, images, n, #[trigger] when(i))[i] == rested(mem, images, p)[i]
}

/// Two loads of the same even `seq` find the segment at rest, after the same
/// write and with no access of the writer between them.
proof fn lemma_quiet(mem: Seq<u64>, images: Seq<Seq<u64>>, n: int, t0: int, t1: int) -> (p: int)
    requires
        2 <= n <= 0x1000,
        n <= mem.len(),
        images.len() < 0x8000_0000,
        forall|p: int| 0 <= p < images.len() ==> (#[trigger] images[p]).len() == n,
        0 <= t0 <= t1 <= images.len() * script_len(n),
        seq_in(memory_at(mem, images, n, t0)) % 2 == 0,
        seq_in(memory_at(mem, images, n, t0)) == seq_in(memory_at(mem, images, n, t1)),
    ensures
        t0 == t1,
        0 <= p <= images.len(),
        memory_at(mem, images, n, t0) == rested(mem, images, p),
{
    lemma_seq_at(mem, images, n, t0);
    lemma_seq_at(mem, images, n, t1);
    let len = script_len(n);
    let p0 = t0 / len;
    let p1 = t1 / len;
    assert(t0 % len == 0 && t1 % len == 0);
    assert(p0 <= p1) by (nonlinear_arith)
        requires
            len > 0,
            t0 == len * p0,
            t1 == len * p1,
            t0 <= t1,
    ;
    lemma_even_values_differ(seq_in(mem), p0, p1);
    p0
}

/// No torn reads. A writer publishes any images one after another while a
/// reader loads `seq` at time `t0`, each payload word `i` at some time
/// `when(i)` after it, and `seq` again at `t1` after them all. If both loads of
/// `seq` give the same even value, the words loaded are those of the segment at
/// rest between two writes: one published image, never parts of two. The
/// writer makes fewer than 2^31 writes meanwhile, so that `seq` does not come
/// round to the same value. Accesses take effect in the order in which they are
/// made.
pub proof fn snapshots_are_never_torn(
    mem: Seq<u64>,
    images: Seq<Seq<u64>>,
    n: int,
    t0: int,
    t1: int,
    when: spec_fn(int) -> int,
)
    requires
        2 <= n <= 0x1000,
        n <= mem.len(),
        images.len() < 0x8000_0000,
        forall|p: int| 0 <= p < images.len() ==> (#[trigger] images[p]).len() == n,
        0 <= t0 <= t1 <= images.len() * script_len(n),
        forall|i: int| 0 <= i < n ==> t0 <= #[trigger] when(i) <= t1,
        seq_in(memory_at(mem, images, n, t0)) % 2 == 0,
        seq_in(memory_at(mem, images, n, t0)) == seq_in(memory_at(mem, images, n, t1)),
    ensures
        exists|p: int| #[trigger] loaded_at_rest(mem, images, n, when, p),
{
    let p = lemma_quiet(mem, images, n, t0, t1);
    assert forall|i: int| 0 <= i < n implies memory_at(mem, images, n, #[trigger] when(i))[i]
        == rested(mem, images, p)[i] by {
        assert(when(i) == t0);
    }
    assert(loaded_at_rest(mem, images, n, when, p));
}

/// A reader that was about to begin, after it loaded `seq` and then the first
/// `k` payload words, each word `i` as `load(i)`.
pub open spec fn attempted(
    m: ReadModel,
    seq: u64,
    load: spec_fn(int) -> u64,
    k: int,
    magic: u32,
    version: u16,
) -> ReadModel
    decreases k,
{
    if k <= 0 {
        read_step(m, seq, magic, version)
    } else {
        read_step(
            attempted(m, seq, load, k - 1, magic, version),
            load(payload_index(k - 1)),
            magic,
            version,
        )
    }
}

/// An attempt that began with an even `seq` asks for the payload words in turn
/// and keeps them.
proof fn lemma_attempt(
    m: ReadModel,
    seq: u64,
    load: spec_fn(int) -> u64,
    k: int,
    magic: u32,
    version: u16,
)
    requires
        m.action is LoadSeq,
        2 <= m.words.len() <= 0x1000,
        low_half(seq) % 2 == 0,
        0 <= k < m.words.len(),
    ensures
        ({
            let a = attempted(m, seq, load, k, magic, version);
            &&& a.words.len() == m.words.len()
            &&& a.first == low_half(seq)
            &&& a.action == if k == m.words.len() - 1 {
                ReadAction::ReloadSeq
            } else {
                ReadAction::LoadWord { index: payload_index(k) as usize }
            }
            &&& forall|j: int|
                0 <= j < k ==> a.words[#[trigger] payload_index(j)] == load(payload_index(j))
        }),
    decreases k,
{
    if k > 0 {
        lemma_attempt(m, seq, load, k - 1, magic, version);
    }
}

/// Reads give back writes, whatever a writer does meanwhile. A writer publishes
/// any images one after another while a reader makes an attempt: it loads `seq`
/// at time `t0` and finds it even (else the attempt is over), each payload word
/// `i` at some time `when(i)` after it, and `seq` again at `t1` after them all.
/// If the attempt is accepted, the reader holds exactly the segment as it rested
/// between two writes. The writer makes fewer than 2^31 writes meanwhile, and
/// accesses take effect in the order in which they are made.
pub proof fn accepted_reads_hold_one_image(
    mem: Seq<u64>,
    images: Seq<Seq<u64>>,
    t0: int,
    t1: int,
    when: spec_fn(int) -> int,
    m: ReadModel,
    magic: u32,
    version: u16,
) -> (p: int)
    requires
        2 <= m.words.len() <= 0x1000,
        m.words.len() <= mem.len(),
        m.action is LoadSeq,
        images.len() < 0x8000_0000,
        forall|p: int| 0 <= p < images.len() ==> (#[trigger] images[p]).len() == m.words.len(),
        0 <= t0 <= t1 <= images.len() * script_len(m.words.len() as int),
        forall|i: int| 0 <= i < m.words.len() ==> t0 <= #[trigger] when(i) <= t1,
        seq_in(memory_at(mem, images, m.words.len() as int, t0)) % 2 == 0,
        ({
            let n = m.words.len() as int;
            let tried = attempted(
                m,
                memory_at(mem, images, n, t0)[1],
                |i: int| memory_at(mem, images, n, when(i))[i],
                n - 1,
                magic,
                version,
            );
            read_step(tried, memory_at(mem, images, n, t1)[1], magic, version).action
                == (ReadAction::Finish { outcome: Ok(()) })
        }),
    ensures
        0 <= p <= images.len(),
        ({
            let n = m.words.len() as int;
            let tried = attempted(
                m,
                memory_at(mem, images, n, t0)[1],
                |i: int| memory_at(mem, images, n, when(i))[i],
                n - 1,
                magic,
                version,
            );
            read_step(tried, memory_at(mem, images, n, t1)[1], magic, version).words
                == snapshot_words(rested(mem, images, p), m.words.len())
        }),
{
    let n = m.words.len() as int;
    let seq0 = memory_at(mem, images, n, t0)[1];
    let seq1 = memory_at(mem, images, n, t1)[1];
    let load = |i: int| memory_at(mem, images, n, when(i))[i];
    lemma_attempt(m, seq0, load, n - 1, magic, version);
    let tried = attempted(m, seq0, load, n - 1, magic, version);
    let done = read_step(tried, seq1, magic, version);
    assert(low_half(seq1) == tried.first);
    let p = lemma_quiet(mem, images, n, t0, t1);
    let rest = rested(mem, images, p);
    lemma_rested_len(mem, images, p);
    assert forall|i: int| 0 <= i < n implies done.words[i] == snapshot_words(rest, n as nat)[i] by {
        if i != 1 {
            let j = if i == 0 {
                0
            } else {
                i - 1
            };
            assert(payload_index(j) == i);
            assert(when(i) == t0);
        }
    }
    assert(done.words =~= snapshot_words(rest, n as nat));
    p
}

/// At rest, the words of a segment other than the one with `seq` are those of
/// the last image published.
pub proof fn rest_holds_the_last_image(mem: Seq<u64>, images: Seq<Seq<u64>>, p: int, i: int)
    requires
        0 < p <= images.len(),
        images[p - 1].len() <= mem.len(),
        0 <= i < images[p - 1].len(),
        i != 1,
        forall|q: int| 0 <= q < images.len() ==> 2 <= (#[trigger] images[q]).len() <= mem.len(),
    ensures
        rested(mem, images, p)[i] == images[p - 1][i],
{
    lemma_rested_len(mem, images, p - 1);
}

proof fn lemma_rested_len(mem: Seq<u64>, images: Seq<Seq<u64>>, p: int)
    requires
        0 <= p <= images.len(),
    ensures
        rested(mem, images, p).len() == mem.len(),
    decreases p,
{
    if p > 0 {
        lemma_rested_len(mem, images, p - 1);
    }
}

/// A write ends on the next even `seq`: two on where the segment was at rest, and
/// past the mark of a writer that died, which a publish moves on and a reset
/// takes over.
pub proof fn writes_end_on_the_next_even_seq(mem: Seq<u64>, image: Seq<u64>, n: nat)
    requires
        mem.len() >= 2,
        seq_in(mem) < 0xFFFF_FFF0,
    ensures
        ({
            let seq = seq_in(mem);
            let odd = seq % 2 == 1;
            &&& seq_in(published(mem, image)) == seq + if odd {
                3int
            } else {
                2
            }
            &&& seq_in(after_reset(mem, n)) == seq + if odd {
                1int
            } else {
                2
            }
            &&& seq == mem[1] % 0x1_0000_0000
        }),
{
}

/// A publish stores every word of the payload but the one with `seq`, and leaves
/// everything behind it alone; a reset stores zeros instead.
pub proof fn writes_store_the_payload(mem: Seq<u64>, image: Seq<u64>, i: int)
    requires
        2 <= image.len() <= mem.len(),
        0 <= i < mem.len(),
        i != 1,
    ensures
        published(mem, image).len() == mem.len(),
        i < image.len() ==> published(mem, image)[i] == image[i],
        i >= image.len() ==> published(mem, image)[i] == mem[i],
        i < image.len() ==> after_reset(mem, image.len())[i] == 0,
        i >= image.len() ==> after_reset(mem, image.len())[i] == mem[i],
        high_half(published(mem, image)[1]) == high_half(mem[1]),
{
}

/// A copy is taken for a segment of this layout by the magic number in the first
/// four bytes and the version in the next two.
pub proof fn copies_are_known_by_magic_and_version(words: Seq<u64>, magic: u32, version: u16)
    requires
        words.len() >= 2,
    ensures
        ({
            let m = words[0] % 0x1_0000_0000;
            let v = (words[0] / 0x1_0000_0000) % 0x1_0000;
            let r = check_words(words, magic, version);
            &&& m != magic ==> r == Err::<(), ReadError>(ReadError::MagicMismatch)
            &&& m == magic && v != version ==> r == Err::<(), ReadError>(
                ReadError::VersionMismatch,
            )
            &&& m == magic && v == version ==> r is Ok
        }),
{
}

/// A reader that keeps finding a writer in progress, or keeps being overtaken,
/// gives up as busy with its hundredth failed attempt, and not before.
pub proof fn readers_try_a_hundred_times(m: ReadModel, value: u64, magic: u32, version: u16)
    requires
        m.action is LoadSeq && value % 2 == 1 || m.action is ReloadSeq && value % 0x1_0000_0000
            != m.first,
        0 <= m.failed < 100,
    ensures
        ({
            let n = read_step(m, value, magic, version);
            &&& n.failed == m.failed + 1
            &&& n.words == m.words
            &&& m.failed + 1 < 100 ==> n.action is LoadSeq
            &&& m.failed + 1 == 100 ==> n.action == (ReadAction::Finish {
                outcome: Err::<(), ReadError>(ReadError::Busy),
            })
        }),
{
    assert((value % 0x1_0000_0000) % 2 == value % 2);
}

} // verus!
