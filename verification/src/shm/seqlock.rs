//! The seqlock protocol over a segment.
//!
//! The writer makes the header's `seq` odd, stores the payload, then makes it
//! even again; a reader that sees an odd `seq`, or different ones before and
//! after its copy, tries again. The second word of a segment holds `seq` and is
//! stored only as such: the payload copy leaves it out, whatever `seq` the
//! caller left in the value.
//!
//! A write and a read are sequences of single memory accesses, which
//! `WriteSession` and `ReadSession` hand out one at a time. `publish`, `reset`
//! and `snapshot` run them on a segment held in memory; over memory shared with
//! another process the caller performs each access atomically, in this order.
use vstd::prelude::*;

use crate::shm::layout::{header_word, words_of, Segment};
use crate::shm::mapping::Mapping;
use crate::shm::words::{half_of, high, high_half, low, low_half, low_quarter, pack, word_of};

verus! {

broadcast use crate::shm::words::group_words;

/// Attempts after which a reader gives up.
pub const SEQLOCK_MAX_RETRIES: usize = 100;

/// The word that holds `seq`.
pub const SEQ_WORD: usize = 1;

/// Why a segment could not be read.
#[derive(Clone, Copy, Debug, PartialEq, Eq, Structural)]
pub enum ReadError {
    /// A writer kept the reader spinning.
    Busy,
    /// Wrong segment or layout, or no writer yet.
    MagicMismatch,
    /// The writer has another layout version.
    VersionMismatch,
}

impl ReadError {
    /// The error as a message.
    pub fn to_text(self) -> (r: String)
        ensures
            r@ == match self {
                ReadError::Busy => "seqlock: writer kept us spinning"@,
                ReadError::MagicMismatch => "magic mismatch: wrong segment or layout"@,
                ReadError::VersionMismatch => "version mismatch: rebuild peers with matching layout"@,
            },
    {
        match self {
            ReadError::Busy => "seqlock: writer kept us spinning".to_owned(),
            ReadError::MagicMismatch => "magic mismatch: wrong segment or layout".to_owned(),
            ReadError::VersionMismatch => "version mismatch: rebuild peers with matching layout".to_owned(),
        }
    }
}

/// `seq + n`, wrapping.
pub open spec fn seq_plus(seq: u32, n: int) -> u32 {
    ((seq + n) % 0x1_0000_0000) as u32
}

/// The odd value that marks a write in progress. After a writer that died in
/// the middle, `seq` is odd already and the next odd value is two on.
pub open spec fn in_progress(seq: u32) -> u32 {
    seq_plus(seq, 1 + seq % 2)
}

/// The odd value that marks a reset in progress: an odd `seq` stays.
pub open spec fn reset_in_progress(seq: u32) -> u32 {
    seq_plus(seq, 1 - seq % 2)
}

/// The `seq` held in a segment's memory.
pub open spec fn seq_in(mem: Seq<u64>) -> u32 {
    low_half(mem[1])
}

/// One memory access of a writer.
#[derive(Clone, Copy, Debug, PartialEq, Eq, Structural)]
pub enum WriteAction {
    /// Mark the write in progress.
    StoreSeq { seq: u32 },
    /// Payload stores stay behind the mark.
    Fence,
    /// Store one payload word.
    StoreWord { index: usize, value: u64 },
    /// Mark the segment stable; payload stores stay before this.
    CommitSeq { seq: u32 },
}

/// The word index of payload store `k`: every word but the one with `seq`.
pub open spec fn payload_index(k: int) -> int {
    if k == 0 {
        0
    } else {
        k + 1
    }
}

/// The number of accesses of a write of `n` words.
pub open spec fn script_len(n: int) -> int {
    n + 2
}

/// Access `k` of a write of `image` under the mark `odd`.
pub open spec fn script_action(image: Seq<u64>, odd: u32, k: int) -> WriteAction {
    if k == 0 {
        WriteAction::StoreSeq { seq: odd }
    } else if k == 1 {
        WriteAction::Fence
    } else if k <= image.len() {
        let index = payload_index(k - 2);
        WriteAction::StoreWord { index: index as usize, value: image[index] }
    } else {
        WriteAction::CommitSeq { seq: seq_plus(odd, 1) }
    }
}

/// What an access does to the memory.
pub open spec fn applied(mem: Seq<u64>, action: WriteAction) -> Seq<u64> {
    match action {
        WriteAction::StoreSeq { seq } | WriteAction::CommitSeq { seq } => mem.update(
            1,
            word_of(seq, high_half(mem[1])),
        ),
        WriteAction::Fence => mem,
        WriteAction::StoreWord { index, value } => mem.update(index as int, value),
    }
}

/// The memory after the first `k` accesses of a write.
pub open spec fn partly_written(mem: Seq<u64>, image: Seq<u64>, odd: u32, k: int) -> Seq<u64>
    decreases k,
{
    if k <= 0 {
        mem
    } else {
        applied(partly_written(mem, image, odd, k - 1), script_action(image, odd, k - 1))
    }
}

/// The memory after a whole write of `image` under the mark `odd`: its words,
/// `seq` one past the mark, everything beyond it untouched.
pub open spec fn written(mem: Seq<u64>, image: Seq<u64>, odd: u32) -> Seq<u64> {
    Seq::new(
        mem.len(),
        |i: int|
            if i == 1 {
                word_of(seq_plus(odd, 1), high_half(mem[1]))
            } else if i < image.len() {
                image[i]
            } else {
                mem[i]
            },
    )
}

/// The memory after publishing `image`.
pub open spec fn published(mem: Seq<u64>, image: Seq<u64>) -> Seq<u64> {
    written(mem, image, in_progress(seq_in(mem)))
}

/// The memory after a reset of the first `n` words.
pub open spec fn after_reset(mem: Seq<u64>, n: nat) -> Seq<u64> {
    written(mem, Seq::new(n, |i: int| 0u64), reset_in_progress(seq_in(mem)))
}

/// After its mark, a write has stored a growing part of the payload.
pub proof fn lemma_partly_written(mem: Seq<u64>, image: Seq<u64>, odd: u32, k: int)
    requires
        2 <= image.len() <= mem.len(),
        image.len() <= 0x1000,
        1 <= k <= image.len() + 1,
    ensures
        ({
            let m = partly_written(mem, image, odd, k);
            &&& m.len() == mem.len()
            &&& m[1] == word_of(odd, high_half(mem[1]))
            &&& forall|i: int|
                0 <= i < mem.len() && i != 1 ==> #[trigger] m[i] == if k >= 2 && i < image.len()
                    && (i == 0 && k >= 3 || i >= 2 && i + 1 < k) {
                    image[i]
                } else {
                    mem[i]
                }
        }),
    decreases k,
{
    if k == 1 {
        assert(partly_written(mem, image, odd, 0) == mem);
        assert(partly_written(mem, image, odd, 1) == applied(mem, script_action(image, odd, 0)));
    } else {
        lemma_partly_written(mem, image, odd, k - 1);
    }
}

/// A whole write leaves exactly the written memory.
pub proof fn lemma_write_completes(mem: Seq<u64>, image: Seq<u64>, odd: u32)
    requires
        2 <= image.len() <= mem.len(),
        image.len() <= 0x1000,
    ensures
        partly_written(mem, image, odd, script_len(image.len() as int)) == written(
            mem,
            image,
            odd,
        ),
{
    let n = image.len() as int;
    lemma_partly_written(mem, image, odd, n + 1);
    let m = partly_written(mem, image, odd, n + 1);
    assert(partly_written(mem, image, odd, n + 2) == applied(
        m,
        script_action(image, odd, n + 1),
    ));
    assert(applied(m, script_action(image, odd, n + 1)) =~= written(mem, image, odd));
}

/// A write in progress, one access at a time.
pub struct WriteSession<T> {
    payload: T,
    odd: u32,
    at: usize,
}

impl<T: Segment> WriteSession<T> {
    /// The payload words of this write.
    pub closed spec fn image(self) -> Seq<u64> {
        words_of(self.payload)
    }

    /// The mark of this write.
    pub closed spec fn mark(self) -> u32 {
        self.odd
    }

    /// The accesses handed out so far.
    pub closed spec fn position(self) -> int {
        self.at as int
    }

    /// Start publishing `src` to a segment whose `seq` is `seq`.
    pub fn publish(seq: u32, src: &T) -> (r: WriteSession<T>)
        ensures
            r.image() == words_of(*src),
            r.mark() == in_progress(seq),
            r.position() == 0,
    {
        let odd: u32 = seq.wrapping_add(1).wrapping_add(seq % 2);
        WriteSession { payload: *src, odd, at: 0 }
    }

    /// Start zeroing a segment whose `seq` is `seq`.
    pub fn reset(seq: u32) -> (r: WriteSession<T>)
        ensures
            r.image() == Seq::new(T::size_in_words(), |i: int| 0u64),
            r.mark() == reset_in_progress(seq),
            r.position() == 0,
    {
        let odd: u32 = if seq % 2 == 1 {
            seq
        } else {
            seq + 1
        };
        let payload: T = T::blank();
        proof {
            assert forall|i: int| 0 <= i < T::size_in_words() implies words_of(payload)[i] == 0 by {
                T::lemma_blank(i);
            }
            assert(words_of(payload) =~= Seq::new(T::size_in_words(), |i: int| 0u64));
        }
        WriteSession { payload, odd, at: 0 }
    }

    /// The next access, or none once the write is complete.
    pub fn next(&mut self) -> (r: Option<WriteAction>)
        requires
            old(self).position() <= script_len(old(self).image().len() as int),
        ensures
            final(self).image() == old(self).image(),
            final(self).mark() == old(self).mark(),
            ({
                let n = old(self).image().len() as int;
                let k = old(self).position();
                if k < script_len(n) {
                    &&& r == Some(script_action(old(self).image(), old(self).mark(), k))
                    &&& final(self).position() == k + 1
                } else {
                    &&& r is None
                    &&& final(self).position() == k
                }
            }),
    {
        let n: usize = T::word_count();
        proof {
            self.payload.lemma_header_first();
        }
        let k: usize = self.at;
        if k == n + 2 {
            return None;
        }
        self.at = k + 1;
        if k == 0 {
            Some(WriteAction::StoreSeq { seq: self.odd })
        } else if k == 1 {
            Some(WriteAction::Fence)
        } else if k <= n {
            let index: usize = if k == 2 {
                0
            } else {
                k - 1
            };
            Some(WriteAction::StoreWord { index, value: self.payload.word(index) })
        } else {
            Some(WriteAction::CommitSeq { seq: self.odd.wrapping_add(1) })
        }
    }
}

/// Perform one access of a write.
pub fn perform(m: &mut Mapping, action: WriteAction)
    requires
        old(m)@.len() >= 2,
        action matches WriteAction::StoreWord { index, .. } ==> index < old(m)@.len(),
    ensures
        final(m)@ == applied(old(m)@, action),
{
    match action {
        WriteAction::StoreSeq { seq } | WriteAction::CommitSeq { seq } => {
            let pad: u32 = high(m.word(SEQ_WORD));
            m.set_word(SEQ_WORD, pack(seq, pad));
        },
        WriteAction::Fence => {},
        WriteAction::StoreWord { index, value } => {
            m.set_word(index, value);
        },
    }
}

fn run_write<T: Segment>(m: &mut Mapping, session: WriteSession<T>)
    requires
        old(m)@.len() >= T::size_in_words(),
        session.position() == 0,
        session.image().len() == T::size_in_words(),
    ensures
        final(m)@ == written(old(m)@, session.image(), session.mark()),
{
    let mut s: WriteSession<T> = session;
    proof {
        s.payload.lemma_header_first();
        lemma_write_completes(m@, session.image(), session.mark());
    }
    let ghost mem = m@;
    let ghost n = T::size_in_words() as int;
    loop
        invariant
            3 <= n <= 0x1000,
            n == T::size_in_words(),
            n <= mem.len(),
            m@.len() == mem.len(),
            s.image() == session.image(),
            s.image().len() == n,
            s.mark() == session.mark(),
            0 <= s.position() <= script_len(n),
            m@ == partly_written(mem, session.image(), session.mark(), s.position()),
        ensures
            m@ == partly_written(mem, session.image(), session.mark(), script_len(n)),
        decreases script_len(n) - s.position(),
    {
        match s.next() {
            Some(action) => {
                perform(m, action);
            },
            None => {
                break;
            },
        }
    }
}

/// Publish `src` to the segment: every payload word becomes that of `src`, and
/// `seq` moves to the next even value, whatever `seq` stands in `src`.
pub fn publish<T: Segment>(m: &mut Mapping, src: &T)
    requires
        old(m)@.len() >= T::size_in_words(),
    ensures
        final(m)@ == published(old(m)@, words_of(*src)),
{
    proof {
        src.lemma_header_first();
    }
    let seq: u32 = low(m.word(SEQ_WORD));
    run_write(m, WriteSession::publish(seq, src));
}

/// Zero the segment's payload under the protocol: readers find no writer until
/// the next publish.
pub fn reset<T: Segment>(m: &mut Mapping)
    requires
        old(m)@.len() >= T::size_in_words(),
    ensures
        final(m)@ == after_reset(old(m)@, T::size_in_words()),
{
    proof {
        T::blank_value().lemma_header_first();
    }
    let seq: u32 = low(m.word(SEQ_WORD));
    let session: WriteSession<T> = WriteSession::reset(seq);
    run_write(m, session);
}

/// What a reader does next.
#[derive(Clone, Copy, Debug, PartialEq, Eq)]
pub enum ReadAction {
    /// Load `seq`, before the words that follow.
    LoadSeq,
    /// Load one payload word.
    LoadWord { index: usize },
    /// Load `seq` again, after the words loaded before.
    ReloadSeq,
    /// Done, with this outcome.
    Finish { outcome: Result<(), ReadError> },
}

/// Where a reader stands.
pub struct ReadModel {
    /// The words copied so far; the word with `seq` is set on success.
    pub words: Seq<u64>,
    /// Attempts that failed.
    pub failed: int,
    /// The `seq` that the running attempt began with.
    pub first: u32,
    pub action: ReadAction,
}

/// Whether these words are a segment that this layout can read.
pub open spec fn check_words(words: Seq<u64>, magic: u32, version: u16) -> Result<(), ReadError> {
    if low_half(words[0]) != magic {
        Err(ReadError::MagicMismatch)
    } else if low_quarter(high_half(words[0])) != version {
        Err(ReadError::VersionMismatch)
    } else {
        Ok(())
    }
}

/// An attempt failed: try again, or give up.
pub open spec fn read_failed(m: ReadModel) -> ReadModel {
    ReadModel {
        failed: m.failed + 1,
        action: if m.failed + 1 >= SEQLOCK_MAX_RETRIES {
            ReadAction::Finish { outcome: Err(ReadError::Busy) }
        } else {
            ReadAction::LoadSeq
        },
        ..m
    }
}

/// What follows word `index` of `n`.
pub open spec fn after_word(index: int, n: int) -> ReadAction {
    let following = if index == 0 {
        2
    } else {
        index + 1
    };
    if following < n {
        ReadAction::LoadWord { index: following as usize }
    } else {
        ReadAction::ReloadSeq
    }
}

/// The reader after it has loaded `value`.
pub open spec fn read_step(m: ReadModel, value: u64, magic: u32, version: u16) -> ReadModel {
    let seq = low_half(value);
    match m.action {
        ReadAction::LoadSeq => if seq % 2 == 1 {
            read_failed(m)
        } else {
            ReadModel { first: seq, action: ReadAction::LoadWord { index: 0 }, ..m }
        },
        ReadAction::LoadWord { index } => ReadModel {
            words: m.words.update(index as int, value),
            action: after_word(index as int, m.words.len() as int),
            ..m
        },
        ReadAction::ReloadSeq => if seq != m.first {
            read_failed(m)
        } else {
            let words = m.words.update(1, word_of(m.first, 0));
            ReadModel {
                words,
                action: ReadAction::Finish { outcome: check_words(words, magic, version) },
                ..m
            }
        },
        ReadAction::Finish { .. } => m,
    }
}

/// A read in progress, one access at a time.
pub struct ReadSession<T> {
    value: T,
    failed: usize,
    first: u32,
    action: ReadAction,
}

impl<T: Segment> ReadSession<T> {
    /// Where this reader stands.
    pub closed spec fn model(self) -> ReadModel {
        ReadModel {
            words: words_of(self.value),
            failed: self.failed as int,
            first: self.first,
            action: self.action,
        }
    }

    /// The value copied so far.
    pub closed spec fn copied(self) -> T {
        self.value
    }

    /// The value's words are the model's words, a pending payload word is one of
    /// the segment's, and the attempts are within bounds.
    pub closed spec fn valid(self) -> bool {
        &&& self.failed <= SEQLOCK_MAX_RETRIES
        &&& !(self.action is Finish) ==> self.failed < SEQLOCK_MAX_RETRIES
        &&& self.action matches ReadAction::LoadWord { index } ==> index
            < T::size_in_words() && index != 1
    }

    /// Start reading over what `value` held.
    pub fn new(value: T) -> (r: ReadSession<T>)
        ensures
            r.valid(),
            r.copied() == value,
            r.model() == (ReadModel {
                words: words_of(value),
                failed: 0,
                first: 0,
                action: ReadAction::LoadSeq,
            }),
    {
        ReadSession { value, failed: 0, first: 0, action: ReadAction::LoadSeq }
    }

    /// The access that is due.
    pub fn due(&self) -> (r: ReadAction)
        ensures
            r == self.model().action,
    {
        self.action
    }

    /// The value copied so far.
    pub fn value(&self) -> (r: T)
        ensures
            r == self.copied(),
            words_of(r) == self.model().words,
    {
        self.value
    }

    fn fail(&mut self)
        requires
            old(self).failed < SEQLOCK_MAX_RETRIES,
        ensures
            final(self).valid(),
            final(self).copied() == old(self).copied(),
            final(self).model() == read_failed(old(self).model()),
    {
        self.failed = self.failed + 1;
        if self.failed >= SEQLOCK_MAX_RETRIES {
            self.action = ReadAction::Finish { outcome: Err(ReadError::Busy) };
        } else {
            self.action = ReadAction::LoadSeq;
        }
    }

    /// Take the word that the due access loaded. The word with `seq` counts by
    /// its low half alone.
    pub fn supply(&mut self, loaded: u64)
        requires
            old(self).valid(),
        ensures
            final(self).valid(),
            final(self).model() == read_step(
                old(self).model(),
                loaded,
                T::magic_number(),
                T::layout_version(),
            ),
            final(self).copied() == old(self).copied() || old(self).model().action is LoadWord
                || old(self).model().action is ReloadSeq,
    {
        let seq: u32 = low(loaded);
        proof {
            self.value.lemma_header_first();
        }
        match self.action {
            ReadAction::LoadSeq => {
                if seq % 2 == 1 {
                    self.fail();
                } else {
                    self.first = seq;
                    self.action = ReadAction::LoadWord { index: 0 };
                }
            },
            ReadAction::LoadWord { index } => {
                let ghost before = words_of(self.value);
                self.value.set_word(index, loaded);
                assert(words_of(self.value) =~= before.update(index as int, loaded));
                let following: usize = if index == 0 {
                    2
                } else {
                    index + 1
                };
                self.action = if following < T::word_count() {
                    ReadAction::LoadWord { index: following }
                } else {
                    ReadAction::ReloadSeq
                };
            },
            ReadAction::ReloadSeq => {
                if seq != self.first {
                    self.fail();
                } else {
                    self.settle();
                }
            },
            ReadAction::Finish { .. } => {},
        }
    }

    fn settle(&mut self)
        requires
            old(self).failed < SEQLOCK_MAX_RETRIES,
        ensures
            final(self).valid(),
            ({
                let m = old(self).model();
                let words = m.words.update(1, word_of(m.first, 0));
                final(self).model() == ReadModel {
                    words,
                    action: ReadAction::Finish {
                        outcome: check_words(words, T::magic_number(), T::layout_version()),
                    },
                    ..m
                }
            }),
    {
        let ghost before = words_of(self.value);
        proof {
            self.value.lemma_header_first();
        }
        self.value.set_word(SEQ_WORD, pack(self.first, 0));
        proof {
            self.value.lemma_header_first();
            let h = self.value.header_value();
            assert(self.value.word_value(0) == header_word(h, 0));
            assert(low_half(words_of(self.value)[0]) == h.magic);
            assert(high_half(words_of(self.value)[0]) == half_of(h.version, h.flags));
            assert(words_of(self.value) =~= before.update(1, word_of(self.first, 0)));
        }
        let outcome: Result<(), ReadError> = if self.value.header().magic != T::magic() {
            Err(ReadError::MagicMismatch)
        } else if self.value.header().version != T::version() {
            Err(ReadError::VersionMismatch)
        } else {
            Ok(())
        };
        self.action = ReadAction::Finish { outcome };
    }
}

/// The words that a read of this memory copies.
pub open spec fn snapshot_words(mem: Seq<u64>, n: nat) -> Seq<u64> {
    mem.take(n as int).update(1, word_of(seq_in(mem), 0))
}

/// Copy the segment into `dst`. With no writer in progress `dst` becomes the
/// segment's content, its `seq` in the header, also where the magic number or
/// the version is not the expected one. With a writer in progress throughout,
/// `dst` stays as it is.
pub fn snapshot<T: Segment>(m: &Mapping, dst: &mut T) -> (r: Result<(), ReadError>)
    requires
        m@.len() >= T::size_in_words(),
    ensures
        seq_in(m@) % 2 == 1 ==> r == Err::<(), ReadError>(ReadError::Busy) && *final(dst) == *old(
            dst,
        ),
        seq_in(m@) % 2 == 0 ==> ({
            let words = snapshot_words(m@, T::size_in_words());
            &&& words_of(*final(dst)) == words
            &&& r == check_words(words, T::magic_number(), T::layout_version())
        }),
{
    proof {
        dst.lemma_header_first();
    }
    let mut s: ReadSession<T> = ReadSession::new(*dst);
    let ghost mem = m@;
    let ghost n = T::size_in_words() as int;
    let ghost seq = seq_in(m@);
    loop
        invariant
            3 <= n <= 0x1000,
            n == T::size_in_words(),
            mem == m@,
            mem.len() >= n,
            seq == seq_in(mem),
            s.valid(),
            s.model().words.len() == n,
            seq % 2 == 1 ==> s.copied() == *old(dst) && (s.model().action is LoadSeq
                || s.model().action == (ReadAction::Finish {
                outcome: Err::<(), ReadError>(ReadError::Busy),
            })),
            seq % 2 == 0 ==> s.model().failed == 0 && match s.model().action {
                ReadAction::LoadSeq => true,
                ReadAction::LoadWord { index } => s.model().first == seq && index != 1 && index < n
                    && forall|i: int| 0 <= i < index && i != 1 ==> s.model().words[i] == mem[i],
                ReadAction::ReloadSeq => s.model().first == seq && forall|i: int|
                    0 <= i < n && i != 1 ==> s.model().words[i] == mem[i],
                ReadAction::Finish { outcome } => {
                    &&& s.model().words == snapshot_words(mem, n as nat)
                    &&& outcome == check_words(
                        s.model().words,
                        T::magic_number(),
                        T::layout_version(),
                    )
                },
            },
        ensures
            s.model().action is Finish,
        decreases
                (if s.model().action is Finish {
                    0int
                } else {
                    1
                }),
                SEQLOCK_MAX_RETRIES - s.model().failed,
                (match s.model().action {
                    ReadAction::LoadSeq => 0x2000,
                    ReadAction::LoadWord { index } => 0x1800 - index,
                    _ => 0,
                }),
    {
        match s.due() {
            ReadAction::LoadSeq | ReadAction::ReloadSeq => {
                s.supply(m.word(SEQ_WORD));
                assert(seq % 2 == 0 && s.model().action is Finish ==> s.model().words
                    =~= snapshot_words(mem, n as nat));
            },
            ReadAction::LoadWord { index } => {
                s.supply(m.word(index));
            },
            ReadAction::Finish { .. } => {
                break;
            },
        }
    }
    *dst = s.value();
    match s.due() {
        ReadAction::Finish { outcome } => outcome,
        _ => Err(ReadError::Busy),
    }
}

} // verus!
