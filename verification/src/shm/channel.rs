//! The daemon's two ends of the shared memory: a publisher of `plc_data`, and a
//! reader of `plc_cmd` that latches a command when its `cycle` changes.
use vstd::prelude::*;

use crate::shm::layout::{words_of, PlcCommand, PlcData, Segment};
use crate::shm::mapping::Mapping;
use crate::shm::seqlock::{check_words, publish, published, seq_in, snapshot, snapshot_words, ReadError};
use crate::shm::seqlock_laws::snapshot_gives_back_what_was_published;

verus! {

/// A blank `PlcData` under this layout's magic number and version.
pub open spec fn fresh_data() -> PlcData {
    let d = PlcData::blank_value();
    PlcData {
        header: crate::shm::layout::Header {
            magic: PlcData::magic_number(),
            version: PlcData::layout_version(),
            ..d.header
        },
        ..d
    }
}

/// The data with its cycle counter one on, wrapping.
pub open spec fn next_cycle(d: PlcData) -> PlcData {
    PlcData {
        header: crate::shm::layout::Header {
            cycle: ((d.header.cycle + 1) % 0x1_0000_0000_0000_0000) as u64,
            ..d.header
        },
        ..d
    }
}

/// A blank `PlcData`, ready to be filled and published.
pub fn new_data() -> (r: PlcData)
    ensures
        r == fresh_data(),
{
    let mut data = PlcData::blank();
    data.header.magic = PlcData::magic();
    data.header.version = PlcData::version();
    data
}

/// Advance the cycle counter of the data.
pub fn advance_cycle(data: &mut PlcData)
    ensures
        *final(data) == next_cycle(*old(data)),
{
    data.header.cycle = data.header.cycle.wrapping_add(1);
}

/// Owns a `plc_data` segment. Fill `data` freely, then publish once per cycle:
/// magic number and version are maintained here, the cycle counter advances
/// with each publish, and `seq` belongs to the protocol.
pub struct DataPublisher {
    pub map: Mapping,
    pub data: PlcData,
}

impl DataPublisher {
    pub fn new(map: Mapping) -> (r: DataPublisher)
        ensures
            r.map@ == map@,
            r.data == fresh_data(),
    {
        DataPublisher { map, data: new_data() }
    }

    /// Publish the data under the next cycle number.
    pub fn publish(&mut self)
        requires
            old(self).map@.len() >= PlcData::size_in_words(),
        ensures
            final(self).data == next_cycle(old(self).data),
            final(self).map@ == published(old(self).map@, words_of(final(self).data)),
    {
        advance_cycle(&mut self.data);
        publish(&mut self.map, &self.data);
    }
}

/// The command in force: the last one latched, blank until the first.
pub struct CmdLatch {
    last_cycle: u64,
    current: PlcCommand,
    valid: bool,
}

/// The state of a command latch.
pub struct LatchModel {
    pub last_cycle: u64,
    pub current: PlcCommand,
    pub valid: bool,
}

/// Nothing latched.
pub open spec fn empty_latch() -> LatchModel {
    LatchModel { last_cycle: 0, current: PlcCommand::blank_value(), valid: false }
}

/// A command is news: the first one, or one with another cycle number.
pub open spec fn is_news(m: LatchModel, command: PlcCommand) -> bool {
    !m.valid || command.header.cycle != m.last_cycle
}

/// The latch after a read of the command segment: news replaces the whole
/// command, anything else leaves the last one in force.
pub open spec fn latched(m: LatchModel, read: Result<PlcCommand, ReadError>) -> LatchModel {
    match read {
        Ok(command) if is_news(m, command) => LatchModel {
            last_cycle: command.header.cycle,
            current: command,
            valid: true,
        },
        _ => m,
    }
}

/// What the latch reports of a read: whether it was news, or the read's error.
pub open spec fn latch_report(m: LatchModel, read: Result<PlcCommand, ReadError>) -> Result<
    bool,
    ReadError,
> {
    match read {
        Ok(command) => Ok(is_news(m, command)),
        Err(e) => Err(e),
    }
}

impl View for CmdLatch {
    type V = LatchModel;

    closed spec fn view(&self) -> LatchModel {
        LatchModel { last_cycle: self.last_cycle, current: self.current, valid: self.valid }
    }
}

impl CmdLatch {
    pub fn new() -> (r: CmdLatch)
        ensures
            r@ == empty_latch(),
    {
        CmdLatch { last_cycle: 0, current: PlcCommand::blank(), valid: false }
    }

    /// Take the outcome of one read of the command segment. `Ok(true)`: a new
    /// command was latched; `Ok(false)`: nothing new. An error leaves the
    /// previous command in force.
    pub fn accept(&mut self, read: Result<PlcCommand, ReadError>) -> (r: Result<bool, ReadError>)
        ensures
            final(self)@ == latched(old(self)@, read),
            r == latch_report(old(self)@, read),
    {
        match read {
            Ok(command) => {
                if !self.valid || command.header.cycle != self.last_cycle {
                    self.last_cycle = command.header.cycle;
                    self.current = command;
                    self.valid = true;
                    Ok(true)
                } else {
                    Ok(false)
                }
            },
            Err(e) => Err(e),
        }
    }

    /// The command in force.
    pub fn current(&self) -> (r: &PlcCommand)
        ensures
            *r == self@.current,
    {
        &self.current
    }
}

/// Reads a `plc_cmd` segment and latches its commands.
pub struct CmdReader {
    map: Mapping,
    latch: CmdLatch,
}

/// What one read of the command segment gives.
pub open spec fn read_is(mem: Seq<u64>, read: Result<PlcCommand, ReadError>) -> bool {
    if seq_in(mem) % 2 == 1 {
        read == Err::<PlcCommand, ReadError>(ReadError::Busy)
    } else {
        let words = snapshot_words(mem, PlcCommand::size_in_words());
        match check_words(words, PlcCommand::magic_number(), PlcCommand::layout_version()) {
            Ok(_) => read matches Ok(command) && words_of(command) == words,
            Err(e) => read == Err::<PlcCommand, ReadError>(e),
        }
    }
}

impl CmdReader {
    /// The memory of the segment.
    pub closed spec fn memory(self) -> Seq<u64> {
        self.map@
    }

    /// The latched state.
    pub closed spec fn latch(self) -> LatchModel {
        self.latch@
    }

    pub fn new(map: Mapping) -> (r: CmdReader)
        ensures
            r.memory() == map@,
            r.latch() == empty_latch(),
    {
        CmdReader { map, latch: CmdLatch::new() }
    }

    /// Read the segment once. `Ok(true)`: a new command was latched;
    /// `Ok(false)`: nothing new. An error leaves the previous command in force.
    pub fn poll(&mut self) -> (r: Result<bool, ReadError>)
        requires
            old(self).memory().len() >= PlcCommand::size_in_words(),
        ensures
            final(self).memory() == old(self).memory(),
            exists|read: Result<PlcCommand, ReadError>|
                #[trigger] read_is(old(self).memory(), read) && final(self).latch() == latched(
                    old(self).latch(),
                    read,
                ) && r == latch_report(old(self).latch(), read),
    {
        let mut snap = PlcCommand::blank();
        let read: Result<PlcCommand, ReadError> = match snapshot(&self.map, &mut snap) {
            Ok(_) => Ok(snap),
            Err(e) => Err(e),
        };
        assert(read_is(self.map@, read));
        self.latch.accept(read)
    }

    /// The command in force.
    pub fn current(&self) -> (r: &PlcCommand)
        ensures
            *r == self.latch().current,
    {
        self.latch.current()
    }

    /// The segment, for a writer in the same process.
    pub fn mapping_mut(&mut self) -> (r: &mut Mapping)
        ensures
            r@ == old(self).memory(),
            final(self).memory() == final(r)@,
            final(self).latch() == old(self).latch(),
    {
        &mut self.map
    }
}

/// A read of the command segment has one outcome.
pub proof fn command_reads_are_determined(
    mem: Seq<u64>,
    a: Result<PlcCommand, ReadError>,
    b: Result<PlcCommand, ReadError>,
)
    requires
        read_is(mem, a),
        read_is(mem, b),
    ensures
        a == b,
{
    if a is Ok && b is Ok {
        let x = a->Ok_0;
        let y = b->Ok_0;
        assert forall|i: int| 0 <= i < PlcCommand::size_in_words() implies x.word_value(i)
            == y.word_value(i) by {
            assert(words_of(x)[i] == words_of(y)[i]);
        }
        PlcCommand::lemma_words_determine(x, y);
    }
}

/// A command is taken whole and once: right after it was latched, reading the
/// same cycle again is no news and changes nothing.
pub proof fn commands_latch_once(m: LatchModel, command: PlcCommand, again: PlcCommand)
    requires
        is_news(m, command),
        again.header.cycle == command.header.cycle,
    ensures
        latched(m, Ok(command)).current == command,
        latched(latched(m, Ok(command)), Ok(again)) == latched(m, Ok(command)),
        latch_report(latched(m, Ok(command)), Ok(again)) == Ok::<bool, ReadError>(false),
{
}

/// A failed read never changes the command in force.
pub proof fn failed_reads_keep_the_command(m: LatchModel, e: ReadError)
    ensures
        latched(m, Err(e)) == m,
        latch_report(m, Err(e)) == Err::<bool, ReadError>(e),
{
}

/// A command that was published is read as it is: its axes, machine word,
/// production state, cycle number and marks.
pub proof fn published_commands_are_read(
    mem: Seq<u64>,
    command: PlcCommand,
    read: Result<PlcCommand, ReadError>,
)
    requires
        mem.len() >= PlcCommand::size_in_words(),
        command.header.magic == 0x504C_4343,
        command.header.version == 3,
        read_is(published(mem, words_of(command)), read),
    ensures
        read matches Ok(c) && c.machine == command.machine && c.production == command.production
            && c.header.cycle == command.header.cycle && c.header.flags == command.header.flags,
{
    lemma_published_checks(mem, command);
    snapshot_gives_back_what_was_published(mem, command, read->Ok_0);
}

proof fn lemma_published_checks(mem: Seq<u64>, src: PlcCommand)
    requires
        mem.len() >= PlcCommand::size_in_words(),
        src.header.magic == PlcCommand::magic_number(),
        src.header.version == PlcCommand::layout_version(),
    ensures
        seq_in(published(mem, words_of(src))) % 2 == 0,
        check_words(
            snapshot_words(published(mem, words_of(src)), PlcCommand::size_in_words()),
            PlcCommand::magic_number(),
            PlcCommand::layout_version(),
        ) is Ok,
{
    broadcast use crate::shm::words::group_words;

    let new = published(mem, words_of(src));
    src.lemma_header_first();
    crate::shm::seqlock_laws::writes_are_marked_odd_and_end_even(seq_in(mem));
    let h = src.header_value();
    let words = snapshot_words(new, PlcCommand::size_in_words());
    assert(words[0] == crate::shm::layout::header_word(h, 0));
    assert(crate::shm::words::high_half(words[0]) == crate::shm::words::half_of(
        h.version,
        h.flags,
    ));
}

/// Publishing moves the cycle number on by one and leaves the rest of the data
/// as it was filled; every word of it but the one with `seq` is in the segment.
pub proof fn publishers_publish_what_was_filled(publisher: &mut DataPublisher, i: int)
    requires
        call_ensures(DataPublisher::publish, (publisher,), ()),
        old(publisher).map@.len() >= PlcData::size_in_words(),
        0 <= i < PlcData::size_in_words(),
        i != 1,
    ensures
        ({
            let before = old(publisher).data;
            let after = final(publisher).data;
            &&& before.header.cycle < u64::MAX ==> after.header.cycle == before.header.cycle + 1
            &&& after.system == before.system
            &&& after.machine == before.machine
            &&& after.production == before.production
            &&& after.header.magic == before.header.magic && after.header.version
                == before.header.version && after.header.flags == before.header.flags
            &&& final(publisher).map@[i] == after.word_value(i)
            &&& final(publisher).map@.len() == old(publisher).map@.len()
        }),
{
}

} // verus!
