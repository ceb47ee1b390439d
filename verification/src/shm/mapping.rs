//! A shared-memory segment held in memory: a zeroed array of 64-bit words.
use vstd::prelude::*;

verus! {

/// A segment of 64-bit words.
pub struct Mapping {
    words: Vec<u64>,
}

impl View for Mapping {
    type V = Seq<u64>;

    closed spec fn view(&self) -> Seq<u64> {
        self.words@
    }
}

/// The number of words that hold `size` bytes.
pub open spec fn words_for(size: int) -> int {
    (size + 7) / 8
}

impl Mapping {
    #[verifier::type_invariant]
    spec fn byte_length_fits(self) -> bool {
        self.words@.len() * 8 <= usize::MAX
    }

    /// A zeroed segment of at least `size` bytes, a whole number of words.
    pub fn in_memory(size: usize) -> (r: Mapping)
        requires
            size <= usize::MAX - 7,
        ensures
            r@.len() == words_for(size as int),
            forall|i: int| 0 <= i < r@.len() ==> r@[i] == 0,
    {
        let count: usize = (size + 7) / 8;
        let words: Vec<u64> = vec![0u64; count];
        Mapping { words }
    }

    /// The size in bytes.
    pub fn len(&self) -> (r: usize)
        ensures
            r == self@.len() * 8,
    {
        proof {
            use_type_invariant(self);
        }
        self.words.len() * 8
    }

    pub fn is_empty(&self) -> (r: bool)
        ensures
            r == (self@.len() == 0),
    {
        self.words.len() == 0
    }

    /// The word at index `i`.
    pub fn word(&self, i: usize) -> (r: u64)
        requires
            i < self@.len(),
        ensures
            r == self@[i as int],
    {
        self.words[i]
    }

    /// Store a word at index `i`.
    pub fn set_word(&mut self, i: usize, w: u64)
        requires
            i < old(self)@.len(),
        ensures
            final(self)@ == old(self)@.update(i as int, w),
    {
        proof {
            use_type_invariant(&*self);
        }
        self.words[i] = w;
    }
}

/// The size a segment file has to be grown to before `wanted` bytes of it can be
/// mapped; a file that is large enough is never shrunk.
pub fn grown_size(current: u64, wanted: u64) -> (r: Option<u64>)
    ensures
        r == if current < wanted {
            Some(wanted)
        } else {
            None
        },
{
    if current < wanted {
        Some(wanted)
    } else {
        None
    }
}

/// A segment file is grown to what is wanted where it is smaller, and never
/// shrunk.
pub proof fn files_are_only_grown(current: u64, wanted: u64, r: Option<u64>)
    requires
        call_ensures(grown_size, (current, wanted), r),
    ensures
        r is Some <==> current < wanted,
        r matches Some(size) ==> size == wanted,
{
}

/// A segment in memory has room for its bytes, in whole words, all of them zero.
pub proof fn segments_begin_zeroed(size: usize, r: Mapping, i: int)
    requires
        call_ensures(Mapping::in_memory, (size,), r),
        0 <= i < r@.len(),
    ensures
        size <= r@.len() * 8 < size + 8,
        r@[i] == 0,
{
}

} // verus!
