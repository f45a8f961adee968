//! The readiness bitsets that the poll primitive reads and fills.

use vstd::prelude::*;
use crate::event::Event;

verus! {

/// One more than the largest descriptor that a bitset can hold.
pub const FD_SETSIZE: usize = 1024;

/// What a triple of bitsets says: the descriptors marked for reading, for
/// writing, and as exceptional.
pub struct Marks {
    pub read: Set<int>,
    pub write: Set<int>,
    pub except: Set<int>,
}

impl Marks {
    /// Whether `fd` is marked for `event`.
    pub open spec fn marked(self, fd: int, event: Event) -> bool {
        match event {
            Event::Read => self.read.contains(fd),
            Event::Write => self.write.contains(fd),
        }
    }

    /// The marks with `fd` marked for `event` too.
    pub open spec fn with(self, fd: int, event: Event) -> Marks {
        match event {
            Event::Read => Marks { read: self.read.insert(fd), write: self.write, except: self.except },
            Event::Write => Marks { read: self.read, write: self.write.insert(fd), except: self.except },
        }
    }

    /// No descriptor marked for anything.
    pub open spec fn none() -> Marks {
        Marks { read: Set::empty(), write: Set::empty(), except: Set::empty() }
    }
}

/// Bit `k` of `word`.
spec fn bit_of(word: u64, k: int) -> bool {
    (word >> (k as u64)) & 1 == 1
}

/// Whether the bit of `fd` is set in a bitmap of sixteen words.
spec fn holds(words: [u64; 16], fd: int) -> bool {
    0 <= fd < FD_SETSIZE && bit_of(words[fd / 64], fd % 64)
}

/// The descriptors whose bit is set in a bitmap of sixteen words.
spec fn members(words: [u64; 16]) -> Set<int> {
    Set::new(|fd: int| holds(words, fd))
}

proof fn lemma_bit_set(word: u64, b: u64, k: u64)
    requires
        b < 64,
        k < 64,
    ensures
        bit_of(word | (1u64 << b), k as int) == (bit_of(word, k as int) || k == b),
{
    assert(((word | (1u64 << b)) >> k) & 1 == 1 <==> ((word >> k) & 1 == 1 || k == b))
        by (bit_vector)
        requires
            b < 64,
            k < 64,
    ;
}

proof fn lemma_bit_clear(k: u64)
    requires
        k < 64,
    ensures
        !bit_of(0u64, k as int),
{
    assert((0u64 >> k) & 1 == 0) by (bit_vector)
        requires
            k < 64,
    ;
}

proof fn lemma_all_clear(words: [u64; 16])
    requires
        forall|i: int| 0 <= i < 16 ==> words[i] == 0,
    ensures
        members(words) == Set::<int>::empty(),
{
    assert forall|fd: int| !#[trigger] holds(words, fd) by {
        if 0 <= fd < FD_SETSIZE {
            lemma_bit_clear((fd % 64) as u64);
        }
    }
    assert(members(words) =~= Set::<int>::empty());
}

/// Three bitmaps of `FD_SETSIZE` bits each: interest in (or readiness for)
/// reading, the same for writing, and the exceptional conditions, which the
/// poll primitive asks for and nothing here ever marks.
pub struct Fds {
    read: [u64; 16],
    write: [u64; 16],
    except: [u64; 16],
}

impl View for Fds {
    type V = Marks;

    closed spec fn view(&self) -> Marks {
        Marks { read: members(self.read), write: members(self.write), except: members(self.except) }
    }
}

impl Fds {
    /// Bitsets with nothing marked.
    pub fn new() -> (fds: Fds)
        ensures
            fds@ == Marks::none(),
    {
        let fds = Fds { read: [0u64; 16], write: [0u64; 16], except: [0u64; 16] };
        proof {
            lemma_all_clear(fds.read);
            lemma_all_clear(fds.write);
            lemma_all_clear(fds.except);
        }
        fds
    }

    /// Whatever is marked is a descriptor that the bitsets can hold.
    pub proof fn lemma_marks_fit(self)
        ensures
            forall|fd: int, event: Event| #[trigger] self@.marked(fd, event) ==> 0 <= fd < FD_SETSIZE,
            forall|fd: int| #[trigger] self@.except.contains(fd) ==> 0 <= fd < FD_SETSIZE,
    {
        assert forall|fd: int, event: Event| #[trigger] self@.marked(fd, event) implies 0 <= fd
            < FD_SETSIZE by {
            assert(holds(self.read, fd) || holds(self.write, fd));
        }
        assert forall|fd: int| #[trigger] self@.except.contains(fd) implies 0 <= fd < FD_SETSIZE by {
            assert(holds(self.except, fd));
        }
    }

    /// Clears all three bitmaps.
    pub fn zero(&mut self)
        ensures
            final(self)@ == Marks::none(),
    {
        *self = Fds::new();
    }

    /// Whether `fd` is marked for `event`. A descriptor that the bitsets
    /// cannot hold is marked for nothing.
    pub fn is_set(&self, fd: i32, event: Event) -> (marked: bool)
        ensures
            marked == self@.marked(fd as int, event),
    {
        if fd < 0 || fd >= FD_SETSIZE as i32 {
            return false;
        }
        let word: usize = fd as usize / 64;
        let bit: u64 = (fd as usize % 64) as u64;
        match event {
            Event::Read => (self.read[word] >> bit) & 1 == 1,
            Event::Write => (self.write[word] >> bit) & 1 == 1,
        }
    }

    /// Marks `fd` for `event`.
    pub fn set(&mut self, fd: i32, event: Event)
        requires
            0 <= fd < FD_SETSIZE,
        ensures
            final(self)@ == old(self)@.with(fd as int, event),
    {
        let word: usize = fd as usize / 64;
        let bit: u64 = (fd as usize % 64) as u64;
        match event {
            Event::Read => {
                let before: u64 = self.read[word];
                self.read[word] = before | (1u64 << bit);
                proof {
                    assert forall|f: int| #[trigger] holds(self.read, f) == (holds(old(self).read, f) || f == fd) by {
                        if 0 <= f < FD_SETSIZE && f / 64 == word {
                            lemma_bit_set(before, bit, (f % 64) as u64);
                        }
                    }
                    assert(final(self)@.read =~= old(self)@.read.insert(fd as int));
                }
            },
            Event::Write => {
                let before: u64 = self.write[word];
                self.write[word] = before | (1u64 << bit);
                proof {
                    assert forall|f: int| #[trigger] holds(self.write, f) == (holds(old(self).write, f) || f == fd) by {
                        if 0 <= f < FD_SETSIZE && f / 64 == word {
                            lemma_bit_set(before, bit, (f % 64) as u64);
                        }
                    }
                    assert(final(self)@.write =~= old(self)@.write.insert(fd as int));
                }
            },
        }
    }
}

} // verus!
