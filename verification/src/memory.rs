//! Words, addressable memory and the call stack.

use vstd::prelude::*;
use vstd::slice::slice_subrange;
use crate::fault::Fault;

verus! {

/// An 8-bit machine value.
pub type Byte = u8;

/// A 16-bit machine value that keeps its two bytes at hand: addresses,
/// opcodes and the wide registers are words.
///
/// The three fields always agree: `high` holds bits 8 to 15 of `full` and
/// `low` holds bits 0 to 7. Arithmetic on a word wraps at sixteen bits, as
/// a register of that width does.
#[derive(Clone, Copy, Debug, PartialEq, Eq)]
pub struct Word {
    full: u16,
    high: Byte,
    low: Byte,
}

/// The upper eight bits of a 16-bit value.
pub open spec fn high_byte(full: u16) -> u8 {
    (full / 256) as u8
}

/// The lower eight bits of a 16-bit value.
pub open spec fn low_byte(full: u16) -> u8 {
    (full % 256) as u8
}

/// The 16-bit value whose upper byte is `high` and whose lower byte is `low`.
pub open spec fn join_bytes(high: u8, low: u8) -> u16 {
    (high * 256 + low) as u16
}

/// The sum of `full` and `n` kept to sixteen bits.
pub open spec fn wrap_add16(full: u16, n: u16) -> u16 {
    ((full + n) % 0x1_0000) as u16
}

/// The difference of `full` and `n` kept to sixteen bits.
pub open spec fn wrap_sub16(full: u16, n: u16) -> u16 {
    ((full - n) % 0x1_0000) as u16
}

impl View for Word {
    type V = u16;

    closed spec fn view(&self) -> u16 {
        self.full
    }
}

impl Word {
    #[verifier::type_invariant]
    spec fn bytes_agree(self) -> bool {
        self.high == high_byte(self.full) && self.low == low_byte(self.full)
    }

    /// The word that stands for `full` in contracts.
    pub closed spec fn of(full: u16) -> Word {
        Word { full, high: high_byte(full), low: low_byte(full) }
    }

    /// `Word::of` keeps the value it is given.
    pub proof fn lemma_of(full: u16)
        ensures
            Word::of(full)@ == full,
    {
    }

    /// The word for `full`, with both bytes taken from it.
    pub fn new_from_full(full: u16) -> (word: Word)
        ensures
            word == Word::of(full),
            word@ == full,
    {
        let high: u16 = (full & 0xFF00) >> 8;
        let low: u16 = full & 0x00FF;
        assert(high == full / 256 && low == full % 256) by (bit_vector)
            requires
                high == (full & 0xFF00) >> 8,
                low == full & 0x00FF,
        ;
        Word { full, high: high as Byte, low: low as Byte }
    }

    /// The word whose upper byte is `high` and whose lower byte is `low`.
    pub fn new_from_bytes(high: Byte, low: Byte) -> (word: Word)
        ensures
            word == Word::of(join_bytes(high, low)),
            word@ == join_bytes(high, low),
    {
        let shifted: u16 = (high as u16) << 8;
        assert(shifted == high * 256) by (bit_vector)
            requires
                shifted == (high as u16) << 8,
        ;
        Word { full: shifted + low as u16, high, low }
    }

    /// The whole value.
    pub fn full(&self) -> (full: u16)
        ensures
            full == self@,
            *self == Word::of(self@),
    {
        proof {
            use_type_invariant(self);
        }
        self.full
    }

    /// The upper byte.
    pub fn high(&self) -> (high: u8)
        ensures
            high == high_byte(self@),
            *self == Word::of(self@),
    {
        proof {
            use_type_invariant(self);
        }
        self.high
    }

    /// The lower byte.
    pub fn low(&self) -> (low: u8)
        ensures
            low == low_byte(self@),
            *self == Word::of(self@),
    {
        proof {
            use_type_invariant(self);
        }
        self.low
    }

    /// The word `n` further on, wrapping at sixteen bits.
    pub fn offset(&self, n: u16) -> (word: Word)
        ensures
            word == Word::of(wrap_add16(self@, n)),
            word@ == wrap_add16(self@, n),
    {
        Word::new_from_full(self.full.wrapping_add(n))
    }

    /// Moves this word forward by `n`, wrapping at sixteen bits.
    pub fn advance(&mut self, n: u16)
        ensures
            *final(self) == Word::of(wrap_add16(old(self)@, n)),
            final(self)@ == wrap_add16(old(self)@, n),
    {
        *self = Word::new_from_full(self.full.wrapping_add(n));
    }

    /// Moves this word back by `n`, wrapping at sixteen bits.
    pub fn rewind(&mut self, n: u16)
        ensures
            *final(self) == Word::of(wrap_sub16(old(self)@, n)),
            final(self)@ == wrap_sub16(old(self)@, n),
    {
        *self = Word::new_from_full(self.full.wrapping_sub(n));
    }
}

/// The deepest the call stack may grow. The stack never grows past this
/// depth: a call that finds it full is a fault.
pub const STACK_DEPTH: usize = 16;

/// Where the built-in glyphs start in memory.
pub const FONT_START: u16 = 0x0;

/// How many bytes one glyph takes.
pub const GLYPH_SIZE: u16 = 5;

/// Byte-addressed memory together with the stack of return addresses.
#[derive(Debug)]
pub struct Memory {
    memory: Vec<Byte>,
    stack: Vec<Word>,
    depth: usize,
    memory_size: usize,
}

/// What a `Memory` holds: its bytes by address, and the return addresses on
/// its stack, oldest first.
pub struct MemoryState {
    pub bytes: Seq<u8>,
    pub stack: Seq<u16>,
}

impl MemoryState {
    /// The stack is within its depth.
    pub open spec fn wf(self) -> bool {
        self.stack.len() <= STACK_DEPTH
    }

    /// Whether the `length` bytes from `start` on all lie inside memory.
    pub open spec fn holds(self, start: int, length: int) -> bool {
        0 <= start && 0 <= length && start + length <= self.bytes.len()
    }

    /// The state after `data` has been stored from `start` on.
    pub open spec fn store(self, start: int, data: Seq<u8>) -> MemoryState {
        MemoryState {
            bytes: Seq::new(
                self.bytes.len(),
                |a: int|
                    if start <= a < start + data.len() {
                        data[a - start]
                    } else {
                        self.bytes[a]
                    },
            ),
            stack: self.stack,
        }
    }

    /// The first address outside memory among those from `start` on.
    pub open spec fn first_outside(self, start: int) -> int {
        if start >= self.bytes.len() {
            start
        } else {
            self.bytes.len() as int
        }
    }
}

impl View for Memory {
    type V = MemoryState;

    closed spec fn view(&self) -> MemoryState {
        MemoryState {
            bytes: self.memory@,
            stack: Seq::new(self.depth as nat, |k: int| self.stack@[k]@),
        }
    }
}

impl Memory {
    #[verifier::type_invariant]
    spec fn inv(self) -> bool {
        &&& self.memory@.len() == self.memory_size
        &&& self.stack@.len() == STACK_DEPTH
        &&& self.depth <= STACK_DEPTH
    }

    /// A memory of `memory_size` zero bytes with an empty stack.
    pub fn new(memory_size: usize) -> (memory: Memory)
        ensures
            memory@.bytes == Seq::new(memory_size as nat, |a: int| 0u8),
            memory@.stack == Seq::<u16>::empty(),
    {
        let memory = Memory {
            memory: vec![0; memory_size],
            stack: vec![Word::new_from_full(0); STACK_DEPTH],
            depth: 0,
            memory_size,
        };
        assert(memory@.bytes =~= Seq::new(memory_size as nat, |a: int| 0u8));
        assert(memory@.stack =~= Seq::<u16>::empty());
        memory
    }

    /// The number of bytes in this memory.
    pub fn size(&self) -> (size: usize)
        ensures
            size == self@.bytes.len(),
            self@.wf(),
    {
        proof {
            use_type_invariant(self);
        }
        self.memory_size
    }

    /// The byte at `address`.
    pub fn read(&self, address: &Word) -> (value: Byte)
        requires
            address@ < self@.bytes.len(),
        ensures
            value == self@.bytes[address@ as int],
    {
        self.memory[address.full as usize]
    }

    /// Stores `value` at `address`.
    pub fn write(&mut self, address: &Word, value: Byte)
        requires
            address@ < old(self)@.bytes.len(),
        ensures
            final(self)@.bytes == old(self)@.bytes.update(address@ as int, value),
            final(self)@.stack == old(self)@.stack,
    {
        proof {
            use_type_invariant(&*self);
        }
        self.memory[address.full as usize] = value;
        assert(self@.stack =~= old(self)@.stack);
    }

    /// The byte at `address`, or the fault if `address` lies outside memory.
    pub fn try_read(&self, address: &Word) -> (read: Result<Byte, Fault>)
        ensures
            read == if address@ < self@.bytes.len() {
                Ok::<Byte, Fault>(self@.bytes[address@ as int])
            } else {
                Err::<Byte, Fault>(Fault::OutOfRange { address: address@ as usize })
            },
    {
        match self.check_range(address, 1) {
            Err(fault) => Err(fault),
            Ok(()) => Ok(self.read(address)),
        }
    }

    /// Stores `value` at `address`, or gives the fault, and stores nothing,
    /// if `address` lies outside memory.
    pub fn try_write(&mut self, address: &Word, value: Byte) -> (written: Result<(), Fault>)
        ensures
            final(self)@.stack == old(self)@.stack,
            address@ < old(self)@.bytes.len() ==> written is Ok && final(self)@.bytes == old(
                self,
            )@.bytes.update(address@ as int, value),
            address@ >= old(self)@.bytes.len() ==> written == Err::<(), Fault>(
                Fault::OutOfRange { address: address@ as usize },
            ) && final(self)@.bytes == old(self)@.bytes,
    {
        match self.check_range(address, 1) {
            Err(fault) => Err(fault),
            Ok(()) => {
                self.write(address, value);
                Ok(())
            },
        }
    }

    /// Whether the `length` bytes from `start` on all lie inside memory; if
    /// not, the fault names the first address that does not.
    pub fn check_range(&self, start: &Word, length: usize) -> (checked: Result<(), Fault>)
        ensures
            self@.holds(start@ as int, length as int) <==> checked is Ok,
            checked is Err ==> checked == Err::<(), Fault>(
                Fault::OutOfRange { address: self@.first_outside(start@ as int) as usize },
            ),
            self@.first_outside(start@ as int) <= usize::MAX,
    {
        proof {
            use_type_invariant(self);
        }
        let first = start.full as usize;
        if length <= self.memory_size && first <= self.memory_size - length {
            Ok(())
        } else if first >= self.memory_size {
            Err(Fault::OutOfRange { address: first })
        } else {
            Err(Fault::OutOfRange { address: self.memory_size })
        }
    }

    /// The `length` bytes from `start` on.
    pub fn read_slice(&self, start: &Word, length: Byte) -> (bytes: &[Byte])
        requires
            self@.holds(start@ as int, length as int),
        ensures
            bytes@ == self@.bytes.subrange(start@ as int, start@ + length),
    {
        let first = start.full as usize;
        slice_subrange(self.memory.as_slice(), first, first + length as usize)
    }

    /// Stores `data` from `start` on.
    pub fn write_slice(&mut self, start: &Word, data: &[Byte])
        requires
            old(self)@.holds(start@ as int, data@.len() as int),
        ensures
            final(self)@ == old(self)@.store(start@ as int, data@),
    {
        proof {
            use_type_invariant(&*self);
        }
        let first = start.full as usize;
        let mut k: usize = 0;
        while k < data.len()
            invariant
                k <= data@.len(),
                first == start@,
                first + data@.len() <= self.memory@.len(),
                self.memory@.len() == self.memory_size,
                self.memory@.len() == old(self).memory@.len(),
                self.stack == old(self).stack,
                self.depth == old(self).depth,
                self.stack@.len() == STACK_DEPTH,
                self.depth <= STACK_DEPTH,
                forall|a: int|
                    0 <= a < self.memory@.len() ==> self.memory@[a] == (if first <= a < first + k {
                        data@[a - first]
                    } else {
                        old(self).memory@[a]
                    }),
            decreases data@.len() - k,
        {
            self.memory[first + k] = data[k];
            k += 1;
        }
        assert(self@.bytes =~= old(self)@.store(start@ as int, data@).bytes);
    }

    /// Takes the newest return address off the stack, if there is one.
    pub fn pop_stack(&mut self) -> (popped: Option<Word>)
        ensures
            final(self)@.bytes == old(self)@.bytes,
            match popped {
                None => old(self)@.stack.len() == 0 && final(self)@.stack == old(self)@.stack,
                Some(word) => {
                    &&& old(self)@.stack.len() > 0
                    &&& word == Word::of(old(self)@.stack.last())
                    &&& word@ == old(self)@.stack.last()
                    &&& final(self)@.stack == old(self)@.stack.drop_last()
                },
            },
    {
        proof {
            use_type_invariant(&*self);
        }
        if self.depth == 0 {
            None
        } else {
            self.depth -= 1;
            let word = self.stack[self.depth];
            proof {
                use_type_invariant(&word);
                assert(self@.stack =~= old(self)@.stack.drop_last());
            }
            Some(word)
        }
    }

    /// Puts `value` on the stack as the newest return address.
    pub fn push_stack(&mut self, value: Word)
        requires
            old(self)@.stack.len() < STACK_DEPTH,
        ensures
            final(self)@.bytes == old(self)@.bytes,
            final(self)@.stack == old(self)@.stack.push(value@),
    {
        proof {
            use_type_invariant(&*self);
        }
        self.stack[self.depth] = value;
        self.depth += 1;
        assert(self@.stack =~= old(self)@.stack.push(value@));
    }

    /// How many return addresses are on the stack.
    pub fn stack_depth(&self) -> (depth: usize)
        ensures
            depth == self@.stack.len(),
            depth <= STACK_DEPTH,
    {
        proof {
            use_type_invariant(self);
        }
        self.depth
    }

    /// Where the glyph for `font_code` starts.
    pub fn get_font(&self, font_code: Byte) -> (address: Word)
        ensures
            address == Word::of(glyph_address(font_code)),
            address@ == glyph_address(font_code),
    {
        Word::new_from_full(FONT_START + GLYPH_SIZE * (font_code as u16))
    }

    /// The addresses from `start` to `end`, both included, that lie inside
    /// memory, each with the byte it holds, in rising order.
    pub fn mem_section(&self, start: u16, end: u16) -> (section: Vec<(usize, Byte)>)
        ensures
            section@ == section_of(self@.bytes, start as int, end as int),
    {
        proof {
            use_type_invariant(self);
        }
        let stop: usize = if (end as usize) < self.memory_size {
            end as usize + 1
        } else {
            self.memory_size
        };
        let mut section: Vec<(usize, Byte)> = Vec::new();
        let mut address: usize = start as usize;
        while address < stop
            invariant
                stop == section_stop(self@.bytes, end as int),
                stop <= self.memory@.len(),
                start <= address,
                address <= stop || address == start,
                section@.len() == address - start,
                forall|k: int|
                    0 <= k < section@.len() ==> section@[k] == (
                        (start + k) as usize,
                        self.memory@[start + k],
                    ),
            decreases stop - address,
        {
            section.push((address, self.memory[address]));
            address += 1;
        }
        assert(section@ =~= section_of(self@.bytes, start as int, end as int));
        section
    }
}

/// Where the glyph for `font_code` starts: glyphs lie one after another from
/// `FONT_START` on.
pub open spec fn glyph_address(font_code: u8) -> u16 {
    (FONT_START + GLYPH_SIZE * font_code) as u16
}

/// One past the last address of `bytes` that is at most `end`.
pub open spec fn section_stop(bytes: Seq<u8>, end: int) -> int {
    if end < bytes.len() {
        end + 1
    } else {
        bytes.len() as int
    }
}

/// The addresses of `bytes` from `start` to `end`, both included, each with
/// its byte, in rising order.
pub open spec fn section_of(bytes: Seq<u8>, start: int, end: int) -> Seq<(usize, u8)> {
    Seq::new(
        if section_stop(bytes, end) > start {
            (section_stop(bytes, end) - start) as nat
        } else {
            0
        },
        |k: int| ((start + k) as usize, bytes[start + k]),
    )
}

} // verus!
