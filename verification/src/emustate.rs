//! The whole machine and its cycle.

use vstd::prelude::*;
use crate::cpu::Cpu;
use crate::decoder::decode;
use crate::decoder::instruction_of;
use crate::decoder::Instruction;
use crate::display::frame_of;
use crate::display::Display;
use crate::display::DisplayState;
use crate::display::Pixel;
use crate::fault::Fault;
use crate::fault::Halt;
use crate::fault::Quit;
use crate::font::FONTS;
use crate::machine::CpuState;
use crate::machine::Machine;
use crate::machine::Outcome;
use crate::machine::KEY_COUNT;
use crate::memory::join_bytes;
use crate::memory::wrap_add16;
use crate::memory::Byte;
use crate::memory::Memory;
use crate::memory::MemoryState;
use crate::memory::Word;
use crate::memory::FONT_START;

verus! {

/// Where programs are loaded and where the program counter starts.
pub const PC_START: u16 = 0x200;

/// How many bytes of memory the machine has.
pub const MEMORY_SIZE: usize = 4096;

/// Processor, memory and display of one machine.
pub struct Chip8State {
    cpu: Cpu,
    memory: Memory,
    display: Display,
}

/// The machine after a fetch, and the opcode fetched or the fault met.
pub struct Fetched {
    pub machine: Machine,
    pub result: Result<u16, Fault>,
}

/// The machine after a cycle, and how the cycle ended: with a frame for the
/// host to paint, with nothing to paint, or with the reason why it did not
/// complete.
pub struct Cycle {
    pub machine: Machine,
    pub result: Result<Option<Seq<Pixel>>, Halt>,
}

impl Machine {
    /// The machine as it is switched on: registers and memory zero, the
    /// display blank, the program counter at `PC_START`.
    pub open spec fn power_on() -> Machine {
        Machine {
            cpu: CpuState::reset(PC_START),
            memory: MemoryState {
                bytes: Seq::new(MEMORY_SIZE as nat, |a: int| 0u8),
                stack: Seq::empty(),
            },
            display: DisplayState::blank(false),
        }
    }

    /// After storing `data` from `start` on, where it fits: else the fault,
    /// and memory as it was.
    pub open spec fn install(self, start: u16, data: Seq<u8>) -> (Machine, Result<(), Fault>) {
        if self.memory.holds(start as int, data.len() as int) {
            (Machine { memory: self.memory.store(start as int, data), ..self }, Ok(()))
        } else {
            (
                self,
                Err(
                    Fault::OutOfRange {
                        address: self.memory.first_outside(start as int) as usize,
                    },
                ),
            )
        }
    }

    /// After a fetch: the opcode is the byte at the program counter, as
    /// the upper half, with the byte after it, and the program counter
    /// has moved past both. Where either byte lies outside memory, the fetch
    /// is a fault and nothing moves.
    pub open spec fn fetch(self) -> Fetched {
        let pc = self.cpu.pc as int;
        if self.memory.holds(pc, 2) {
            Fetched {
                machine: Machine {
                    cpu: CpuState { pc: wrap_add16(self.cpu.pc, 2), ..self.cpu },
                    ..self
                },
                result: Ok(join_bytes(self.memory.bytes[pc], self.memory.bytes[pc + 1])),
            }
        } else {
            Fetched {
                machine: self,
                result: Err(
                    Fault::OutOfRange { address: self.memory.first_outside(pc) as usize },
                ),
            }
        }
    }

    /// After the host has been handed the frame, if the display had changed.
    pub open spec fn rendered(self) -> Cycle {
        if self.display.changed {
            Cycle {
                machine: Machine {
                    display: DisplayState { changed: false, ..self.display },
                    ..self
                },
                result: Ok(Some(frame_of(self.display.pixels))),
            }
        } else {
            Cycle { machine: self, result: Ok(None) }
        }
    }

    /// One cycle: fetch, decode, execute, render. An opcode that names no
    /// instruction stops the cycle before the host's input is looked at;
    /// a request to leave stops it before the instruction runs. `random`
    /// is the byte that the random source gave.
    pub open spec fn cycle(self, input: Result<Seq<bool>, Quit>, random: u8) -> Cycle {
        let counter = self.cpu.pc;
        let fetched = self.fetch();
        match fetched.result {
            Err(fault) => Cycle {
                machine: fetched.machine,
                result: Err(Halt::Fault { fault, counter }),
            },
            Ok(opcode) => {
                let instruction = instruction_of(opcode);
                if instruction is Unknown {
                    Cycle {
                        machine: fetched.machine,
                        result: Err(
                            Halt::Fault { fault: Fault::UnknownOpcode(opcode), counter },
                        ),
                    }
                } else {
                    match input {
                        Err(_) => Cycle { machine: fetched.machine, result: Err(Halt::Quit) },
                        Ok(keys) => fetched.machine.step(instruction, keys, random).rendered(
                            counter,
                        ),
                    }
                }
            },
        }
    }
}

impl Outcome {
    /// The end of the cycle that began with the program counter at
    /// `counter` and in which an instruction had this outcome: after a
    /// fault the cycle ends with it; otherwise the host is handed the frame
    /// if the display has changed.
    pub open spec fn rendered(self, counter: u16) -> Cycle {
        match self.result {
            Err(fault) => Cycle {
                machine: self.machine,
                result: Err(Halt::Fault { fault, counter }),
            },
            Ok(_) => self.machine.rendered(),
        }
    }
}

impl View for Chip8State {
    type V = Machine;

    closed spec fn view(&self) -> Machine {
        Machine { cpu: self.cpu@, memory: self.memory@, display: self.display@ }
    }
}

impl Chip8State {
    /// A machine as it is switched on.
    pub fn new() -> (state: Chip8State)
        ensures
            state@ == Machine::power_on(),
            state@.wf(),
    {
        Chip8State { cpu: Cpu::new(), memory: Memory::new(MEMORY_SIZE), display: Display::new() }
    }

    /// Stores `program` from `PC_START` on. A program that does not fit is
    /// a fault, and leaves memory as it was.
    pub fn load_instructions(&mut self, program: Vec<Byte>) -> (loaded: Result<(), Fault>)
        ensures
            (final(self)@, loaded) == old(self)@.install(PC_START, program@),
    {
        let start = Word::new_from_full(PC_START);
        match self.memory.check_range(&start, program.len()) {
            Err(fault) => Err(fault),
            Ok(()) => {
                self.memory.write_slice(&start, program.as_slice());
                Ok(())
            },
        }
    }

    /// Stores the built-in glyphs from `FONT_START` on.
    pub fn load_font(&mut self) -> (loaded: Result<(), Fault>)
        ensures
            (final(self)@, loaded) == old(self)@.install(FONT_START, FONTS@),
    {
        let start = Word::new_from_full(FONT_START);
        match self.memory.check_range(&start, FONTS.len()) {
            Err(fault) => Err(fault),
            Ok(()) => {
                self.memory.write_slice(&start, FONTS.as_slice());
                Ok(())
            },
        }
    }

    /// Fetches the opcode at the program counter and moves the program
    /// counter past it.
    pub fn fetch_instruction(&mut self) -> (fetched: Result<Word, Fault>)
        ensures
            final(self)@ == old(self)@.fetch().machine,
            match fetched {
                Ok(opcode) => old(self)@.fetch().result == Ok::<u16, Fault>(opcode@),
                Err(fault) => old(self)@.fetch().result == Err::<u16, Fault>(fault),
            },
    {
        match self.memory.check_range(self.cpu.program_counter(), 2) {
            Err(fault) => Err(fault),
            Ok(()) => {
                let bytes = self.memory.read_slice(self.cpu.program_counter(), 2);
                let opcode = Word::new_from_bytes(bytes[0], bytes[1]);
                let counter = self.cpu.program_counter_mut();
                counter.advance(2);
                Ok(opcode)
            },
        }
    }

    /// Runs one cycle on what the host's poll gave: the states of the
    /// sixteen keys, or the request to leave. Returns the frame to paint
    /// where the display has changed. The random byte of `RND` is drawn
    /// from the thread's generator, so the cycle is the one that `cycle`
    /// gives for some byte.
    pub fn run_next_cycle(&mut self, input: Result<Vec<bool>, Quit>) -> (result: Result<
        Option<Vec<Pixel>>,
        Halt,
    >)
        requires
            input matches Ok(keys) ==> keys@.len() == KEY_COUNT,
        ensures
            exists|random: u8|
                final(self)@ == (#[trigger] old(self)@.cycle(keys_of(input), random)).machine
                    && frame_view(result) == old(self)@.cycle(keys_of(input), random).result,
    {
        let counter = self.cpu.program_counter().full();
        let (instruction, keys) = match self.begin(input) {
            Err(halt) => {
                assert(self@ == old(self)@.cycle(keys_of(input), 0).machine);
                return Err(halt);
            },
            Ok(begun) => begun,
        };
        let ghost fetched = self@;
        let ran = self.cpu.run_instruction(
            instruction,
            &mut self.memory,
            &mut self.display,
            keys.as_slice(),
        );
        let ghost random = choose|random: u8|
            (Outcome { machine: self@, result: ran }) == #[trigger] fetched.step(
                instruction,
                keys@,
                random,
            );
        let result = self.finish(ran, counter);
        assert(self@ == old(self)@.cycle(keys_of(input), random).machine);
        assert(frame_view(result) == old(self)@.cycle(keys_of(input), random).result);
        result
    }

    /// Runs one cycle as `run_next_cycle` does, with `random` as the byte
    /// that `RND` receives.
    pub fn run_next_cycle_with(&mut self, input: Result<Vec<bool>, Quit>, random: Byte) -> (result:
        Result<Option<Vec<Pixel>>, Halt>)
        requires
            input matches Ok(keys) ==> keys@.len() == KEY_COUNT,
        ensures
            final(self)@ == old(self)@.cycle(keys_of(input), random).machine,
            frame_view(result) == old(self)@.cycle(keys_of(input), random).result,
    {
        let counter = self.cpu.program_counter().full();
        let (instruction, keys) = match self.begin(input) {
            Err(halt) => {
                return Err(halt);
            },
            Ok(begun) => begun,
        };
        let ran = self.cpu.execute(
            instruction,
            &mut self.memory,
            &mut self.display,
            keys.as_slice(),
            random,
        );
        self.finish(ran, counter)
    }

    /// The first half of a cycle: fetches and decodes, and looks at the
    /// host's input. Gives the instruction to run with the key states, or
    /// the reason why the cycle ends here.
    fn begin(&mut self, input: Result<Vec<bool>, Quit>) -> (begun: Result<
        (Instruction, Vec<bool>),
        Halt,
    >)
        requires
            input matches Ok(keys) ==> keys@.len() == KEY_COUNT,
        ensures
            final(self)@ == old(self)@.fetch().machine,
            match begun {
                Err(halt) => forall|random: u8|
                    #![trigger old(self)@.cycle(keys_of(input), random)]
                    old(self)@.cycle(keys_of(input), random) == (Cycle {
                        machine: final(self)@,
                        result: Err(halt),
                    }),
                Ok((instruction, keys)) => {
                    &&& old(self)@.fetch().result matches Ok(opcode)
                    &&& instruction == instruction_of(opcode)
                    &&& !(instruction is Unknown)
                    &&& instruction.wf()
                    &&& input == Ok::<Vec<bool>, Quit>(keys)
                    &&& keys@.len() == KEY_COUNT
                },
            },
    {
        let counter = self.cpu.program_counter().full();
        let opcode = match self.fetch_instruction() {
            Err(fault) => {
                return Err(Halt::Fault { fault, counter });
            },
            Ok(opcode) => opcode,
        };
        let instruction = decode(opcode);
        if let Instruction::Unknown(_) = instruction {
            return Err(Halt::Fault { fault: Fault::UnknownOpcode(opcode.full()), counter });
        }
        match input {
            Err(_) => Err(Halt::Quit),
            Ok(keys) => Ok((instruction, keys)),
        }
    }

    /// The second half of a cycle, which began with the program counter at
    /// `counter`: after an instruction that ran to its end, takes the frame
    /// if the display has changed.
    fn finish(&mut self, ran: Result<(), Fault>, counter: u16) -> (result: Result<
        Option<Vec<Pixel>>,
        Halt,
    >)
        ensures
            (Cycle { machine: final(self)@, result: frame_view(result) }) == (Outcome {
                machine: old(self)@,
                result: ran,
            }).rendered(counter),
    {
        match ran {
            Err(fault) => Err(Halt::Fault { fault, counter }),
            Ok(()) => {
                if self.display.vram_changed() {
                    let frame = self.display.refresh_display();
                    Ok(Some(frame))
                } else {
                    Ok(None)
                }
            },
        }
    }

    /// The processor.
    pub fn cpu(&self) -> (cpu: &Cpu)
        ensures
            cpu@ == self@.cpu,
    {
        &self.cpu
    }

    /// The memory.
    pub fn memory(&self) -> (memory: &Memory)
        ensures
            memory@ == self@.memory,
    {
        &self.memory
    }

    /// The display.
    pub fn display(&self) -> (display: &Display)
        ensures
            display@ == self@.display,
    {
        &self.display
    }

    /// Whether the tone is to sound.
    pub fn tone_active(&self) -> (active: bool)
        ensures
            active == (self@.cpu.sound > 0),
    {
        self.cpu.tone_active()
    }
}

/// The key states of a poll as a sequence.
pub open spec fn keys_of(input: Result<Vec<bool>, Quit>) -> Result<Seq<bool>, Quit> {
    match input {
        Ok(keys) => Ok(keys@),
        Err(quit) => Err(quit),
    }
}

/// The end of a cycle with its frame as a sequence.
pub open spec fn frame_view(result: Result<Option<Vec<Pixel>>, Halt>) -> Result<
    Option<Seq<Pixel>>,
    Halt,
> {
    match result {
        Ok(Some(frame)) => Ok(Some(frame@)),
        Ok(None) => Ok(None),
        Err(halt) => Err(halt),
    }
}

} // verus!
