//! The machine as a mathematical value, and what each instruction makes of
//! it. The executable parts are held to these definitions.

use vstd::prelude::*;
use crate::decoder::Instruction;
use crate::display::DisplayState;
use crate::fault::Fault;
use crate::memory::glyph_address;
use crate::memory::wrap_add16;
use crate::memory::wrap_sub16;
use crate::memory::MemoryState;
use crate::memory::STACK_DEPTH;

verus! {

/// How many general registers there are.
pub const REGISTER_COUNT: usize = 16;

/// The register that arithmetic, shifts and drawing overwrite with a flag.
pub const FLAG_REGISTER: u8 = 0xF;

/// How many keys the keypad has.
pub const KEY_COUNT: usize = 16;

/// The processor's registers: sixteen general ones, the index register, the
/// stack pointer, the two timers and the program counter.
pub struct CpuState {
    pub v: Seq<u8>,
    pub i: u16,
    pub sp: u16,
    pub sound: u8,
    pub delay: u8,
    pub pc: u16,
}

/// Processor, memory and display together.
pub struct Machine {
    pub cpu: CpuState,
    pub memory: MemoryState,
    pub display: DisplayState,
}

/// The machine after an instruction, and whether the instruction ran to its
/// end or met a fault.
pub struct Outcome {
    pub machine: Machine,
    pub result: Result<(), Fault>,
}

/// 1 if `condition` holds, else 0.
pub open spec fn flag(condition: bool) -> u8 {
    if condition {
        1
    } else {
        0
    }
}

/// A timer one cycle later: one less, unless it has run out.
pub open spec fn ticked(timer: u8) -> u8 {
    if timer > 0 {
        (timer - 1) as u8
    } else {
        0
    }
}

/// The sum of two bytes kept to eight bits.
pub open spec fn wrap_add8(a: u8, b: u8) -> u8 {
    ((a + b) % 256) as u8
}

/// The difference of two bytes kept to eight bits.
pub open spec fn wrap_sub8(a: u8, b: u8) -> u8 {
    ((a - b) % 256) as u8
}

/// The three decimal digits of a byte: hundreds, tens, ones.
pub open spec fn bcd_of(value: u8) -> Seq<u8> {
    seq![value / 100, (value / 10) % 10, value % 10]
}

/// Whether `key` is pressed and no key below it is.
pub open spec fn is_first_pressed(keys: Seq<bool>, key: int) -> bool {
    &&& 0 <= key < keys.len()
    &&& keys[key]
    &&& forall|k: int| 0 <= k < key ==> !keys[k]
}

/// Whether some key is pressed.
pub open spec fn any_pressed(keys: Seq<bool>) -> bool {
    exists|key: int| 0 <= key < keys.len() && keys[key]
}

/// The lowest pressed key, where one is pressed.
pub open spec fn first_pressed(keys: Seq<bool>) -> int {
    choose|key: int| is_first_pressed(keys, key)
}

impl CpuState {
    /// All sixteen registers are there.
    pub open spec fn wf(self) -> bool {
        self.v.len() == REGISTER_COUNT
    }

    /// The state a processor starts in: everything zero, the program
    /// counter at `pc`.
    pub open spec fn reset(pc: u16) -> CpuState {
        CpuState {
            v: Seq::new(REGISTER_COUNT as nat, |r: int| 0u8),
            i: 0,
            sp: 0,
            sound: 0,
            delay: 0,
            pc,
        }
    }

    /// With register `register` set to `value`.
    pub open spec fn set(self, register: u8, value: u8) -> CpuState {
        CpuState { v: self.v.update(register as int, value), ..self }
    }

    /// With the program counter moved past the next instruction if
    /// `condition` holds.
    pub open spec fn skip_if(self, condition: bool) -> CpuState {
        if condition {
            CpuState { pc: wrap_add16(self.pc, 2), ..self }
        } else {
            self
        }
    }

    /// With both timers one cycle on.
    pub open spec fn tick(self) -> CpuState {
        CpuState { delay: ticked(self.delay), sound: ticked(self.sound), ..self }
    }

    /// After the addition of `value` into register `x`: the flag register
    /// receives the carry of `Vx + value`; then `Vx`, read again, is raised
    /// by `value` and kept to eight bits. So where `x` is the flag register
    /// itself, it ends as the carry raised by `value`.
    pub open spec fn add_value(self, x: u8, value: u8) -> CpuState {
        let flagged = self.set(FLAG_REGISTER, flag(self.v[x as int] + value > 255));
        flagged.set(x, wrap_add8(flagged.v[x as int], value))
    }

    /// After the addition of register `y` into register `x`: the flag
    /// register receives the carry of `Vx + Vy`; then both registers are
    /// read again and `Vx` receives their sum kept to eight bits. So a
    /// summand that lies in the flag register is the carry by then.
    pub open spec fn add_register(self, x: u8, y: u8) -> CpuState {
        let flagged = self.set(
            FLAG_REGISTER,
            flag(self.v[x as int] + self.v[y as int] > 255),
        );
        flagged.set(x, wrap_add8(flagged.v[x as int], flagged.v[y as int]))
    }

    /// After a subtraction into register `x` of `subtrahend` from `minuend`:
    /// the flag register receives 1 if the minuend is the greater, else 0,
    /// then `Vx` receives the difference kept to eight bits.
    pub open spec fn subtract(self, x: u8, minuend: u8, subtrahend: u8) -> CpuState {
        self.set(FLAG_REGISTER, flag(minuend > subtrahend)).set(x, wrap_sub8(minuend, subtrahend))
    }

    /// After a shift of register `x` one bit to the right: the flag register
    /// receives the bit shifted out, then `Vx` the shifted value.
    pub open spec fn shift_right(self, x: u8) -> CpuState {
        let value = self.v[x as int];
        self.set(FLAG_REGISTER, value % 2).set(x, value / 2)
    }

    /// After a shift of register `x` one bit to the left: the flag register
    /// receives the bit shifted out, then `Vx` the shifted value.
    pub open spec fn shift_left(self, x: u8) -> CpuState {
        let value = self.v[x as int];
        self.set(FLAG_REGISTER, value / 128).set(x, ((value * 2) % 256) as u8)
    }

    /// With registers 0 to `last` replaced by `bytes`.
    pub open spec fn load(self, last: u8, bytes: Seq<u8>) -> CpuState {
        CpuState {
            v: Seq::new(
                self.v.len(),
                |r: int|
                    if r <= last {
                        bytes[r]
                    } else {
                        self.v[r]
                    },
            ),
            ..self
        }
    }
}

impl Machine {
    /// Each part is well formed.
    pub open spec fn wf(self) -> bool {
        self.cpu.wf() && self.memory.wf() && self.display.wf()
    }

    /// This machine with `cpu` for its processor, the instruction done.
    pub open spec fn done(self, cpu: CpuState) -> Outcome {
        Outcome { machine: Machine { cpu, ..self }, result: Ok(()) }
    }

    /// This machine, stopped by `fault`.
    pub open spec fn failed(self, fault: Fault) -> Outcome {
        Outcome { machine: self, result: Err(fault) }
    }

    /// The fault of an access that reaches outside memory from `start` on.
    pub open spec fn out_of_range(self, start: u16) -> Outcome {
        self.failed(Fault::OutOfRange { address: self.memory.first_outside(start as int) as usize })
    }

    /// After a return: the program counter is the newest return address,
    /// which leaves the stack. On an empty stack the return is a fault.
    pub open spec fn ret(self) -> Outcome {
        if self.memory.stack.len() == 0 {
            self.failed(Fault::StackUnderflow)
        } else {
            Outcome {
                machine: Machine {
                    cpu: CpuState {
                        pc: self.memory.stack.last(),
                        sp: wrap_sub16(self.cpu.sp, 1),
                        ..self.cpu
                    },
                    memory: MemoryState { stack: self.memory.stack.drop_last(), ..self.memory },
                    ..self
                },
                result: Ok(()),
            }
        }
    }

    /// After a call to `address`: the program counter goes on the stack and
    /// then becomes `address`. On a full stack the call is a fault.
    pub open spec fn call(self, address: u16) -> Outcome {
        if self.memory.stack.len() >= STACK_DEPTH {
            self.failed(Fault::StackOverflow)
        } else {
            Outcome {
                machine: Machine {
                    cpu: CpuState { pc: address, sp: wrap_add16(self.cpu.sp, 1), ..self.cpu },
                    memory: MemoryState {
                        stack: self.memory.stack.push(self.cpu.pc),
                        ..self.memory
                    },
                    ..self
                },
                result: Ok(()),
            }
        }
    }

    /// After drawing the `height` rows that memory holds from the index
    /// register on, at column `Vx` and row `Vy`: the flag register tells
    /// whether a lit pixel went off. Rows outside memory are a fault.
    pub open spec fn draw(self, x: u8, y: u8, height: u8) -> Outcome {
        if !self.memory.holds(self.cpu.i as int, height as int) {
            self.out_of_range(self.cpu.i)
        } else {
            let rows = self.memory.bytes.subrange(self.cpu.i as int, self.cpu.i + height);
            let column = self.cpu.v[x as int] as int;
            let row = self.cpu.v[y as int] as int;
            let collision = flag(self.display.collides(column, row, rows));
            Outcome {
                machine: Machine {
                    cpu: self.cpu.set(FLAG_REGISTER, collision),
                    display: self.display.drawn(column, row, rows),
                    ..self
                },
                result: Ok(()),
            }
        }
    }

    /// After a skip on key `Vx`: the program counter moves past the next
    /// instruction if that key is pressed, where `wanted` is true, or is not
    /// pressed, where it is false. A key that the keypad lacks is a fault.
    pub open spec fn skip_on_key(self, x: u8, keys: Seq<bool>, wanted: bool) -> Outcome {
        let key = self.cpu.v[x as int];
        if key >= KEY_COUNT {
            self.failed(Fault::InvalidKey(key))
        } else {
            self.done(self.cpu.skip_if(keys[key as int] == wanted))
        }
    }

    /// After a wait for a key: `Vx` receives the lowest pressed key; while
    /// none is pressed the program counter steps back onto the instruction,
    /// which so runs again in the next cycle.
    pub open spec fn wait_for_key(self, x: u8, keys: Seq<bool>) -> Outcome {
        if any_pressed(keys) {
            self.done(self.cpu.set(x, first_pressed(keys) as u8))
        } else {
            self.done(CpuState { pc: wrap_sub16(self.cpu.pc, 2), ..self.cpu })
        }
    }

    /// After storing `data` from the index register on. Bytes outside
    /// memory are a fault.
    pub open spec fn store(self, data: Seq<u8>) -> Outcome {
        if !self.memory.holds(self.cpu.i as int, data.len() as int) {
            self.out_of_range(self.cpu.i)
        } else {
            Outcome {
                machine: Machine { memory: self.memory.store(self.cpu.i as int, data), ..self },
                result: Ok(()),
            }
        }
    }

    /// After loading registers 0 to `last` from the index register on.
    /// Bytes outside memory are a fault.
    pub open spec fn load(self, last: u8) -> Outcome {
        if !self.memory.holds(self.cpu.i as int, last + 1) {
            self.out_of_range(self.cpu.i)
        } else {
            self.done(
                self.cpu.load(
                    last,
                    self.memory.bytes.subrange(self.cpu.i as int, self.cpu.i + last + 1),
                ),
            )
        }
    }

    /// The effect of `instruction` alone, without the timers. `random` is
    /// the byte that the random source gave; only `RND` looks at it.
    pub open spec fn apply(self, instruction: Instruction, keys: Seq<bool>, random: u8) -> Outcome {
        let cpu = self.cpu;
        match instruction {
            Instruction::Unknown(opcode) => self.failed(Fault::UnknownOpcode(opcode@)),
            Instruction::CLS => Outcome {
                machine: Machine { display: DisplayState::blank(true), ..self },
                result: Ok(()),
            },
            Instruction::RET => self.ret(),
            Instruction::JUMP(address) => self.done(CpuState { pc: address@, ..cpu }),
            Instruction::CALL(address) => self.call(address@),
            Instruction::SE(rv) => self.done(cpu.skip_if(cpu.v[rv.register as int] == rv.value)),
            Instruction::SNE(rv) => self.done(cpu.skip_if(cpu.v[rv.register as int] != rv.value)),
            Instruction::SER(rr) => self.done(
                cpu.skip_if(cpu.v[rr.first_reg as int] == cpu.v[rr.second_reg as int]),
            ),
            Instruction::LD(rv) => self.done(cpu.set(rv.register, rv.value)),
            Instruction::ADD(rv) => self.done(cpu.add_value(rv.register, rv.value)),
            Instruction::LDR(rr) => self.done(cpu.set(rr.first_reg, cpu.v[rr.second_reg as int])),
            Instruction::ORR(rr) => self.done(
                cpu.set(rr.first_reg, cpu.v[rr.first_reg as int] | cpu.v[rr.second_reg as int]),
            ),
            Instruction::ANDR(rr) => self.done(
                cpu.set(rr.first_reg, cpu.v[rr.first_reg as int] & cpu.v[rr.second_reg as int]),
            ),
            Instruction::XORR(rr) => self.done(
                cpu.set(rr.first_reg, cpu.v[rr.first_reg as int] ^ cpu.v[rr.second_reg as int]),
            ),
            Instruction::ADDR(rr) => self.done(cpu.add_register(rr.first_reg, rr.second_reg)),
            Instruction::SUBR(rr) => self.done(
                cpu.subtract(rr.first_reg, cpu.v[rr.first_reg as int], cpu.v[rr.second_reg as int]),
            ),
            Instruction::SHR(x) => self.done(cpu.shift_right(x)),
            Instruction::SUBNR(rr) => self.done(
                cpu.subtract(rr.first_reg, cpu.v[rr.second_reg as int], cpu.v[rr.first_reg as int]),
            ),
            Instruction::SHL(x) => self.done(cpu.shift_left(x)),
            Instruction::SNER(rr) => self.done(
                cpu.skip_if(cpu.v[rr.first_reg as int] != cpu.v[rr.second_reg as int]),
            ),
            Instruction::LDI(address) => self.done(CpuState { i: address@, ..cpu }),
            Instruction::JUMPV0(address) => self.done(
                CpuState { pc: wrap_add16(address@, cpu.v[0] as u16), ..cpu },
            ),
            Instruction::RND(rv) => self.done(cpu.set(rv.register, random & rv.value)),
            Instruction::DRW(rrn) => self.draw(rrn.first_reg, rrn.second_reg, rrn.nibble),
            Instruction::SKP(x) => self.skip_on_key(x, keys, true),
            Instruction::SKNP(x) => self.skip_on_key(x, keys, false),
            Instruction::LDVDT(x) => self.done(cpu.set(x, cpu.delay)),
            Instruction::LDK(x) => self.wait_for_key(x, keys),
            Instruction::LDDTV(x) => self.done(CpuState { delay: cpu.v[x as int], ..cpu }),
            Instruction::LDSTV(x) => self.done(CpuState { sound: cpu.v[x as int], ..cpu }),
            Instruction::ADDI(x) => self.done(
                CpuState { i: wrap_add16(cpu.i, cpu.v[x as int] as u16), ..cpu },
            ),
            Instruction::LDFONT(x) => self.done(
                CpuState { i: glyph_address(cpu.v[x as int]), ..cpu },
            ),
            Instruction::LDBCD(x) => self.store(bcd_of(cpu.v[x as int])),
            Instruction::STARR(x) => self.store(cpu.v.subrange(0, x + 1)),
            Instruction::LDARR(x) => self.load(x),
        }
    }

    /// One instruction: first both timers move one cycle on, whatever the
    /// instruction, then the instruction takes effect. After a fault only
    /// the timers have moved.
    pub open spec fn step(self, instruction: Instruction, keys: Seq<bool>, random: u8) -> Outcome {
        (Machine { cpu: self.cpu.tick(), ..self }).apply(instruction, keys, random)
    }
}

} // verus!
