//! The processor: its registers and the execution of one instruction.

use vstd::prelude::*;
use vstd::slice::slice_subrange;
use rand::Rng;
use crate::decoder::Instruction;
use crate::display::Display;
use crate::display::DisplayState;
use crate::display::Sprite;
use crate::display::SPRITE_ROWS;
use crate::emustate::PC_START;
use crate::fault::Fault;
use crate::machine::CpuState;
use crate::machine::Machine;
use crate::machine::Outcome;
use crate::machine::FLAG_REGISTER;
use crate::machine::KEY_COUNT;
use crate::machine::REGISTER_COUNT;
use crate::machine::any_pressed;
use crate::machine::first_pressed;
use crate::machine::is_first_pressed;
use crate::memory::Byte;
use crate::memory::Memory;
use crate::memory::MemoryState;
use crate::memory::Word;
use crate::memory::STACK_DEPTH;
use crate::util::get_digits;
use crate::util::lemma_three_digits;

verus! {

/// The processor's registers.
#[derive(Debug)]
pub struct Cpu {
    v_registers: [Byte; REGISTER_COUNT],
    i_register: Word,
    stack_pointer: Word,
    sound_timer: Byte,
    delay_time: Byte,
    program_counter: Word,
}

impl View for Cpu {
    type V = CpuState;

    closed spec fn view(&self) -> CpuState {
        CpuState {
            v: self.v_registers@,
            i: self.i_register@,
            sp: self.stack_pointer@,
            sound: self.sound_timer,
            delay: self.delay_time,
            pc: self.program_counter@,
        }
    }
}

impl Cpu {
    /// A processor with every register zero and the program counter at
    /// `PC_START`.
    pub fn new() -> (cpu: Cpu)
        ensures
            cpu@ == CpuState::reset(PC_START),
            cpu@.wf(),
    {
        let cpu = Cpu {
            v_registers: [0; REGISTER_COUNT],
            i_register: Word::new_from_full(0),
            stack_pointer: Word::new_from_full(0),
            sound_timer: 0,
            delay_time: 0,
            program_counter: Word::new_from_full(PC_START),
        };
        assert(cpu@.v =~= CpuState::reset(PC_START).v);
        cpu
    }

    /// The program counter, to be moved or replaced in place.
    pub fn program_counter_mut(&mut self) -> (counter: &mut Word)
        ensures
            counter@ == old(self)@.pc,
            final(self)@ == (CpuState { pc: final(counter)@, ..old(self)@ }),
    {
        &mut self.program_counter
    }

    /// The program counter.
    pub fn program_counter(&self) -> (counter: &Word)
        ensures
            counter@ == self@.pc,
    {
        &self.program_counter
    }

    /// The index register.
    pub fn index_register(&self) -> (index: &Word)
        ensures
            index@ == self@.i,
    {
        &self.i_register
    }

    /// The stack pointer: calls count it up, returns down.
    pub fn stack_pointer(&self) -> (pointer: &Word)
        ensures
            pointer@ == self@.sp,
    {
        &self.stack_pointer
    }

    /// The delay timer.
    pub fn delay_timer(&self) -> (timer: Byte)
        ensures
            timer == self@.delay,
    {
        self.delay_time
    }

    /// The sound timer.
    pub fn sound_timer(&self) -> (timer: Byte)
        ensures
            timer == self@.sound,
    {
        self.sound_timer
    }

    /// What register `register` holds.
    pub fn get_reg(&self, register: Byte) -> (value: Byte)
        requires
            register < REGISTER_COUNT,
        ensures
            value == self@.v[register as int],
            self@.wf(),
    {
        self.v_registers[register as usize]
    }

    /// Puts `value` into register `register`.
    pub fn set_reg(&mut self, register: Byte, value: Byte)
        requires
            register < REGISTER_COUNT,
        ensures
            final(self)@ == old(self)@.set(register, value),
            final(self)@.wf(),
    {
        self.v_registers[register as usize] = value;
    }

    /// Register `register`, to be changed in place.
    pub fn get_mut_reg(&mut self, register: Byte) -> (value: &mut u8)
        requires
            register < REGISTER_COUNT,
        ensures
            *value == old(self)@.v[register as int],
            final(self)@ == old(self)@.set(register, *final(value)),
    {
        &mut self.v_registers[register as usize]
    }
}

/// Draws a number by `Rng::gen_range` from the generator that
/// `rand::thread_rng` gives. `gen_range` returns a value that is at least
/// `low` and below `high`, and panics unless `low` is below `high`; the
/// contract claims that range and nothing more, so two draws may differ.
/// `thread_rng` seeds the generator from the operating system on its first
/// use in a thread, and has no way out but a panic if the system offers no
/// entropy at all.
#[verifier::external_body]
fn random_in_range(low: i32, high: i32) -> (number: i32)
    requires
        low < high,
    ensures
        low <= number < high,
{
    let mut rng = rand::thread_rng();
    rng.gen_range(low, high)
}

/// Shifts and masks of a byte as arithmetic.
proof fn lemma_shifts(value: u8)
    ensures
        value & 0b0000_0001 == value % 2,
        value >> 1 == value / 2,
        value >> 7 == value / 128,
        value << 1 == (value * 2) % 256,
{
    assert(value & 0b0000_0001 == value % 2) by (bit_vector);
    assert(value >> 1 == value / 2) by (bit_vector);
    assert(value >> 7 == value / 128) by (bit_vector);
    assert(value << 1 == (value * 2) % 256) by (bit_vector);
}

impl Cpu {
    /// Whether the tone is to sound: it does while the sound timer runs.
    pub fn tone_active(&self) -> (active: bool)
        ensures
            active == (self@.sound > 0),
    {
        self.sound_timer > 0
    }

    /// Runs one instruction, drawing the random byte of `RND` from the
    /// thread's generator. For every other instruction the outcome is the
    /// one that `step` gives; for `RND` it is the one that `step` gives for
    /// some byte.
    pub fn run_instruction(
        &mut self,
        instruction: Instruction,
        memory: &mut Memory,
        display: &mut Display,
        keys: &[bool],
    ) -> (result: Result<(), Fault>)
        requires
            instruction.wf(),
            keys@.len() == KEY_COUNT,
        ensures
            exists|random: u8|
                (Outcome {
                    machine: Machine {
                        cpu: final(self)@,
                        memory: final(memory)@,
                        display: final(display)@,
                    },
                    result,
                }) == #[trigger] (Machine {
                    cpu: old(self)@,
                    memory: old(memory)@,
                    display: old(display)@,
                }).step(instruction, keys@, random),
            !(instruction is RND) ==> (Outcome {
                machine: Machine {
                    cpu: final(self)@,
                    memory: final(memory)@,
                    display: final(display)@,
                },
                result,
            }) == (Machine { cpu: old(self)@, memory: old(memory)@, display: old(display)@ }).step(
                instruction,
                keys@,
                0,
            ),
    {
        let random: Byte = match instruction {
            Instruction::RND(_) => random_in_range(0, 256) as Byte,
            _ => 0,
        };
        self.execute(instruction, memory, display, keys, random)
    }

    /// Runs one instruction with `random` as the byte that `RND` receives:
    /// first both timers move one cycle on, then the instruction takes
    /// effect on the registers, `memory` and `display`. After a fault only
    /// the timers have moved.
    pub fn execute(
        &mut self,
        instruction: Instruction,
        memory: &mut Memory,
        display: &mut Display,
        keys: &[bool],
        random: Byte,
    ) -> (result: Result<(), Fault>)
        requires
            instruction.wf(),
            keys@.len() == KEY_COUNT,
        ensures
            (Outcome {
                machine: Machine {
                    cpu: final(self)@,
                    memory: final(memory)@,
                    display: final(display)@,
                },
                result,
            }) == (Machine { cpu: old(self)@, memory: old(memory)@, display: old(display)@ }).step(
                instruction,
                keys@,
                random,
            ),
    {
        if self.delay_time > 0 {
            self.delay_time -= 1;
        }
        if self.sound_timer > 0 {
            self.sound_timer -= 1;
        }
        assert(self@ == old(self)@.tick());
        match instruction {
            Instruction::CLS => {
                display.clear_screen();
                Ok(())
            },
            Instruction::RET => self.ret(memory, Ghost(display@)),
            Instruction::JUMP(address) => {
                self.program_counter = address;
                Ok(())
            },
            Instruction::CALL(address) => self.call(address, memory, Ghost(display@)),
            Instruction::SE(reg_val) => {
                let equal = self.get_reg(reg_val.register) == reg_val.value;
                self.skip_if(equal);
                Ok(())
            },
            Instruction::SNE(reg_val) => {
                let differ = self.get_reg(reg_val.register) != reg_val.value;
                self.skip_if(differ);
                Ok(())
            },
            Instruction::SER(registers) => {
                let equal = self.get_reg(registers.first_reg) == self.get_reg(
                    registers.second_reg,
                );
                self.skip_if(equal);
                Ok(())
            },
            Instruction::LD(reg_val) => {
                self.set_reg(reg_val.register, reg_val.value);
                Ok(())
            },
            Instruction::ADD(reg_val) => {
                self.add_value(reg_val.register, reg_val.value);
                Ok(())
            },
            Instruction::LDR(registers) => {
                let value = self.get_reg(registers.second_reg);
                self.set_reg(registers.first_reg, value);
                Ok(())
            },
            Instruction::ORR(registers) => {
                let value = self.get_reg(registers.second_reg);
                let current = self.get_mut_reg(registers.first_reg);
                *current |= value;
                Ok(())
            },
            Instruction::ANDR(registers) => {
                let value = self.get_reg(registers.second_reg);
                let current = self.get_mut_reg(registers.first_reg);
                *current &= value;
                Ok(())
            },
            Instruction::XORR(registers) => {
                let value = self.get_reg(registers.second_reg);
                let current = self.get_mut_reg(registers.first_reg);
                *current ^= value;
                Ok(())
            },
            Instruction::ADDR(registers) => {
                self.add_register(registers.first_reg, registers.second_reg);
                Ok(())
            },
            Instruction::SUBR(registers) => {
                let reg1 = self.get_reg(registers.first_reg);
                let reg2 = self.get_reg(registers.second_reg);
                self.subtract(registers.first_reg, reg1, reg2);
                Ok(())
            },
            Instruction::SHR(reg) => {
                let current = self.get_reg(reg);
                proof {
                    lemma_shifts(current);
                }
                self.set_reg(FLAG_REGISTER, current & 0b0000_0001);
                self.set_reg(reg, current >> 1);
                Ok(())
            },
            Instruction::SUBNR(registers) => {
                let reg1 = self.get_reg(registers.first_reg);
                let reg2 = self.get_reg(registers.second_reg);
                self.subtract(registers.first_reg, reg2, reg1);
                Ok(())
            },
            Instruction::SHL(reg) => {
                let current = self.get_reg(reg);
                proof {
                    lemma_shifts(current);
                }
                self.set_reg(FLAG_REGISTER, current >> 7);
                self.set_reg(reg, current << 1);
                Ok(())
            },
            Instruction::SNER(registers) => {
                let differ = self.get_reg(registers.first_reg) != self.get_reg(
                    registers.second_reg,
                );
                self.skip_if(differ);
                Ok(())
            },
            Instruction::LDI(address) => {
                self.i_register = address;
                Ok(())
            },
            Instruction::JUMPV0(address) => {
                self.program_counter = address.offset(self.get_reg(0) as u16);
                Ok(())
            },
            Instruction::RND(reg_val) => {
                self.set_reg(reg_val.register, random & reg_val.value);
                Ok(())
            },
            Instruction::DRW(reg_nibble) => self.draw(
                reg_nibble.first_reg,
                reg_nibble.second_reg,
                reg_nibble.nibble,
                memory,
                display,
            ),
            Instruction::SKP(reg) => self.skip_on_key(reg, keys, true),
            Instruction::SKNP(reg) => self.skip_on_key(reg, keys, false),
            Instruction::LDVDT(reg) => {
                let delay = self.delay_time;
                self.set_reg(reg, delay);
                Ok(())
            },
            Instruction::LDK(reg) => {
                match lowest_pressed(keys) {
                    Some(key) => {
                        self.set_reg(reg, key);
                    },
                    None => {
                        self.program_counter.rewind(2);
                    },
                }
                Ok(())
            },
            Instruction::LDDTV(reg) => {
                self.delay_time = self.get_reg(reg);
                Ok(())
            },
            Instruction::LDSTV(reg) => {
                self.sound_timer = self.get_reg(reg);
                Ok(())
            },
            Instruction::ADDI(reg) => {
                self.i_register = self.i_register.offset(self.get_reg(reg) as u16);
                Ok(())
            },
            Instruction::LDFONT(reg) => {
                let font_code = self.get_reg(reg);
                self.i_register = memory.get_font(font_code);
                Ok(())
            },
            Instruction::LDBCD(reg) => {
                let val = self.get_reg(reg);
                let mut digits: Vec<Byte> = Vec::with_capacity(3);
                get_digits(val as u16, &mut digits);
                proof {
                    lemma_three_digits(val as nat);
                }
                self.store(digits.as_slice(), memory, Ghost(display@))
            },
            Instruction::STARR(reg) => {
                let registers = slice_subrange(self.v_registers.as_slice(), 0, reg as usize + 1);
                self.store(registers, memory, Ghost(display@))
            },
            Instruction::LDARR(reg) => self.load(reg, memory, Ghost(display@)),
            Instruction::Unknown(opcode) => Err(Fault::UnknownOpcode(opcode.full())),
        }
    }

    /// Adds `value` into register `x`: first the carry goes into the flag
    /// register, then the sum into `x`.
    fn add_value(&mut self, x: Byte, value: Byte)
        requires
            x < REGISTER_COUNT,
        ensures
            final(self)@ == old(self)@.add_value(x, value),
    {
        let current = self.get_reg(x);
        let new_val: u16 = current as u16 + value as u16;
        if new_val > 255 {
            self.set_reg(FLAG_REGISTER, 1);
        } else {
            self.set_reg(FLAG_REGISTER, 0);
        }
        let new_val = self.get_reg(x).wrapping_add(value);
        self.set_reg(x, new_val);
    }

    /// Adds register `y` into register `x`: first the carry goes into the
    /// flag register, then the sum into `x`.
    fn add_register(&mut self, x: Byte, y: Byte)
        requires
            x < REGISTER_COUNT,
            y < REGISTER_COUNT,
        ensures
            final(self)@ == old(self)@.add_register(x, y),
    {
        let new_val: u16 = self.get_reg(x) as u16 + self.get_reg(y) as u16;
        if new_val > 255 {
            self.set_reg(FLAG_REGISTER, 1);
        } else {
            self.set_reg(FLAG_REGISTER, 0);
        }
        let new_val = self.get_reg(x).wrapping_add(self.get_reg(y));
        self.set_reg(x, new_val);
    }

    /// Moves the flag register to whether `minuend` is the greater and then
    /// register `x` to the difference.
    fn subtract(&mut self, x: Byte, minuend: Byte, subtrahend: Byte)
        requires
            x < REGISTER_COUNT,
        ensures
            final(self)@ == old(self)@.subtract(x, minuend, subtrahend),
    {
        if minuend > subtrahend {
            self.set_reg(FLAG_REGISTER, 1);
        } else {
            self.set_reg(FLAG_REGISTER, 0);
        }
        self.set_reg(x, minuend.wrapping_sub(subtrahend));
    }

    /// Moves the program counter past the next instruction if `condition`
    /// holds.
    fn skip_if(&mut self, condition: bool)
        ensures
            final(self)@ == old(self)@.skip_if(condition),
    {
        if condition {
            self.program_counter.advance(2);
        }
    }

    /// Returns from a call, or gives the fault if there was none.
    fn ret(&mut self, memory: &mut Memory, Ghost(display): Ghost<DisplayState>) -> (result:
        Result<(), Fault>)
        ensures
            (Outcome {
                machine: Machine { cpu: final(self)@, memory: final(memory)@, display },
                result,
            }) == (Machine { cpu: old(self)@, memory: old(memory)@, display }).ret(),
    {
        if let Some(value) = memory.pop_stack() {
            self.program_counter = value;
            self.stack_pointer.rewind(1);
            assert(memory@ =~= (MemoryState {
                stack: old(memory)@.stack.drop_last(),
                ..old(memory)@
            }));
            Ok(())
        } else {
            assert(memory@ =~= old(memory)@);
            Err(Fault::StackUnderflow)
        }
    }

    /// Calls the routine at `address`, or gives the fault if the stack is
    /// full.
    fn call(
        &mut self,
        address: Word,
        memory: &mut Memory,
        Ghost(display): Ghost<DisplayState>,
    ) -> (result: Result<(), Fault>)
        ensures
            (Outcome {
                machine: Machine { cpu: final(self)@, memory: final(memory)@, display },
                result,
            }) == (Machine { cpu: old(self)@, memory: old(memory)@, display }).call(address@),
    {
        if memory.stack_depth() >= STACK_DEPTH {
            Err(Fault::StackOverflow)
        } else {
            memory.push_stack(self.program_counter);
            self.program_counter = address;
            self.stack_pointer.advance(1);
            assert(memory@ =~= (MemoryState {
                stack: old(memory)@.stack.push(old(self)@.pc),
                ..old(memory)@
            }));
            Ok(())
        }
    }

    /// Draws the `height` rows from the index register on at column `Vx`
    /// and row `Vy`, and leaves in the flag register whether a lit pixel went
    /// off.
    fn draw(
        &mut self,
        x: Byte,
        y: Byte,
        height: Byte,
        memory: &Memory,
        display: &mut Display,
    ) -> (result: Result<(), Fault>)
        requires
            x < REGISTER_COUNT,
            y < REGISTER_COUNT,
            height <= SPRITE_ROWS,
        ensures
            (Outcome {
                machine: Machine { cpu: final(self)@, memory: memory@, display: final(display)@ },
                result,
            }) == (Machine { cpu: old(self)@, memory: memory@, display: old(display)@ }).draw(
                x,
                y,
                height,
            ),
    {
        let column = self.get_reg(x);
        let row = self.get_reg(y);
        match memory.check_range(&self.i_register, height as usize) {
            Err(fault) => Err(fault),
            Ok(()) => {
                let sprite = Sprite::new(memory.read_slice(&self.i_register, height));
                let collision = display.draw_sprite(column, row, sprite);
                self.set_reg(FLAG_REGISTER, collision);
                Ok(())
            },
        }
    }

    /// Moves the program counter past the next instruction if key `Vx` is
    /// pressed, where `wanted` is true, or is not, where it is false.
    fn skip_on_key(&mut self, x: Byte, keys: &[bool], wanted: bool) -> (result: Result<(), Fault>)
        requires
            x < REGISTER_COUNT,
            keys@.len() == KEY_COUNT,
        ensures
            result is Ok ==> final(self)@ == old(self)@.skip_if(
                keys@[old(self)@.v[x as int] as int] == wanted,
            ),
            result is Err ==> final(self)@ == old(self)@,
            result == if old(self)@.v[x as int] >= KEY_COUNT {
                Err::<(), Fault>(Fault::InvalidKey(old(self)@.v[x as int]))
            } else {
                Ok::<(), Fault>(())
            },
    {
        let keycode = self.get_reg(x);
        if keycode as usize >= KEY_COUNT {
            Err(Fault::InvalidKey(keycode))
        } else {
            let pressed = keys[keycode as usize];
            self.skip_if(pressed == wanted);
            Ok(())
        }
    }

    /// Stores `data` from the index register on.
    fn store(
        &self,
        data: &[Byte],
        memory: &mut Memory,
        Ghost(display): Ghost<DisplayState>,
    ) -> (result: Result<(), Fault>)
        requires
            data@.len() <= usize::MAX,
        ensures
            (Outcome { machine: Machine { cpu: self@, memory: final(memory)@, display }, result })
                == (Machine { cpu: self@, memory: old(memory)@, display }).store(data@),
    {
        match memory.check_range(&self.i_register, data.len()) {
            Err(fault) => Err(fault),
            Ok(()) => {
                memory.write_slice(&self.i_register, data);
                Ok(())
            },
        }
    }

    /// Loads registers 0 to `last` from the index register on.
    fn load(
        &mut self,
        last: Byte,
        memory: &Memory,
        Ghost(display): Ghost<DisplayState>,
    ) -> (result: Result<(), Fault>)
        requires
            last < REGISTER_COUNT,
        ensures
            (Outcome { machine: Machine { cpu: final(self)@, memory: memory@, display }, result })
                == (Machine { cpu: old(self)@, memory: memory@, display }).load(last),
    {
        match memory.check_range(&self.i_register, last as usize + 1) {
            Err(fault) => Err(fault),
            Ok(()) => {
                let bytes = memory.read_slice(&self.i_register, last + 1);
                let mut n: Byte = 0;
                while n <= last
                    invariant
                        last < REGISTER_COUNT,
                        n <= last + 1,
                        bytes@.len() == last + 1,
                        self@.v == Seq::new(
                            REGISTER_COUNT as nat,
                            |r: int|
                                if r < n {
                                    bytes@[r]
                                } else {
                                    old(self)@.v[r]
                                },
                        ),
                        self@ == (CpuState { v: self@.v, ..old(self)@ }),
                    decreases last + 1 - n,
                {
                    self.set_reg(n, bytes[n as usize]);
                    n += 1;
                }
                assert(self@.v =~= old(self)@.load(last, bytes@).v);
                Ok(())
            },
        }
    }
}

/// The lowest pressed key, if any key is pressed.
fn lowest_pressed(keys: &[bool]) -> (found: Option<Byte>)
    requires
        keys@.len() == KEY_COUNT,
    ensures
        found is None <==> !any_pressed(keys@),
        found matches Some(key) ==> key == first_pressed(keys@) && is_first_pressed(
            keys@,
            key as int,
        ),
{
    let mut key: Byte = 0;
    while (key as usize) < KEY_COUNT
        invariant
            keys@.len() == KEY_COUNT,
            key <= KEY_COUNT,
            forall|k: int| 0 <= k < key ==> !keys@[k],
        decreases KEY_COUNT - key,
    {
        if keys[key as usize] {
            proof {
                lemma_first_pressed_is_unique(keys@, key as int);
            }
            return Some(key);
        }
        key += 1;
    }
    None
}

/// At most one key is the lowest pressed one.
proof fn lemma_first_pressed_is_unique(keys: Seq<bool>, key: int)
    requires
        is_first_pressed(keys, key),
    ensures
        first_pressed(keys) == key,
        any_pressed(keys),
{
    let chosen = first_pressed(keys);
    assert(is_first_pressed(keys, chosen));
    if chosen < key {
        assert(!keys[chosen]);
    } else if key < chosen {
        assert(!keys[key]);
    }
}

} // verus!
