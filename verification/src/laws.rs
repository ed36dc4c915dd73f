//! What holds of the machine whatever it is given: laws of single
//! instructions and of instructions in a row, each proved from the
//! definitions that the executable parts are held to.

use vstd::prelude::*;
use crate::decoder::instruction_of;
use crate::decoder::Instruction;
use crate::decoder::RegisterRegister;
use crate::decoder::RegisterVal;
use crate::display::bit_of;
use crate::display::sprite_at;
use crate::display::DisplayState;
use crate::display::CHIP8_HEIGHT;
use crate::display::CHIP8_WIDTH;
use crate::emustate::MEMORY_SIZE;
use crate::emustate::PC_START;
use crate::fault::Fault;
use crate::fault::Quit;
use crate::font::FONTS;
use crate::machine::flag;
use crate::machine::ticked;
use crate::machine::CpuState;
use crate::machine::Machine;
use crate::machine::FLAG_REGISTER;
use crate::machine::REGISTER_COUNT;
use crate::memory::high_byte;
use crate::memory::join_bytes;
use crate::memory::low_byte;
use crate::memory::wrap_add16;
use crate::memory::wrap_sub16;
use crate::memory::Word;
use crate::memory::FONT_START;
use crate::memory::STACK_DEPTH;

verus! {

/// A 16-bit value is its two bytes put together again.
pub proof fn lemma_bytes_rejoin(full: u16)
    ensures
        join_bytes(high_byte(full), low_byte(full)) == full,
{
}

/// The two bytes put together give each byte back.
pub proof fn lemma_bytes_split(high: u8, low: u8)
    ensures
        high_byte(join_bytes(high, low)) == high,
        low_byte(join_bytes(high, low)) == low,
{
}

/// Every opcode decodes to an instruction that names only registers that
/// exist.
pub proof fn lemma_decoded_is_well_formed(opcode: u16)
    ensures
        instruction_of(opcode).wf(),
{
}

/// In the group of opcodes below 0x1000, 0x00E0 is the screen clear, 0x00EE
/// is the return, and no other opcode names an instruction.
pub proof fn lemma_flow_group(opcode: u16)
    requires
        opcode < 0x1000,
    ensures
        opcode == 0x00E0 ==> instruction_of(opcode) == Instruction::CLS,
        opcode == 0x00EE ==> instruction_of(opcode) == Instruction::RET,
        opcode != 0x00E0 && opcode != 0x00EE ==> instruction_of(opcode) == Instruction::Unknown(
            Word::of(opcode),
        ),
{
}

/// Outside the group of opcodes below 0x1000, no opcode is the screen clear
/// or the return.
pub proof fn lemma_flow_only_in_its_group(opcode: u16)
    requires
        opcode >= 0x1000,
    ensures
        instruction_of(opcode) != Instruction::CLS,
        instruction_of(opcode) != Instruction::RET,
{
}

/// Only `RND` looks at the random byte.
pub proof fn lemma_random_only_for_rnd(
    machine: Machine,
    instruction: Instruction,
    keys: Seq<bool>,
    random: u8,
    other: u8,
)
    requires
        !(instruction is RND),
    ensures
        machine.step(instruction, keys, random) == machine.step(instruction, keys, other),
{
}

/// A shift to the right leaves the bit shifted out, bit 0, in the flag
/// register, and a shift to the left bit 7. The two in a row give back the
/// value without its bit 0. The register shifted is not the flag register.
pub proof fn lemma_shift_right_then_left(machine: Machine, x: u8, keys: Seq<bool>, random: u8)
    requires
        machine.wf(),
        x < REGISTER_COUNT,
        x != FLAG_REGISTER,
    ensures
        ({
            let value = machine.cpu.v[x as int];
            let right = machine.step(Instruction::SHR(x), keys, random);
            let left = machine.step(Instruction::SHL(x), keys, random);
            let both = right.machine.step(Instruction::SHL(x), keys, random);
            &&& right.result is Ok
            &&& right.machine.cpu.v[x as int] == value / 2
            &&& right.machine.cpu.v[FLAG_REGISTER as int] == value % 2
            &&& left.result is Ok
            &&& left.machine.cpu.v[x as int] == (value * 2) % 256
            &&& left.machine.cpu.v[FLAG_REGISTER as int] == value / 128
            &&& both.result is Ok
            &&& both.machine.cpu.v[x as int] == value - value % 2
            &&& both.machine.cpu.v[FLAG_REGISTER as int] == 0
        }),
{
    let value = machine.cpu.v[x as int];
    let ticked = machine.cpu.tick();
    let right = ticked.shift_right(x);
    assert(right.v[x as int] == value / 2);
    assert(right.v[FLAG_REGISTER as int] == value % 2);
    assert(machine.step(Instruction::SHR(x), keys, random).machine.cpu == right);
    let left = ticked.shift_left(x);
    assert(left.v[x as int] == (value * 2) % 256);
    assert(left.v[FLAG_REGISTER as int] == value / 128);
    assert(machine.step(Instruction::SHL(x), keys, random).machine.cpu == left);
    let halved: u8 = value / 2;
    let both = right.tick().shift_left(x);
    assert(both.v[x as int] == (halved * 2) % 256);
    assert(both.v[FLAG_REGISTER as int] == halved / 128);
    assert(machine.step(Instruction::SHR(x), keys, random).machine.step(
        Instruction::SHL(x),
        keys,
        random,
    ).machine.cpu == both);
}

/// `ADDR` leaves the sum of the two registers, kept to eight bits, in the
/// first, and 1 in the flag register exactly if the sum is above 255.
/// Neither register is the flag register.
pub proof fn lemma_addr(machine: Machine, x: u8, y: u8, keys: Seq<bool>, random: u8)
    requires
        machine.wf(),
        x < REGISTER_COUNT,
        y < REGISTER_COUNT,
        x != FLAG_REGISTER,
        y != FLAG_REGISTER,
    ensures
        ({
            let a = machine.cpu.v[x as int];
            let b = machine.cpu.v[y as int];
            let after = machine.step(
                Instruction::ADDR(RegisterRegister { first_reg: x, second_reg: y }),
                keys,
                random,
            );
            &&& after.result is Ok
            &&& after.machine.cpu.v[x as int] == (a + b) % 256
            &&& after.machine.cpu.v[FLAG_REGISTER as int] == flag(a + b > 255)
        }),
{
}

/// `ADD` leaves the sum of the register and the value, kept to eight
/// bits, in the register, and 1 in the flag register exactly if the sum is
/// above 255. The register is not the flag register.
pub proof fn lemma_add(machine: Machine, x: u8, value: u8, keys: Seq<bool>, random: u8)
    requires
        machine.wf(),
        x < REGISTER_COUNT,
        x != FLAG_REGISTER,
    ensures
        ({
            let a = machine.cpu.v[x as int];
            let after = machine.step(
                Instruction::ADD(RegisterVal { register: x, value }),
                keys,
                random,
            );
            &&& after.result is Ok
            &&& after.machine.cpu.v[x as int] == (a + value) % 256
            &&& after.machine.cpu.v[FLAG_REGISTER as int] == flag(a + value > 255)
        }),
{
}

/// `SUBR` leaves the difference of the two registers, kept to eight bits,
/// in the first, and 1 in the flag register exactly if the first was the
/// greater. The first register is not the flag register.
pub proof fn lemma_subr(machine: Machine, x: u8, y: u8, keys: Seq<bool>, random: u8)
    requires
        machine.wf(),
        x < REGISTER_COUNT,
        y < REGISTER_COUNT,
        x != FLAG_REGISTER,
    ensures
        ({
            let a = machine.cpu.v[x as int];
            let b = machine.cpu.v[y as int];
            let after = machine.step(
                Instruction::SUBR(RegisterRegister { first_reg: x, second_reg: y }),
                keys,
                random,
            );
            &&& after.result is Ok
            &&& after.machine.cpu.v[x as int] == (a - b) % 256
            &&& after.machine.cpu.v[FLAG_REGISTER as int] == flag(a > b)
        }),
{
}

/// `STARR` and then `LDARR` of the same register give registers 0 to `x`
/// back whatever the registers held in between, zeros included, as long as
/// the index register has stayed and the bytes from it on lie in memory.
pub proof fn lemma_store_then_load(
    machine: Machine,
    x: u8,
    between: Seq<u8>,
    keys: Seq<bool>,
    random: u8,
)
    requires
        machine.wf(),
        x < REGISTER_COUNT,
        between.len() == REGISTER_COUNT,
        machine.memory.holds(machine.cpu.i as int, x + 1),
    ensures
        ({
            let stored = machine.step(Instruction::STARR(x), keys, random);
            let cleared = Machine {
                cpu: CpuState { v: between, ..stored.machine.cpu },
                ..stored.machine
            };
            let loaded = cleared.step(Instruction::LDARR(x), keys, random);
            &&& stored.result is Ok
            &&& loaded.result is Ok
            &&& forall|r: int| 0 <= r <= x ==> loaded.machine.cpu.v[r] == machine.cpu.v[r]
            &&& forall|r: int| x < r < REGISTER_COUNT ==> loaded.machine.cpu.v[r] == between[r]
        }),
{
}

/// The pixel of column `column` in row `row` of a sprite drawn at `(x, y)`
/// lands `column` to the right of `x` and `row` below `y`, each counted
/// round the edge of the grid.
pub proof fn lemma_sprite_wraps(rows: Seq<u8>, x: int, y: int, row: int, column: int)
    requires
        0 <= row < rows.len(),
        rows.len() <= CHIP8_HEIGHT,
        0 <= column < 8,
    ensures
        sprite_at(
            rows,
            x,
            y,
            (x + column) % (CHIP8_WIDTH as int),
            (y + row) % (CHIP8_HEIGHT as int),
        ) == bit_of(rows[row], column),
{
}

/// A sprite drawn twice at the same place leaves the grid as it was.
pub proof fn lemma_draw_twice(display: DisplayState, x: int, y: int, rows: Seq<u8>)
    requires
        display.wf(),
    ensures
        display.drawn(x, y, rows).drawn(x, y, rows).pixels == display.pixels,
        display.drawn(x, y, rows).wf(),
{
    assert(display.drawn(x, y, rows).drawn(x, y, rows).pixels =~~= display.pixels);
}

/// The second of two draws of a sprite at the same place turns a lit pixel
/// off exactly if the first lit one, which it did exactly if a set pixel of
/// the sprite lay over a dark one.
pub proof fn lemma_second_draw_collides(display: DisplayState, x: int, y: int, rows: Seq<u8>)
    requires
        display.wf(),
    ensures
        display.drawn(x, y, rows).collides(x, y, rows) <==> exists|px: int, py: int|
            0 <= px < CHIP8_WIDTH && 0 <= py < CHIP8_HEIGHT && display.pixels[py][px] == 0
                && #[trigger] sprite_at(rows, x, y, px, py) == 1,
{
    let once = display.drawn(x, y, rows);
    if once.collides(x, y, rows) {
        let (px, py) = choose|px: int, py: int| #[trigger] once.hit(x, y, rows, px, py);
        assert(display.pixels[py][px] == 0 && sprite_at(rows, x, y, px, py) == 1);
    }
    if exists|px: int, py: int|
        0 <= px < CHIP8_WIDTH && 0 <= py < CHIP8_HEIGHT && display.pixels[py][px] == 0
            && #[trigger] sprite_at(rows, x, y, px, py) == 1 {
        let (px, py) = choose|px: int, py: int|
            0 <= px < CHIP8_WIDTH && 0 <= py < CHIP8_HEIGHT && display.pixels[py][px] == 0
                && #[trigger] sprite_at(rows, x, y, px, py) == 1;
        assert(once.hit(x, y, rows, px, py));
    }
}

/// An instruction leaves a well-formed machine well formed, fault or not:
/// the registers stay sixteen, the stack stays within its depth, the grid
/// keeps its size with every pixel 0 or 1, and memory keeps its size.
pub proof fn lemma_step_preserves_wf(
    machine: Machine,
    instruction: Instruction,
    keys: Seq<bool>,
    random: u8,
)
    requires
        machine.wf(),
        instruction.wf(),
    ensures
        machine.step(instruction, keys, random).machine.wf(),
        machine.step(instruction, keys, random).machine.memory.bytes.len()
            == machine.memory.bytes.len(),
{
}

/// Each timer moves one cycle on with every instruction, whichever it is
/// and whether it ends in a fault or not; only the instruction that sets a
/// timer leaves it at what it set.
pub proof fn lemma_timers_move_once(
    machine: Machine,
    instruction: Instruction,
    keys: Seq<bool>,
    random: u8,
)
    requires
        machine.wf(),
        instruction.wf(),
    ensures
        ({
            let after = machine.step(instruction, keys, random).machine.cpu;
            &&& !(instruction is LDDTV) ==> after.delay == ticked(machine.cpu.delay)
            &&& !(instruction is LDSTV) ==> after.sound == ticked(machine.cpu.sound)
            &&& instruction matches Instruction::LDDTV(x) ==> after.delay == machine.cpu.v[x as int]
            &&& instruction matches Instruction::LDSTV(x) ==> after.sound == machine.cpu.v[x as int]
        }),
{
}

/// An instruction that ends in a fault has done nothing: but for the
/// timers, which have moved, the machine is as it was.
pub proof fn lemma_fault_changes_nothing(
    machine: Machine,
    instruction: Instruction,
    keys: Seq<bool>,
    random: u8,
)
    ensures
        machine.step(instruction, keys, random).result is Err ==> machine.step(
            instruction,
            keys,
            random,
        ).machine == (Machine { cpu: machine.cpu.tick(), ..machine }),
{
}

/// One step back undoes one step forward, wrapping included.
proof fn lemma_wrap_there_and_back(full: u16, n: u16)
    ensures
        wrap_sub16(wrap_add16(full, n), n) == full,
{
}

/// What a call does, as a step of the machine.
proof fn lemma_step_call(machine: Machine, address: Word, keys: Seq<bool>, random: u8)
    ensures
        machine.step(Instruction::CALL(address), keys, random) == (Machine {
            cpu: machine.cpu.tick(),
            ..machine
        }).call(address@),
{
}

/// What a return does, as a step of the machine.
proof fn lemma_step_ret(machine: Machine, keys: Seq<bool>, random: u8)
    ensures
        machine.step(Instruction::RET, keys, random) == (Machine {
            cpu: machine.cpu.tick(),
            ..machine
        }).ret(),
{
}

/// A call and then a return bring the program counter, the stack pointer
/// and the stack back to where they were, as long as the stack had room for
/// the call.
pub proof fn lemma_call_then_return(machine: Machine, address: Word, keys: Seq<bool>, random: u8)
    requires
        machine.wf(),
        machine.memory.stack.len() < STACK_DEPTH,
    ensures
        ({
            let called = machine.step(Instruction::CALL(address), keys, random);
            let returned = called.machine.step(Instruction::RET, keys, random);
            &&& called.result is Ok
            &&& called.machine.cpu.pc == address@
            &&& returned.result is Ok
            &&& returned.machine.cpu.pc == machine.cpu.pc
            &&& returned.machine.cpu.sp == machine.cpu.sp
            &&& returned.machine.memory == machine.memory
        }),
{
    let called = machine.step(Instruction::CALL(address), keys, random);
    lemma_step_call(machine, address, keys, random);
    lemma_step_ret(called.machine, keys, random);
    lemma_wrap_there_and_back(machine.cpu.sp, 1);
    assert(called.machine.memory.stack.drop_last() =~= machine.memory.stack);
}

/// A return on an empty stack is a fault, whatever else the machine holds.
pub proof fn lemma_return_needs_a_call(machine: Machine, keys: Seq<bool>, random: u8)
    requires
        machine.memory.stack.len() == 0,
    ensures
        machine.step(Instruction::RET, keys, random).result == Err::<(), Fault>(
            Fault::StackUnderflow,
        ),
{
}

/// A cycle leaves a well-formed machine well formed and memory at its
/// size, however it ends.
pub proof fn lemma_cycle_preserves_wf(machine: Machine, input: Result<Seq<bool>, Quit>, random: u8)
    requires
        machine.wf(),
    ensures
        machine.cycle(input, random).machine.wf(),
        machine.cycle(input, random).machine.memory.bytes.len() == machine.memory.bytes.len(),
{
    let fetched = machine.fetch();
    match fetched.result {
        Ok(opcode) => {
            lemma_decoded_is_well_formed(opcode);
            match input {
                Ok(keys) => {
                    lemma_step_preserves_wf(fetched.machine, instruction_of(opcode), keys, random);
                },
                Err(_) => {},
            }
        },
        Err(_) => {},
    }
}

/// The random byte matters to a cycle only where the opcode fetched is a
/// `RND`.
pub proof fn lemma_cycle_random_only_for_rnd(
    machine: Machine,
    input: Result<Seq<bool>, Quit>,
    random: u8,
    other: u8,
)
    requires
        !(machine.fetch().result matches Ok(opcode) && instruction_of(opcode) is RND),
    ensures
        machine.cycle(input, random) == machine.cycle(input, other),
{
    match (machine.fetch().result, input) {
        (Ok(opcode), Ok(keys)) => {
            lemma_random_only_for_rnd(
                machine.fetch().machine,
                instruction_of(opcode),
                keys,
                random,
                other,
            );
        },
        _ => {},
    }
}

/// A cycle that hands the host a frame, or ends without one, leaves the
/// display marked as shown.
pub proof fn lemma_cycle_leaves_nothing_to_show(
    machine: Machine,
    input: Result<Seq<bool>, Quit>,
    random: u8,
)
    ensures
        machine.cycle(input, random).result is Ok ==> !machine.cycle(
            input,
            random,
        ).machine.display.changed,
{
}

/// In a memory of the machine's size the glyphs always fit, and a program
/// fits exactly if it is no longer than what lies from `PC_START` on.
pub proof fn lemma_what_fits(machine: Machine, program: Seq<u8>)
    requires
        machine.memory.bytes.len() == MEMORY_SIZE,
    ensures
        machine.install(FONT_START, FONTS@).1 is Ok,
        machine.install(PC_START, program).1 is Ok <==> program.len() <= MEMORY_SIZE - PC_START,
{
}

/// Glyphs and program lie apart: whichever is stored first, memory ends up
/// the same, with the glyphs from `FONT_START` on and the program from
/// `PC_START` on.
pub proof fn lemma_font_and_program_lie_apart(machine: Machine, program: Seq<u8>)
    requires
        machine.memory.bytes.len() == MEMORY_SIZE,
        program.len() <= MEMORY_SIZE - PC_START,
    ensures
        ({
            let font_first = machine.install(FONT_START, FONTS@).0.install(PC_START, program).0;
            let program_first = machine.install(PC_START, program).0.install(FONT_START, FONTS@).0;
            &&& font_first == program_first
            &&& font_first.memory.bytes.subrange(FONT_START as int, FONT_START + FONTS@.len())
                == FONTS@
            &&& font_first.memory.bytes.subrange(PC_START as int, PC_START + program.len())
                == program
        }),
{
    let font_first = machine.install(FONT_START, FONTS@).0.install(PC_START, program).0;
    let program_first = machine.install(PC_START, program).0.install(FONT_START, FONTS@).0;
    assert(font_first.memory.bytes =~= program_first.memory.bytes);
    assert(font_first.memory.bytes.subrange(FONT_START as int, FONT_START + FONTS@.len())
        =~= FONTS@);
    assert(font_first.memory.bytes.subrange(PC_START as int, PC_START + program.len())
        =~= program);
}

} // verus!
