use chip8::cpu::Cpu;
use chip8::decoder::Instruction;
use chip8::decoder::RegisterRegister;
use chip8::decoder::RegisterRegisterNibble;
use chip8::decoder::RegisterVal;
use chip8::display::Display;
use chip8::fault::Fault;
use chip8::memory::Memory;
use chip8::memory::Word;

struct Rig {
    cpu: Cpu,
    memory: Memory,
    display: Display,
    keys: [bool; 16],
}

impl Rig {
    fn new() -> Rig {
        Rig { cpu: Cpu::new(), memory: Memory::new(4096), display: Display::new(), keys: [false; 16] }
    }

    fn run(&mut self, instruction: Instruction) -> Result<(), Fault> {
        self.cpu.execute(instruction, &mut self.memory, &mut self.display, &self.keys, 0)
    }

    fn set(&mut self, register: u8, value: u8) {
        self.cpu.set_reg(register, value);
    }

    fn v(&self, register: u8) -> u8 {
        self.cpu.get_reg(register)
    }

    fn pc(&self) -> u16 {
        self.cpu.program_counter().full()
    }

    fn i(&self) -> u16 {
        self.cpu.index_register().full()
    }

    fn registers(&self) -> Vec<u8> {
        (0..16).map(|register| self.cpu.get_reg(register)).collect()
    }

    fn bytes(&self, start: u16, length: u8) -> Vec<u8> {
        self.memory.read_slice(&Word::new_from_full(start), length).to_vec()
    }
}

fn two(first_reg: u8, second_reg: u8) -> RegisterRegister {
    RegisterRegister { first_reg, second_reg }
}

fn with_value(register: u8, value: u8) -> RegisterVal {
    RegisterVal { register, value }
}

fn address(full: u16) -> Word {
    Word::new_from_full(full)
}

#[test]
fn new_cpu_starts_at_0x200_with_everything_zero() {
    let rig = Rig::new();

    assert_eq!(rig.pc(), 0x200);
    assert_eq!(rig.i(), 0);
    assert_eq!(rig.cpu.stack_pointer().full(), 0);
    assert_eq!(rig.cpu.delay_timer(), 0);
    assert_eq!(rig.cpu.sound_timer(), 0);
    assert!(!rig.cpu.tone_active());
    assert_eq!(rig.registers(), vec![0; 16]);
}

#[test]
fn registers_are_set_and_read() {
    let mut cpu = Cpu::new();

    cpu.set_reg(0, 1);
    cpu.set_reg(15, 200);
    *cpu.get_mut_reg(7) = 77;
    *cpu.get_mut_reg(15) |= 0x0F;

    assert_eq!(cpu.get_reg(0), 1);
    assert_eq!(cpu.get_reg(7), 77);
    assert_eq!(cpu.get_reg(15), 207);
    assert_eq!(cpu.get_reg(8), 0);
}

#[test]
fn program_counter_is_moved_in_place() {
    let mut cpu = Cpu::new();

    cpu.program_counter_mut().advance(2);
    assert_eq!(cpu.program_counter().full(), 0x202);

    *cpu.program_counter_mut() = Word::new_from_full(0x300);
    assert_eq!(cpu.program_counter().full(), 0x300);
    assert_eq!(cpu.program_counter().high(), 0x03);
}

#[test]
fn load_then_add_gives_8_without_carry() {
    let mut rig = Rig::new();

    assert_eq!(rig.run(Instruction::LD(with_value(0, 5))), Ok(()));
    assert_eq!(rig.run(Instruction::ADD(with_value(0, 3))), Ok(()));

    assert_eq!(rig.v(0), 8);
    assert_eq!(rig.v(0xF), 0);
}

#[test]
fn add_wraps_and_sets_the_flag() {
    let mut rig = Rig::new();
    rig.set(2, 250);

    rig.run(Instruction::ADD(with_value(2, 10))).unwrap();

    assert_eq!(rig.v(2), 4);
    assert_eq!(rig.v(0xF), 1);
}

#[test]
fn add_to_255_is_no_carry_and_to_256_is() {
    let mut rig = Rig::new();
    rig.set(1, 200);
    rig.run(Instruction::ADD(with_value(1, 55))).unwrap();
    assert_eq!((rig.v(1), rig.v(0xF)), (255, 0));

    let mut rig = Rig::new();
    rig.set(1, 200);
    rig.run(Instruction::ADD(with_value(1, 56))).unwrap();
    assert_eq!((rig.v(1), rig.v(0xF)), (0, 1));
}

#[test]
fn add_clears_a_flag_left_from_before() {
    let mut rig = Rig::new();
    rig.set(0xF, 1);
    rig.set(3, 1);

    rig.run(Instruction::ADD(with_value(3, 1))).unwrap();

    assert_eq!((rig.v(3), rig.v(0xF)), (2, 0));
}

#[test]
fn addr_sets_carry_exactly_above_255_for_all_byte_pairs() {
    for a in 0u16..=255 {
        for b in 0u16..=255 {
            let mut rig = Rig::new();
            rig.set(4, a as u8);
            rig.set(9, b as u8);

            rig.run(Instruction::ADDR(two(4, 9))).unwrap();

            assert_eq!(rig.v(4) as u16, (a + b) % 256);
            assert_eq!(rig.v(0xF), if a + b > 255 { 1 } else { 0 });
            assert_eq!(rig.v(9) as u16, b);
        }
    }
}

#[test]
fn addr_of_a_register_to_itself_doubles_it() {
    let mut rig = Rig::new();
    rig.set(5, 0x90);

    rig.run(Instruction::ADDR(two(5, 5))).unwrap();

    assert_eq!((rig.v(5), rig.v(0xF)), (0x20, 1));
}

#[test]
fn addr_reads_its_summands_again_once_the_flag_is_set() {
    let mut rig = Rig::new();
    rig.set(1, 250);
    rig.set(0xF, 10);

    rig.run(Instruction::ADDR(two(1, 0xF))).unwrap();

    assert_eq!((rig.v(1), rig.v(0xF)), (251, 1));
}

#[test]
fn a_sum_into_the_flag_register_is_the_carry_raised_by_the_summand() {
    let mut rig = Rig::new();
    rig.set(0xF, 200);
    rig.set(1, 100);
    rig.run(Instruction::ADDR(two(0xF, 1))).unwrap();
    assert_eq!(rig.v(0xF), 101);

    let mut rig = Rig::new();
    rig.set(0xF, 7);
    rig.run(Instruction::ADD(with_value(0xF, 5))).unwrap();
    assert_eq!(rig.v(0xF), 5);

    let mut rig = Rig::new();
    rig.set(0xF, 200);
    rig.run(Instruction::ADD(with_value(0xF, 100))).unwrap();
    assert_eq!(rig.v(0xF), 101);

    let mut rig = Rig::new();
    rig.set(0xF, 200);
    rig.run(Instruction::ADDR(two(0xF, 0xF))).unwrap();
    assert_eq!(rig.v(0xF), 2);
}

#[test]
fn a_difference_or_a_shift_into_the_flag_register_wins_over_the_flag() {
    let mut rig = Rig::new();
    rig.set(0xF, 9);
    rig.set(1, 4);
    rig.run(Instruction::SUBR(two(0xF, 1))).unwrap();
    assert_eq!(rig.v(0xF), 5);

    let mut rig = Rig::new();
    rig.set(0xF, 6);
    rig.run(Instruction::SHR(0xF)).unwrap();
    assert_eq!(rig.v(0xF), 3);

    let mut rig = Rig::new();
    rig.set(0xF, 0x81);
    rig.run(Instruction::SHL(0xF)).unwrap();
    assert_eq!(rig.v(0xF), 0x02);
}

#[test]
fn subr_sets_the_flag_exactly_where_the_first_is_greater_for_all_byte_pairs() {
    for a in 0i32..=255 {
        for b in 0i32..=255 {
            let mut rig = Rig::new();
            rig.set(0, a as u8);
            rig.set(1, b as u8);

            rig.run(Instruction::SUBR(two(0, 1))).unwrap();

            assert_eq!(rig.v(0) as i32, (a - b).rem_euclid(256));
            assert_eq!(rig.v(0xF), if a > b { 1 } else { 0 });
        }
    }
}

#[test]
fn subr_of_equal_values_is_zero_with_the_flag_down() {
    let mut rig = Rig::new();
    rig.set(0, 9);
    rig.set(1, 9);
    rig.set(0xF, 1);

    rig.run(Instruction::SUBR(two(0, 1))).unwrap();

    assert_eq!((rig.v(0), rig.v(0xF)), (0, 0));
}

#[test]
fn subr_wraps_below_zero() {
    let mut rig = Rig::new();
    rig.set(0, 3);
    rig.set(1, 5);

    rig.run(Instruction::SUBR(two(0, 1))).unwrap();

    assert_eq!((rig.v(0), rig.v(0xF)), (254, 0));
}

#[test]
fn subnr_subtracts_the_first_from_the_second() {
    let mut rig = Rig::new();
    rig.set(0, 3);
    rig.set(1, 5);
    rig.run(Instruction::SUBNR(two(0, 1))).unwrap();
    assert_eq!((rig.v(0), rig.v(1), rig.v(0xF)), (2, 5, 1));

    let mut rig = Rig::new();
    rig.set(0, 5);
    rig.set(1, 3);
    rig.run(Instruction::SUBNR(two(0, 1))).unwrap();
    assert_eq!((rig.v(0), rig.v(0xF)), (254, 0));

    let mut rig = Rig::new();
    rig.set(0, 5);
    rig.set(1, 5);
    rig.run(Instruction::SUBNR(two(0, 1))).unwrap();
    assert_eq!((rig.v(0), rig.v(0xF)), (0, 0));
}

#[test]
fn shifts_put_the_lost_bit_in_the_flag_for_every_value() {
    for value in 0u16..=255 {
        let value = value as u8;

        let mut rig = Rig::new();
        rig.set(6, value);
        rig.run(Instruction::SHR(6)).unwrap();
        assert_eq!(rig.v(6), value >> 1);
        assert_eq!(rig.v(0xF), value & 1);

        rig.run(Instruction::SHL(6)).unwrap();
        assert_eq!(rig.v(6), value & 0xFE);
        assert_eq!(rig.v(0xF), 0);

        let mut rig = Rig::new();
        rig.set(6, value);
        rig.run(Instruction::SHL(6)).unwrap();
        assert_eq!(rig.v(6), value << 1);
        assert_eq!(rig.v(0xF), value >> 7);
    }
}

#[test]
fn shift_right_of_3_and_left_of_0x81() {
    let mut rig = Rig::new();
    rig.set(0, 3);
    rig.run(Instruction::SHR(0)).unwrap();
    assert_eq!((rig.v(0), rig.v(0xF)), (1, 1));

    let mut rig = Rig::new();
    rig.set(0, 0x81);
    rig.run(Instruction::SHL(0)).unwrap();
    assert_eq!((rig.v(0), rig.v(0xF)), (0x02, 1));
}

#[test]
fn bitwise_operations_leave_the_flag_alone() {
    let mut rig = Rig::new();
    rig.set(0xF, 0x5A);
    rig.set(0, 0b1100);
    rig.set(1, 0b1010);
    rig.run(Instruction::ORR(two(0, 1))).unwrap();
    assert_eq!((rig.v(0), rig.v(1), rig.v(0xF)), (0b1110, 0b1010, 0x5A));

    rig.set(0, 0b1100);
    rig.run(Instruction::ANDR(two(0, 1))).unwrap();
    assert_eq!((rig.v(0), rig.v(0xF)), (0b1000, 0x5A));

    rig.set(0, 0b1100);
    rig.run(Instruction::XORR(two(0, 1))).unwrap();
    assert_eq!((rig.v(0), rig.v(0xF)), (0b0110, 0x5A));

    rig.run(Instruction::LDR(two(0, 1))).unwrap();
    assert_eq!((rig.v(0), rig.v(0xF)), (0b1010, 0x5A));
}

#[test]
fn xor_of_a_register_with_itself_is_zero() {
    let mut rig = Rig::new();
    rig.set(3, 0xC7);

    rig.run(Instruction::XORR(two(3, 3))).unwrap();

    assert_eq!(rig.v(3), 0);
}

#[test]
fn jump_sets_the_program_counter() {
    let mut rig = Rig::new();

    rig.run(Instruction::JUMP(address(0x345))).unwrap();

    assert_eq!(rig.pc(), 0x345);
    assert_eq!(rig.memory.stack_depth(), 0);
}

#[test]
fn jump_v0_adds_register_0() {
    let mut rig = Rig::new();
    rig.set(0, 0x10);
    rig.run(Instruction::JUMPV0(address(0x300))).unwrap();
    assert_eq!(rig.pc(), 0x310);

    let mut rig = Rig::new();
    rig.set(0, 0xFF);
    rig.run(Instruction::JUMPV0(address(0xFFF))).unwrap();
    assert_eq!(rig.pc(), 0x10FE);
}

#[test]
fn call_and_return_go_through_the_stack() {
    let mut rig = Rig::new();

    rig.run(Instruction::CALL(address(0x400))).unwrap();
    assert_eq!(rig.pc(), 0x400);
    assert_eq!(rig.memory.stack_depth(), 1);
    assert_eq!(rig.cpu.stack_pointer().full(), 1);

    rig.run(Instruction::CALL(address(0x500))).unwrap();
    assert_eq!(rig.pc(), 0x500);
    assert_eq!(rig.cpu.stack_pointer().full(), 2);

    rig.run(Instruction::RET).unwrap();
    assert_eq!(rig.pc(), 0x400);
    rig.run(Instruction::RET).unwrap();
    assert_eq!(rig.pc(), 0x200);
    assert_eq!(rig.memory.stack_depth(), 0);
    assert_eq!(rig.cpu.stack_pointer().full(), 0);
}

#[test]
fn return_on_an_empty_stack_is_a_fault() {
    let mut rig = Rig::new();

    assert_eq!(rig.run(Instruction::RET), Err(Fault::StackUnderflow));

    assert_eq!(rig.pc(), 0x200);
    assert_eq!(rig.cpu.stack_pointer().full(), 0);
}

#[test]
fn the_seventeenth_call_is_a_fault() {
    let mut rig = Rig::new();
    for depth in 0..16u16 {
        assert_eq!(rig.run(Instruction::CALL(address(0x300 + depth))), Ok(()));
    }
    assert_eq!(rig.memory.stack_depth(), 16);

    assert_eq!(rig.run(Instruction::CALL(address(0x999))), Err(Fault::StackOverflow));

    assert_eq!(rig.pc(), 0x30F);
    assert_eq!(rig.memory.stack_depth(), 16);
    assert_eq!(rig.cpu.stack_pointer().full(), 16);
}

#[test]
fn an_unknown_opcode_is_a_fault_that_carries_it() {
    let mut rig = Rig::new();

    assert_eq!(
        rig.run(Instruction::Unknown(Word::new_from_full(0x0123))),
        Err(Fault::UnknownOpcode(0x0123))
    );
    assert_eq!(rig.pc(), 0x200);
}

#[test]
fn skips_compare_a_register_with_a_value() {
    let mut rig = Rig::new();
    rig.set(1, 7);

    rig.run(Instruction::SE(with_value(1, 7))).unwrap();
    assert_eq!(rig.pc(), 0x202);
    rig.run(Instruction::SE(with_value(1, 8))).unwrap();
    assert_eq!(rig.pc(), 0x202);
    rig.run(Instruction::SNE(with_value(1, 8))).unwrap();
    assert_eq!(rig.pc(), 0x204);
    rig.run(Instruction::SNE(with_value(1, 7))).unwrap();
    assert_eq!(rig.pc(), 0x204);
}

#[test]
fn skips_compare_two_registers() {
    let mut rig = Rig::new();
    rig.set(1, 7);
    rig.set(2, 7);
    rig.set(3, 9);

    rig.run(Instruction::SER(two(1, 2))).unwrap();
    assert_eq!(rig.pc(), 0x202);
    rig.run(Instruction::SER(two(1, 3))).unwrap();
    assert_eq!(rig.pc(), 0x202);
    rig.run(Instruction::SNER(two(1, 3))).unwrap();
    assert_eq!(rig.pc(), 0x204);
    rig.run(Instruction::SNER(two(1, 2))).unwrap();
    assert_eq!(rig.pc(), 0x204);
}

#[test]
fn key_skips_look_at_the_key_named_by_the_register() {
    let mut rig = Rig::new();
    rig.keys[0xA] = true;
    rig.set(4, 0xA);
    rig.set(5, 0x0);

    rig.run(Instruction::SKP(4)).unwrap();
    assert_eq!(rig.pc(), 0x202);
    rig.run(Instruction::SKP(5)).unwrap();
    assert_eq!(rig.pc(), 0x202);
    rig.run(Instruction::SKNP(5)).unwrap();
    assert_eq!(rig.pc(), 0x204);
    rig.run(Instruction::SKNP(4)).unwrap();
    assert_eq!(rig.pc(), 0x204);
}

#[test]
fn key_skip_on_the_last_key() {
    let mut rig = Rig::new();
    rig.keys[0xF] = true;
    rig.set(0, 0xF);

    rig.run(Instruction::SKP(0)).unwrap();

    assert_eq!(rig.pc(), 0x202);
}

#[test]
fn a_key_that_the_keypad_lacks_is_a_fault() {
    let mut rig = Rig::new();
    rig.set(4, 16);
    assert_eq!(rig.run(Instruction::SKP(4)), Err(Fault::InvalidKey(16)));
    assert_eq!(rig.pc(), 0x200);

    rig.set(4, 255);
    assert_eq!(rig.run(Instruction::SKNP(4)), Err(Fault::InvalidKey(255)));
    assert_eq!(rig.pc(), 0x200);
}

#[test]
fn wait_for_key_takes_the_lowest_pressed_key() {
    let mut rig = Rig::new();
    rig.keys[0x9] = true;
    rig.keys[0x3] = true;

    rig.run(Instruction::LDK(7)).unwrap();

    assert_eq!(rig.v(7), 3);
    assert_eq!(rig.pc(), 0x200);
}

#[test]
fn wait_for_key_takes_key_0_and_key_f() {
    let mut rig = Rig::new();
    rig.set(7, 0xAA);
    rig.keys[0x0] = true;
    rig.run(Instruction::LDK(7)).unwrap();
    assert_eq!(rig.v(7), 0);

    let mut rig = Rig::new();
    rig.keys[0xF] = true;
    rig.run(Instruction::LDK(7)).unwrap();
    assert_eq!(rig.v(7), 0xF);
}

#[test]
fn wait_for_key_steps_back_while_no_key_is_pressed() {
    let mut rig = Rig::new();
    rig.cpu.program_counter_mut().advance(2);
    rig.set(7, 0x55);

    rig.run(Instruction::LDK(7)).unwrap();

    assert_eq!(rig.pc(), 0x200);
    assert_eq!(rig.v(7), 0x55);

    rig.cpu.program_counter_mut().advance(2);
    rig.keys[0xB] = true;
    rig.run(Instruction::LDK(7)).unwrap();
    assert_eq!(rig.pc(), 0x202);
    assert_eq!(rig.v(7), 0xB);
}

#[test]
fn index_register_is_loaded_and_added_to() {
    let mut rig = Rig::new();

    rig.run(Instruction::LDI(address(0x123))).unwrap();
    assert_eq!(rig.i(), 0x123);

    rig.set(2, 0xFF);
    rig.set(0xF, 9);
    rig.run(Instruction::ADDI(2)).unwrap();
    assert_eq!(rig.i(), 0x222);
    assert_eq!(rig.v(0xF), 9);
}

#[test]
fn index_register_wraps_at_sixteen_bits() {
    let mut rig = Rig::new();
    rig.run(Instruction::LDI(address(0xFFFF))).unwrap();
    rig.set(0, 2);

    rig.run(Instruction::ADDI(0)).unwrap();

    assert_eq!(rig.i(), 1);
}

#[test]
fn font_address_is_five_times_the_digit() {
    let mut rig = Rig::new();
    rig.set(3, 0xA);

    rig.run(Instruction::LDFONT(3)).unwrap();

    assert_eq!(rig.i(), 50);
}

#[test]
fn bcd_of_255_and_of_7() {
    let mut rig = Rig::new();
    rig.run(Instruction::LDI(address(0x300))).unwrap();
    rig.set(1, 255);
    rig.run(Instruction::LDBCD(1)).unwrap();
    assert_eq!(rig.bytes(0x300, 3), vec![2, 5, 5]);

    rig.set(1, 7);
    rig.run(Instruction::LDBCD(1)).unwrap();
    assert_eq!(rig.bytes(0x300, 3), vec![0, 0, 7]);
    assert_eq!(rig.i(), 0x300);
}

#[test]
fn bcd_of_0_and_of_120() {
    let mut rig = Rig::new();
    rig.memory.write_slice(&address(0x2FF), &[9, 9, 9, 9, 9]);
    rig.run(Instruction::LDI(address(0x300))).unwrap();
    rig.run(Instruction::LDBCD(0)).unwrap();
    assert_eq!(rig.bytes(0x2FF, 5), vec![9, 0, 0, 0, 9]);

    rig.set(0, 120);
    rig.run(Instruction::LDBCD(0)).unwrap();
    assert_eq!(rig.bytes(0x2FF, 5), vec![9, 1, 2, 0, 9]);
}

#[test]
fn bcd_outside_memory_is_a_fault_and_writes_nothing() {
    let mut rig = Rig::new();
    rig.run(Instruction::LDI(address(0xFFE))).unwrap();
    rig.set(0, 123);

    assert_eq!(rig.run(Instruction::LDBCD(0)), Err(Fault::OutOfRange { address: 0x1000 }));
    assert_eq!(rig.bytes(0xFFE, 2), vec![0, 0]);

    rig.run(Instruction::LDI(address(0xFFD))).unwrap();
    assert_eq!(rig.run(Instruction::LDBCD(0)), Ok(()));
    assert_eq!(rig.bytes(0xFFD, 3), vec![1, 2, 3]);
}

#[test]
fn store_then_load_restores_the_registers() {
    let mut rig = Rig::new();
    for register in 0..16u8 {
        rig.set(register, 100 + register);
    }
    rig.run(Instruction::LDI(address(0x400))).unwrap();

    rig.run(Instruction::STARR(0xF)).unwrap();
    assert_eq!(rig.bytes(0x400, 16), (100..116).collect::<Vec<u8>>());
    assert_eq!(rig.i(), 0x400);

    for register in 0..16u8 {
        rig.set(register, 0);
    }
    rig.run(Instruction::LDARR(0xF)).unwrap();

    assert_eq!(rig.registers(), (100..116).collect::<Vec<u8>>());
    assert_eq!(rig.i(), 0x400);
}

#[test]
fn store_and_load_stop_at_the_register_named() {
    let mut rig = Rig::new();
    for register in 0..16u8 {
        rig.set(register, 10 + register);
    }
    rig.run(Instruction::LDI(address(0x400))).unwrap();

    rig.run(Instruction::STARR(2)).unwrap();
    assert_eq!(rig.bytes(0x400, 5), vec![10, 11, 12, 0, 0]);

    for register in 0..16u8 {
        rig.set(register, 0);
    }
    rig.run(Instruction::LDARR(1)).unwrap();
    assert_eq!(rig.registers(), vec![10, 11, 0, 0, 0, 0, 0, 0, 0, 0, 0, 0, 0, 0, 0, 0]);
}

#[test]
fn store_and_load_of_register_0_alone() {
    let mut rig = Rig::new();
    rig.set(0, 42);
    rig.set(1, 43);
    rig.run(Instruction::LDI(address(0xFFF))).unwrap();

    rig.run(Instruction::STARR(0)).unwrap();
    assert_eq!(rig.bytes(0xFFF, 1), vec![42]);

    rig.set(0, 0);
    rig.run(Instruction::LDARR(0)).unwrap();
    assert_eq!((rig.v(0), rig.v(1)), (42, 43));
}

#[test]
fn store_and_load_outside_memory_are_faults_that_change_nothing() {
    let mut rig = Rig::new();
    rig.set(0, 1);
    rig.set(1, 2);
    rig.run(Instruction::LDI(address(0xFFF))).unwrap();

    assert_eq!(rig.run(Instruction::STARR(1)), Err(Fault::OutOfRange { address: 0x1000 }));
    assert_eq!(rig.bytes(0xFFF, 1), vec![0]);
    assert_eq!(rig.run(Instruction::LDARR(1)), Err(Fault::OutOfRange { address: 0x1000 }));
    assert_eq!((rig.v(0), rig.v(1)), (1, 2));

    rig.run(Instruction::LDI(address(0x1234))).unwrap();
    assert_eq!(rig.run(Instruction::LDARR(0)), Err(Fault::OutOfRange { address: 0x1234 }));
}

#[test]
fn draw_takes_the_sprite_from_the_index_register() {
    let mut rig = Rig::new();
    rig.memory.write_slice(&address(0x300), &[0b1000_0000]);
    rig.run(Instruction::LDI(address(0x300))).unwrap();
    rig.set(0, 10);
    rig.set(1, 5);
    let draw = Instruction::DRW(RegisterRegisterNibble { first_reg: 0, second_reg: 1, nibble: 1 });

    rig.run(draw).unwrap();
    assert_eq!(rig.v(0xF), 0);
    assert_eq!(rig.display.pixel(10, 5), 1);
    assert!(rig.display.vram_changed());

    rig.run(draw).unwrap();
    assert_eq!(rig.v(0xF), 1);
    assert_eq!(rig.display.pixel(10, 5), 0);
}

#[test]
fn draw_wraps_at_the_edges() {
    let mut rig = Rig::new();
    rig.memory.write_slice(&address(0x300), &[0b1100_0000, 0b1000_0000]);
    rig.run(Instruction::LDI(address(0x300))).unwrap();
    rig.set(2, 63);
    rig.set(3, 31);

    rig.run(Instruction::DRW(RegisterRegisterNibble { first_reg: 2, second_reg: 3, nibble: 2 }))
        .unwrap();

    assert_eq!(rig.display.pixel(63, 31), 1);
    assert_eq!(rig.display.pixel(0, 31), 1);
    assert_eq!(rig.display.pixel(63, 0), 1);
    assert_eq!(rig.display.pixel(0, 0), 0);
    assert_eq!(rig.v(0xF), 0);
}

#[test]
fn draw_of_a_glyph_from_the_font_area() {
    let mut rig = Rig::new();
    rig.memory.write_slice(&address(5), &[0x20, 0x60, 0x20, 0x20, 0x70]);
    rig.set(0, 1);
    rig.run(Instruction::LDFONT(0)).unwrap();
    rig.set(1, 0);
    rig.set(2, 0);

    rig.run(Instruction::DRW(RegisterRegisterNibble { first_reg: 1, second_reg: 2, nibble: 5 }))
        .unwrap();

    let shown: Vec<Vec<u8>> =
        (0..5).map(|y| (0..4).map(|x| rig.display.pixel(x, y)).collect()).collect();
    assert_eq!(
        shown,
        vec![
            vec![0, 0, 1, 0],
            vec![0, 1, 1, 0],
            vec![0, 0, 1, 0],
            vec![0, 0, 1, 0],
            vec![0, 1, 1, 1],
        ]
    );
}

#[test]
fn draw_of_no_rows_marks_the_display_and_clears_the_flag() {
    let mut rig = Rig::new();
    rig.set(0xF, 1);

    rig.run(Instruction::DRW(RegisterRegisterNibble { first_reg: 0, second_reg: 0, nibble: 0 }))
        .unwrap();

    assert_eq!(rig.v(0xF), 0);
    assert!(rig.display.vram_changed());
}

#[test]
fn draw_outside_memory_is_a_fault_that_draws_nothing() {
    let mut rig = Rig::new();
    rig.memory.write_slice(&address(0xFFE), &[0xFF, 0xFF]);
    rig.run(Instruction::LDI(address(0xFFE))).unwrap();

    let result = rig.run(Instruction::DRW(RegisterRegisterNibble {
        first_reg: 0,
        second_reg: 0,
        nibble: 3,
    }));

    assert_eq!(result, Err(Fault::OutOfRange { address: 0x1000 }));
    assert_eq!(rig.display.pixel(0, 0), 0);
    assert!(!rig.display.vram_changed());
}

#[test]
fn clear_screen_blanks_the_display() {
    let mut rig = Rig::new();
    rig.memory.write_slice(&address(0x300), &[0xFF]);
    rig.run(Instruction::LDI(address(0x300))).unwrap();
    rig.run(Instruction::DRW(RegisterRegisterNibble { first_reg: 0, second_reg: 0, nibble: 1 }))
        .unwrap();
    rig.display.refresh_display();

    rig.run(Instruction::CLS).unwrap();

    assert_eq!(rig.display.pixel(0, 0), 0);
    assert_eq!(rig.display.pixel(7, 0), 0);
    assert!(rig.display.vram_changed());
}

#[test]
fn delay_timer_goes_down_once_with_every_instruction() {
    let mut rig = Rig::new();
    rig.set(0, 3);

    rig.run(Instruction::LDDTV(0)).unwrap();
    assert_eq!(rig.cpu.delay_timer(), 3);
    rig.run(Instruction::JUMP(address(0x200))).unwrap();
    assert_eq!(rig.cpu.delay_timer(), 2);
    rig.run(Instruction::LDVDT(5)).unwrap();
    assert_eq!(rig.v(5), 1);
    assert_eq!(rig.cpu.delay_timer(), 1);
    rig.run(Instruction::CLS).unwrap();
    assert_eq!(rig.cpu.delay_timer(), 0);
    rig.run(Instruction::CLS).unwrap();
    assert_eq!(rig.cpu.delay_timer(), 0);
}

#[test]
fn timers_go_down_before_a_fault_too() {
    let mut rig = Rig::new();
    rig.set(0, 5);
    rig.run(Instruction::LDDTV(0)).unwrap();
    rig.run(Instruction::LDSTV(0)).unwrap();
    assert_eq!((rig.cpu.delay_timer(), rig.cpu.sound_timer()), (4, 5));

    assert_eq!(rig.run(Instruction::RET), Err(Fault::StackUnderflow));

    assert_eq!((rig.cpu.delay_timer(), rig.cpu.sound_timer()), (3, 4));
}

#[test]
fn sound_timer_goes_down_and_the_tone_stops_at_zero() {
    let mut rig = Rig::new();
    rig.set(0, 2);

    rig.run(Instruction::LDSTV(0)).unwrap();
    assert_eq!(rig.cpu.sound_timer(), 2);
    assert!(rig.cpu.tone_active());
    rig.run(Instruction::CLS).unwrap();
    assert_eq!(rig.cpu.sound_timer(), 1);
    assert!(rig.cpu.tone_active());
    rig.run(Instruction::CLS).unwrap();
    assert_eq!(rig.cpu.sound_timer(), 0);
    assert!(!rig.cpu.tone_active());
    rig.run(Instruction::CLS).unwrap();
    assert_eq!(rig.cpu.sound_timer(), 0);
}

#[test]
fn random_byte_is_masked_by_the_value() {
    let mut rig = Rig::new();
    let keys = [false; 16];

    rig.cpu
        .execute(Instruction::RND(with_value(3, 0x0F)), &mut rig.memory, &mut rig.display, &keys, 0xAB)
        .unwrap();
    assert_eq!(rig.v(3), 0x0B);

    rig.cpu
        .execute(Instruction::RND(with_value(3, 0xFF)), &mut rig.memory, &mut rig.display, &keys, 0xAB)
        .unwrap();
    assert_eq!(rig.v(3), 0xAB);

    rig.cpu
        .execute(Instruction::RND(with_value(3, 0x00)), &mut rig.memory, &mut rig.display, &keys, 0xAB)
        .unwrap();
    assert_eq!(rig.v(3), 0x00);
}

#[test]
fn only_rnd_looks_at_the_random_byte() {
    let keys = [false; 16];
    let mut one = Rig::new();
    let mut other = Rig::new();

    one.cpu
        .execute(Instruction::ADD(with_value(1, 9)), &mut one.memory, &mut one.display, &keys, 0x00)
        .unwrap();
    other
        .cpu
        .execute(Instruction::ADD(with_value(1, 9)), &mut other.memory, &mut other.display, &keys, 0xFF)
        .unwrap();

    assert_eq!(one.registers(), other.registers());
    assert_eq!(one.pc(), other.pc());
}

#[test]
fn run_instruction_draws_bytes_that_differ() {
    let mut rig = Rig::new();
    let keys = [false; 16];
    let mut seen_nonzero = false;
    let mut seen = std::collections::BTreeSet::new();

    for _ in 0..512 {
        rig.cpu
            .run_instruction(
                Instruction::RND(with_value(0, 0xFF)),
                &mut rig.memory,
                &mut rig.display,
                &keys,
            )
            .unwrap();
        seen_nonzero = seen_nonzero || rig.v(0) != 0;
        seen.insert(rig.v(0));
    }

    assert!(seen_nonzero);
    assert!(seen.len() > 16);
}

#[test]
fn run_instruction_masks_what_it_draws() {
    let mut rig = Rig::new();
    let keys = [false; 16];

    for _ in 0..256 {
        rig.cpu
            .run_instruction(
                Instruction::RND(with_value(0, 0x0F)),
                &mut rig.memory,
                &mut rig.display,
                &keys,
            )
            .unwrap();
        assert!(rig.v(0) <= 0x0F);
    }
}

#[test]
fn run_instruction_runs_the_other_instructions_as_execute_does() {
    let mut rig = Rig::new();
    let keys = [false; 16];

    rig.cpu
        .run_instruction(Instruction::LD(with_value(0, 5)), &mut rig.memory, &mut rig.display, &keys)
        .unwrap();
    rig.cpu
        .run_instruction(Instruction::ADD(with_value(0, 3)), &mut rig.memory, &mut rig.display, &keys)
        .unwrap();
    let fault = rig.cpu.run_instruction(Instruction::RET, &mut rig.memory, &mut rig.display, &keys);

    assert_eq!(rig.v(0), 8);
    assert_eq!(rig.v(0xF), 0);
    assert_eq!(fault, Err(Fault::StackUnderflow));
}
