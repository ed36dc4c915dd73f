//! From a fetched opcode to the instruction it names.

use vstd::prelude::*;
use crate::memory::Byte;
use crate::memory::Word;

verus! {

/// One instruction with its operands. The order follows the common
/// reference for this instruction set.
#[derive(Clone, Copy, Debug, PartialEq, Eq)]
pub enum Instruction {
    /// An opcode that names no instruction, kept for diagnostics.
    Unknown(Word),
    CLS,
    RET,
    JUMP(Word),
    CALL(Word),
    SE(RegisterVal),
    SNE(RegisterVal),
    SER(RegisterRegister),
    LD(RegisterVal),
    ADD(RegisterVal),
    LDR(RegisterRegister),
    ORR(RegisterRegister),
    ANDR(RegisterRegister),
    XORR(RegisterRegister),
    ADDR(RegisterRegister),
    SUBR(RegisterRegister),
    /// Shift right.
    SHR(Byte),
    SUBNR(RegisterRegister),
    /// Shift left.
    SHL(Byte),
    SNER(RegisterRegister),
    LDI(Word),
    JUMPV0(Word),
    RND(RegisterVal),
    DRW(RegisterRegisterNibble),
    SKP(Byte),
    SKNP(Byte),
    /// Load the delay timer into a register.
    LDVDT(Byte),
    LDK(Byte),
    /// Load a register into the delay timer.
    LDDTV(Byte),
    LDSTV(Byte),
    ADDI(Byte),
    LDFONT(Byte),
    LDBCD(Byte),
    STARR(Byte),
    LDARR(Byte),
}

/// A register and an immediate byte.
#[derive(Clone, Copy, Debug, PartialEq, Eq)]
pub struct RegisterVal {
    pub register: Byte,
    pub value: Byte,
}

/// Two registers.
#[derive(Clone, Copy, Debug, PartialEq, Eq)]
pub struct RegisterRegister {
    pub first_reg: Byte,
    pub second_reg: Byte,
}

/// Two registers and a four-bit count.
#[derive(Clone, Copy, Debug, PartialEq, Eq)]
pub struct RegisterRegisterNibble {
    pub first_reg: Byte,
    pub second_reg: Byte,
    pub nibble: Byte,
}

/// Bits 12 to 15 of an opcode: the group it belongs to.
pub open spec fn group_of(opcode: u16) -> int {
    opcode as int / 0x1000
}

/// Bits 8 to 11 of an opcode: its first register.
pub open spec fn register_of(opcode: u16) -> u8 {
    ((opcode as int / 0x100) % 0x10) as u8
}

/// Bits 4 to 7 of an opcode: its second register.
pub open spec fn second_register_of(opcode: u16) -> u8 {
    ((opcode as int / 0x10) % 0x10) as u8
}

/// Bits 0 to 3 of an opcode: a sprite's height, or the operation within a
/// group.
pub open spec fn nibble_of(opcode: u16) -> u8 {
    (opcode as int % 0x10) as u8
}

/// Bits 0 to 7 of an opcode: its immediate byte.
pub open spec fn value_of(opcode: u16) -> u8 {
    (opcode as int % 0x100) as u8
}

/// Bits 0 to 11 of an opcode: its address.
pub open spec fn address_of(opcode: u16) -> u16 {
    (opcode as int % 0x1000) as u16
}

/// The first register of `opcode` with its immediate byte.
pub open spec fn register_val_of(opcode: u16) -> RegisterVal {
    RegisterVal { register: register_of(opcode), value: value_of(opcode) }
}

/// The two registers of `opcode`.
pub open spec fn registers_of(opcode: u16) -> RegisterRegister {
    RegisterRegister { first_reg: register_of(opcode), second_reg: second_register_of(opcode) }
}

/// The two registers of `opcode` with its lowest four bits.
pub open spec fn registers_nibble_of(opcode: u16) -> RegisterRegisterNibble {
    RegisterRegisterNibble {
        first_reg: register_of(opcode),
        second_reg: second_register_of(opcode),
        nibble: nibble_of(opcode),
    }
}

/// Screen clear and return, told apart by the whole opcode.
pub open spec fn flow_of(opcode: u16) -> Instruction {
    if opcode == 0x00E0 {
        Instruction::CLS
    } else if opcode == 0x00EE {
        Instruction::RET
    } else {
        Instruction::Unknown(Word::of(opcode))
    }
}

/// The register-to-register operations, told apart by the lowest four bits.
pub open spec fn operations_of(opcode: u16) -> Instruction {
    let operation = nibble_of(opcode);
    if operation == 0x0 {
        Instruction::LDR(registers_of(opcode))
    } else if operation == 0x1 {
        Instruction::ORR(registers_of(opcode))
    } else if operation == 0x2 {
        Instruction::ANDR(registers_of(opcode))
    } else if operation == 0x3 {
        Instruction::XORR(registers_of(opcode))
    } else if operation == 0x4 {
        Instruction::ADDR(registers_of(opcode))
    } else if operation == 0x5 {
        Instruction::SUBR(registers_of(opcode))
    } else if operation == 0x6 {
        Instruction::SHR(register_of(opcode))
    } else if operation == 0x7 {
        Instruction::SUBNR(registers_of(opcode))
    } else if operation == 0xE {
        Instruction::SHL(register_of(opcode))
    } else {
        Instruction::Unknown(Word::of(opcode))
    }
}

/// The two key skips, told apart by the low byte.
pub open spec fn skip_keys_of(opcode: u16) -> Instruction {
    let selector = value_of(opcode);
    if selector == 0x9E {
        Instruction::SKP(register_of(opcode))
    } else if selector == 0xA1 {
        Instruction::SKNP(register_of(opcode))
    } else {
        Instruction::Unknown(Word::of(opcode))
    }
}

/// The timer, key, index and memory operations on one register, told apart
/// by the low byte.
pub open spec fn register_ops_of(opcode: u16) -> Instruction {
    let selector = value_of(opcode);
    if selector == 0x07 {
        Instruction::LDVDT(register_of(opcode))
    } else if selector == 0x0A {
        Instruction::LDK(register_of(opcode))
    } else if selector == 0x15 {
        Instruction::LDDTV(register_of(opcode))
    } else if selector == 0x18 {
        Instruction::LDSTV(register_of(opcode))
    } else if selector == 0x1E {
        Instruction::ADDI(register_of(opcode))
    } else if selector == 0x29 {
        Instruction::LDFONT(register_of(opcode))
    } else if selector == 0x33 {
        Instruction::LDBCD(register_of(opcode))
    } else if selector == 0x55 {
        Instruction::STARR(register_of(opcode))
    } else if selector == 0x65 {
        Instruction::LDARR(register_of(opcode))
    } else {
        Instruction::Unknown(Word::of(opcode))
    }
}

/// The instruction that `opcode` names: the group picks the instruction, or
/// the second-level table to look in.
pub open spec fn instruction_of(opcode: u16) -> Instruction {
    let group = group_of(opcode);
    if group == 0x0 {
        flow_of(opcode)
    } else if group == 0x1 {
        Instruction::JUMP(Word::of(address_of(opcode)))
    } else if group == 0x2 {
        Instruction::CALL(Word::of(address_of(opcode)))
    } else if group == 0x3 {
        Instruction::SE(register_val_of(opcode))
    } else if group == 0x4 {
        Instruction::SNE(register_val_of(opcode))
    } else if group == 0x5 {
        Instruction::SER(registers_of(opcode))
    } else if group == 0x6 {
        Instruction::LD(register_val_of(opcode))
    } else if group == 0x7 {
        Instruction::ADD(register_val_of(opcode))
    } else if group == 0x8 {
        operations_of(opcode)
    } else if group == 0x9 {
        Instruction::SNER(registers_of(opcode))
    } else if group == 0xA {
        Instruction::LDI(Word::of(address_of(opcode)))
    } else if group == 0xB {
        Instruction::JUMPV0(Word::of(address_of(opcode)))
    } else if group == 0xC {
        Instruction::RND(register_val_of(opcode))
    } else if group == 0xD {
        Instruction::DRW(registers_nibble_of(opcode))
    } else if group == 0xE {
        skip_keys_of(opcode)
    } else {
        register_ops_of(opcode)
    }
}

impl Instruction {
    /// Every register it names exists, and a sprite height fits four bits.
    pub open spec fn wf(self) -> bool {
        match self {
            Instruction::Unknown(_) => true,
            Instruction::CLS => true,
            Instruction::RET => true,
            Instruction::JUMP(_) => true,
            Instruction::CALL(_) => true,
            Instruction::SE(rv) => rv.register < 16,
            Instruction::SNE(rv) => rv.register < 16,
            Instruction::SER(rr) => rr.first_reg < 16 && rr.second_reg < 16,
            Instruction::LD(rv) => rv.register < 16,
            Instruction::ADD(rv) => rv.register < 16,
            Instruction::LDR(rr) => rr.first_reg < 16 && rr.second_reg < 16,
            Instruction::ORR(rr) => rr.first_reg < 16 && rr.second_reg < 16,
            Instruction::ANDR(rr) => rr.first_reg < 16 && rr.second_reg < 16,
            Instruction::XORR(rr) => rr.first_reg < 16 && rr.second_reg < 16,
            Instruction::ADDR(rr) => rr.first_reg < 16 && rr.second_reg < 16,
            Instruction::SUBR(rr) => rr.first_reg < 16 && rr.second_reg < 16,
            Instruction::SHR(r) => r < 16,
            Instruction::SUBNR(rr) => rr.first_reg < 16 && rr.second_reg < 16,
            Instruction::SHL(r) => r < 16,
            Instruction::SNER(rr) => rr.first_reg < 16 && rr.second_reg < 16,
            Instruction::LDI(_) => true,
            Instruction::JUMPV0(_) => true,
            Instruction::RND(rv) => rv.register < 16,
            Instruction::DRW(rrn) => rrn.first_reg < 16 && rrn.second_reg < 16 && rrn.nibble < 16,
            Instruction::SKP(r) => r < 16,
            Instruction::SKNP(r) => r < 16,
            Instruction::LDVDT(r) => r < 16,
            Instruction::LDK(r) => r < 16,
            Instruction::LDDTV(r) => r < 16,
            Instruction::LDSTV(r) => r < 16,
            Instruction::ADDI(r) => r < 16,
            Instruction::LDFONT(r) => r < 16,
            Instruction::LDBCD(r) => r < 16,
            Instruction::STARR(r) => r < 16,
            Instruction::LDARR(r) => r < 16,
        }
    }
}

/// The low four bits of a byte are its remainder by sixteen, and the high
/// four its quotient.
proof fn lemma_byte_halves(byte: u8)
    ensures
        byte & 0x0F == byte % 16,
        byte >> 4 == byte / 16,
{
    assert(byte & 0x0F == byte % 16) by (bit_vector);
    assert(byte >> 4 == byte / 16) by (bit_vector);
}

/// The second register can be read off the low byte alone.
proof fn lemma_second_register(opcode: u16)
    ensures
        (opcode % 0x100) / 0x10 == (opcode / 0x10) % 0x10,
{
    assert((opcode % 0x100) / 0x10 == (opcode / 0x10) % 0x10) by (bit_vector);
}

/// The lowest four bits can be read off the low byte alone.
proof fn lemma_low_nibble(opcode: u16)
    ensures
        (opcode % 0x100) % 0x10 == opcode % 0x10,
{
    assert((opcode % 0x100) % 0x10 == opcode % 0x10) by (bit_vector);
}

pub fn get_register(opcode: &Word) -> (register: Byte)
    ensures
        register == register_of(opcode@),
{
    proof {
        lemma_byte_halves(crate::memory::high_byte(opcode@));
    }
    opcode.high() & 0x0F
}

pub fn get_value(opcode: &Word) -> (value: Byte)
    ensures
        value == value_of(opcode@),
{
    opcode.low()
}

pub fn get_both_registers(opcode: &Word) -> (registers: (Byte, Byte))
    ensures
        registers == (register_of(opcode@), second_register_of(opcode@)),
{
    proof {
        lemma_byte_halves(crate::memory::high_byte(opcode@));
        lemma_byte_halves(crate::memory::low_byte(opcode@));
        lemma_second_register(opcode@);
    }
    (opcode.high() & 0x0F, opcode.low() >> 4)
}

pub fn get_both_registers_and_nibble(opcode: &Word) -> (operands: (Byte, Byte, Byte))
    ensures
        operands == (register_of(opcode@), second_register_of(opcode@), nibble_of(opcode@)),
{
    proof {
        lemma_byte_halves(crate::memory::high_byte(opcode@));
        lemma_byte_halves(crate::memory::low_byte(opcode@));
        lemma_second_register(opcode@);
        lemma_low_nibble(opcode@);
    }
    (opcode.high() & 0x0F, opcode.low() >> 4, opcode.low() & 0x0F)
}

pub fn get_address(opcode: &Word) -> (address: Word)
    ensures
        address == Word::of(address_of(opcode@)),
        address@ == address_of(opcode@),
{
    let full = opcode.full();
    assert(full & 0x0FFF == full % 0x1000) by (bit_vector);
    Word::new_from_full(full & 0x0FFF)
}

/// The group can be read off the high byte alone.
proof fn lemma_group(opcode: u16)
    ensures
        (opcode / 0x100) / 0x10 == opcode / 0x1000,
        opcode / 0x100 < 0x100,
{
    assert((opcode / 0x100) / 0x10 == opcode / 0x1000) by (bit_vector);
    assert(opcode / 0x100 < 0x100) by (bit_vector);
}

/// Decodes an opcode. Every opcode decodes: one that names no instruction
/// comes back as `Unknown` with the opcode in it.
pub fn decode(opcode: Word) -> (instruction: Instruction)
    ensures
        instruction == instruction_of(opcode@),
        instruction.wf(),
{
    proof {
        lemma_group(opcode@);
    }
    match opcode.high() {
        0x00..=0x0F => decode_flow(opcode),
        0x10..=0x1F => {
            let address = get_address(&opcode);
            Instruction::JUMP(address)
        },
        0x20..=0x2F => {
            let address = get_address(&opcode);
            Instruction::CALL(address)
        },
        0x30..=0x3F => {
            let register = get_register(&opcode);
            let value = get_value(&opcode);
            Instruction::SE(RegisterVal { register, value })
        },
        0x40..=0x4F => {
            let register = get_register(&opcode);
            let value = get_value(&opcode);
            Instruction::SNE(RegisterVal { register, value })
        },
        0x50..=0x5F => {
            let (first_reg, second_reg) = get_both_registers(&opcode);
            Instruction::SER(RegisterRegister { first_reg, second_reg })
        },
        0x60..=0x6F => {
            let register = get_register(&opcode);
            let value = get_value(&opcode);
            Instruction::LD(RegisterVal { register, value })
        },
        0x70..=0x7F => {
            let register = get_register(&opcode);
            let value = get_value(&opcode);
            Instruction::ADD(RegisterVal { register, value })
        },
        0x80..=0x8F => decode_operations(opcode),
        0x90..=0x9F => {
            let (first_reg, second_reg) = get_both_registers(&opcode);
            Instruction::SNER(RegisterRegister { first_reg, second_reg })
        },
        0xA0..=0xAF => {
            let address = get_address(&opcode);
            Instruction::LDI(address)
        },
        0xB0..=0xBF => {
            let address = get_address(&opcode);
            Instruction::JUMPV0(address)
        },
        0xC0..=0xCF => {
            let register = get_register(&opcode);
            let value = get_value(&opcode);
            Instruction::RND(RegisterVal { register, value })
        },
        0xD0..=0xDF => {
            let (first_reg, second_reg, nibble) = get_both_registers_and_nibble(&opcode);
            Instruction::DRW(RegisterRegisterNibble { first_reg, second_reg, nibble })
        },
        0xE0..=0xEF => decode_skip_keys(opcode),
        0xF0..=0xFF => decode_register_ops(opcode),
    }
}

/// Decodes within the group of screen clear and return.
pub fn decode_flow(opcode: Word) -> (instruction: Instruction)
    ensures
        instruction == flow_of(opcode@),
        instruction.wf(),
{
    match opcode.full() {
        0x00E0 => Instruction::CLS,
        0x00EE => Instruction::RET,
        _ => Instruction::Unknown(opcode),
    }
}

/// Decodes within the group of register-to-register operations.
pub fn decode_operations(opcode: Word) -> (instruction: Instruction)
    ensures
        instruction == operations_of(opcode@),
        instruction.wf(),
{
    proof {
        lemma_byte_halves(crate::memory::low_byte(opcode@));
        lemma_low_nibble(opcode@);
    }
    let (first_reg, second_reg) = get_both_registers(&opcode);
    match opcode.low() & 0x0F {
        0x0 => Instruction::LDR(RegisterRegister { first_reg, second_reg }),
        0x1 => Instruction::ORR(RegisterRegister { first_reg, second_reg }),
        0x2 => Instruction::ANDR(RegisterRegister { first_reg, second_reg }),
        0x3 => Instruction::XORR(RegisterRegister { first_reg, second_reg }),
        0x4 => Instruction::ADDR(RegisterRegister { first_reg, second_reg }),
        0x5 => Instruction::SUBR(RegisterRegister { first_reg, second_reg }),
        0x6 => Instruction::SHR(first_reg),
        0x7 => Instruction::SUBNR(RegisterRegister { first_reg, second_reg }),
        0xE => Instruction::SHL(first_reg),
        _ => Instruction::Unknown(opcode),
    }
}

/// Decodes within the group of key skips.
pub fn decode_skip_keys(opcode: Word) -> (instruction: Instruction)
    ensures
        instruction == skip_keys_of(opcode@),
        instruction.wf(),
{
    let register = get_register(&opcode);
    match opcode.low() {
        0x9E => Instruction::SKP(register),
        0xA1 => Instruction::SKNP(register),
        _ => Instruction::Unknown(opcode),
    }
}

/// Decodes within the group of timer, key, index and memory operations.
pub fn decode_register_ops(opcode: Word) -> (instruction: Instruction)
    ensures
        instruction == register_ops_of(opcode@),
        instruction.wf(),
{
    let register = get_register(&opcode);
    match opcode.low() {
        0x07 => Instruction::LDVDT(register),
        0x0A => Instruction::LDK(register),
        0x15 => Instruction::LDDTV(register),
        0x18 => Instruction::LDSTV(register),
        0x1E => Instruction::ADDI(register),
        0x29 => Instruction::LDFONT(register),
        0x33 => Instruction::LDBCD(register),
        0x55 => Instruction::STARR(register),
        0x65 => Instruction::LDARR(register),
        _ => Instruction::Unknown(opcode),
    }
}

} // verus!
