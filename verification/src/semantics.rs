use crate::display::{blank, collides, drawn};
use crate::instruction::{decode_spec, Instruction};
use crate::keypad::{first_pressed, key_index};
use crate::ram::wrap_address;
use crate::state::{CpuState, Fault, Machine, StepOutcome};
use vstd::prelude::*;

verus! {

/// The instruction word at `pc`: the byte there is its high half, the byte
/// after it its low half.
pub open spec fn fetch(memory: Seq<u8>, pc: u16) -> u16 {
    (memory[wrap_address(pc as int)] * 256 + memory[wrap_address(pc + 1)]) as u16
}

/// The program counter moved on by `by` bytes, wrapping at 16 bits.
pub open spec fn advance(pc: u16, by: int) -> u16 {
    ((pc + by) % 0x1_0000) as u16
}

/// The program counter after an instruction that skips the next one when
/// `condition` holds.
pub open spec fn skip(pc: u16, condition: bool) -> u16 {
    advance(
        pc,
        if condition {
            4
        } else {
            2
        },
    )
}

/// 1 for true, 0 for false: how a flag is kept in `VF`.
pub open spec fn flag(condition: bool) -> u8 {
    if condition {
        1
    } else {
        0
    }
}

/// The low eight bits of a sum or difference.
pub open spec fn low_byte(value: int) -> u8 {
    (value % 256) as u8
}

/// Memory after the hundreds, tens and units of `value` were stored at
/// `index`, `index + 1` and `index + 2`.
pub open spec fn stored_bcd(memory: Seq<u8>, index: u16, value: u8) -> Seq<u8> {
    memory.update(wrap_address(index as int), value / 100).update(
        wrap_address(index + 1),
        value / 10 % 10,
    ).update(wrap_address(index + 2), value % 10)
}

/// Memory after the first `count` registers were stored from `index` on.
#[verifier::opaque]
pub open spec fn stored_registers(memory: Seq<u8>, registers: Seq<u8>, index: u16, count: int) -> Seq<
    u8,
> {
    Seq::new(
        4096,
        |a: int|
            if (a - index) % 4096 < count {
                registers[(a - index) % 4096]
            } else {
                memory[a]
            },
    )
}

/// Storing one register more changes the one cell that it goes to.
pub proof fn lemma_store_one_more(memory: Seq<u8>, registers: Seq<u8>, index: u16, count: int)
    requires
        memory.len() == 4096,
        0 <= count < 4096,
    ensures
        stored_registers(memory, registers, index, count + 1) == stored_registers(
            memory,
            registers,
            index,
            count,
        ).update(wrap_address(index + count), registers[count]),
{
    reveal(stored_registers);
    let cell = wrap_address(index + count);
    let fewer = stored_registers(memory, registers, index, count);
    let more = stored_registers(memory, registers, index, count + 1);
    assert forall|a: int| 0 <= a < 4096 implies #[trigger] more[a] == fewer.update(
        cell,
        registers[count],
    )[a] by {
        assert(((a - index) % 4096 == count) == (a == cell));
    }
    assert(more =~= fewer.update(cell, registers[count]));
}

/// The registers after the first `count` of them were loaded from `index` on.
#[verifier::opaque]
pub open spec fn loaded_registers(memory: Seq<u8>, registers: Seq<u8>, index: u16, count: int) -> Seq<
    u8,
> {
    Seq::new(
        16,
        |k: int|
            if k < count {
                memory[wrap_address(index + k)]
            } else {
                registers[k]
            },
    )
}

/// The instructions that only move the program counter or the call stack:
/// jumps, calls, returns and skips.
pub open spec fn is_flow(instruction: Instruction) -> bool {
    ||| instruction is Return
    ||| instruction is Jump
    ||| instruction is Call
    ||| instruction is SkipEqImm
    ||| instruction is SkipNeqImm
    ||| instruction is SkipEqReg
    ||| instruction is SkipNeqReg
    ||| instruction is JumpOffset
    ||| instruction is SkipKeyPressed
    ||| instruction is SkipKeyNotPressed
}

/// The instructions that set one register and leave the flag alone.
pub open spec fn is_register(instruction: Instruction) -> bool {
    ||| instruction is LoadImm
    ||| instruction is AddImm
    ||| instruction is Move
    ||| instruction is Or
    ||| instruction is And
    ||| instruction is Xor
    ||| instruction is Random
    ||| instruction is ReadDelay
    ||| instruction is WaitKey
}

/// The instructions that set one register and then the flag.
pub open spec fn is_arithmetic(instruction: Instruction) -> bool {
    ||| instruction is AddReg
    ||| instruction is SubReg
    ||| instruction is ShiftRight
    ||| instruction is SubnReg
    ||| instruction is ShiftLeft
}

/// The instructions that set a timer or the index register.
pub open spec fn is_index(instruction: Instruction) -> bool {
    ||| instruction is LoadIndex
    ||| instruction is SetDelay
    ||| instruction is SetSound
    ||| instruction is AddIndex
    ||| instruction is FontAddress
}

/// The instructions that write memory or the bitmap, or read memory.
pub open spec fn is_storage(instruction: Instruction) -> bool {
    ||| instruction is ClearScreen
    ||| instruction is Draw
    ||| instruction is StoreBcd
    ||| instruction is StoreRegisters
    ||| instruction is LoadRegisters
}

/// What a jump, call, return or skip makes of the registers, and how the
/// step ends: a call on a full stack and a return on an empty one fault and
/// change nothing.
#[verifier::opaque]
pub open spec fn flow_spec(c: CpuState, instruction: Instruction) -> (CpuState, StepOutcome) {
    match instruction {
        Instruction::Return => if c.stack.len() == 0 {
            (c, StepOutcome::Fault(Fault::StackUnderflow))
        } else {
            (
                CpuState { pc: c.stack.last(), stack: c.stack.drop_last(), ..c },
                StepOutcome::Continue,
            )
        },
        Instruction::Jump { address } => (c.at(address), StepOutcome::Continue),
        Instruction::Call { address } => if c.stack.len() >= 16 {
            (c, StepOutcome::Fault(Fault::StackOverflow))
        } else {
            (
                CpuState { pc: address, stack: c.stack.push(advance(c.pc, 2)), ..c },
                StepOutcome::Continue,
            )
        },
        Instruction::SkipEqImm { x, value } => (
            c.at(skip(c.pc, c.v(x) == value)),
            StepOutcome::Continue,
        ),
        Instruction::SkipNeqImm { x, value } => (
            c.at(skip(c.pc, c.v(x) != value)),
            StepOutcome::Continue,
        ),
        Instruction::SkipEqReg { x, y } => (
            c.at(skip(c.pc, c.v(x) == c.v(y))),
            StepOutcome::Continue,
        ),
        Instruction::SkipNeqReg { x, y } => (
            c.at(skip(c.pc, c.v(x) != c.v(y))),
            StepOutcome::Continue,
        ),
        Instruction::JumpOffset { address } => (
            c.at(advance(address, c.v(0) as int)),
            StepOutcome::Continue,
        ),
        Instruction::SkipKeyPressed { x } => (
            c.at(skip(c.pc, c.keys[key_index(c.v(x))])),
            StepOutcome::Continue,
        ),
        Instruction::SkipKeyNotPressed { x } => (
            c.at(skip(c.pc, !c.keys[key_index(c.v(x))])),
            StepOutcome::Continue,
        ),
        _ => (c, StepOutcome::Continue),
    }
}

/// What an instruction that sets one register makes of the registers.
/// `WaitKey` with no key down changes nothing: the program counter stays on
/// it, so the next step tries again.
#[verifier::opaque]
pub open spec fn register_spec(c: CpuState, instruction: Instruction, random: u8) -> CpuState {
    let next = advance(c.pc, 2);
    match instruction {
        Instruction::LoadImm { x, value } => c.with_register(x, value).at(next),
        Instruction::AddImm { x, value } => c.with_register(x, low_byte(c.v(x) + value)).at(next),
        Instruction::Move { x, y } => c.with_register(x, c.v(y)).at(next),
        Instruction::Or { x, y } => c.with_register(x, c.v(x) | c.v(y)).at(next),
        Instruction::And { x, y } => c.with_register(x, c.v(x) & c.v(y)).at(next),
        Instruction::Xor { x, y } => c.with_register(x, c.v(x) ^ c.v(y)).at(next),
        Instruction::Random { x, mask } => c.with_register(x, random & mask).at(next),
        Instruction::ReadDelay { x } => c.with_register(x, c.delay_timer).at(next),
        Instruction::WaitKey { x } => match first_pressed(c.keys) {
            Some(key) => c.with_register(x, key).at(next),
            None => c,
        },
        _ => c,
    }
}

/// What an instruction that sets one register and the flag makes of the
/// registers. The flag is set last, so it is what `VF` holds afterwards
/// even where `x` names `VF`.
#[verifier::opaque]
pub open spec fn arithmetic_spec(c: CpuState, instruction: Instruction) -> CpuState {
    let next = advance(c.pc, 2);
    match instruction {
        Instruction::AddReg { x, y } => c.with_result(
            x,
            low_byte(c.v(x) + c.v(y)),
            flag(c.v(x) + c.v(y) > 255),
        ).at(next),
        Instruction::SubReg { x, y } => c.with_result(
            x,
            low_byte(c.v(x) - c.v(y)),
            flag(c.v(x) > c.v(y)),
        ).at(next),
        Instruction::ShiftRight { x, y } => c.with_result(x, c.v(x) >> 1u8, c.v(x) & 1u8).at(next),
        Instruction::SubnReg { x, y } => c.with_result(
            x,
            low_byte(c.v(y) - c.v(x)),
            flag(c.v(y) > c.v(x)),
        ).at(next),
        Instruction::ShiftLeft { x, y } => c.with_result(x, c.v(x) << 1u8, c.v(x) >> 7u8).at(next),
        _ => c,
    }
}

/// What an instruction that sets a timer or the index register makes of
/// the registers.
#[verifier::opaque]
pub open spec fn index_spec(c: CpuState, instruction: Instruction) -> CpuState {
    let next = advance(c.pc, 2);
    match instruction {
        Instruction::LoadIndex { address } => CpuState { index: address, ..c }.at(next),
        Instruction::SetDelay { x } => CpuState { delay_timer: c.v(x), ..c }.at(next),
        Instruction::SetSound { x } => CpuState { sound_timer: c.v(x), ..c }.at(next),
        Instruction::AddIndex { x } => CpuState {
            index: advance(c.index, c.v(x) as int),
            ..c
        }.at(next),
        Instruction::FontAddress { x } => CpuState { index: (c.v(x) * 5) as u16, ..c }.at(next),
        _ => c,
    }
}

/// What an instruction that reads or writes memory or the bitmap makes of
/// the machine.
#[verifier::opaque]
pub open spec fn storage_spec(m: Machine, instruction: Instruction) -> Machine {
    let c = m.cpu;
    let next = advance(c.pc, 2);
    match instruction {
        Instruction::ClearScreen => Machine { cpu: c.at(next), display: blank(), ..m },
        Instruction::Draw { x, y, rows } => Machine {
            cpu: c.with_register(
                15,
                flag(collides(m.display, m.memory, c.index, rows as int, c.v(x), c.v(y))),
            ).at(next),
            display: drawn(m.display, m.memory, c.index, rows as int, c.v(x), c.v(y)),
            ..m
        },
        Instruction::StoreBcd { x } => Machine {
            cpu: c.at(next),
            memory: stored_bcd(m.memory, c.index, c.v(x)),
            ..m
        },
        Instruction::StoreRegisters { x } => Machine {
            cpu: c.at(next),
            memory: stored_registers(m.memory, c.registers, c.index, x + 1),
            ..m
        },
        Instruction::LoadRegisters { x } => Machine {
            cpu: CpuState {
                registers: loaded_registers(m.memory, c.registers, c.index, x + 1),
                ..c
            }.at(next),
            ..m
        },
        _ => m,
    }
}

/// What carrying out `instruction` makes of the machine `m`, and how the
/// step ends. `random` is the byte that the random source gave; only
/// `Random` reads it. The program counter in `m` is that of the instruction.
/// Only the instructions of `is_storage` touch memory or the bitmap.
pub open spec fn execute_spec(m: Machine, instruction: Instruction, random: u8) -> (
    Machine,
    StepOutcome,
) {
    if is_flow(instruction) {
        (Machine { cpu: flow_spec(m.cpu, instruction).0, ..m }, flow_spec(m.cpu, instruction).1)
    } else if is_register(instruction) {
        (Machine { cpu: register_spec(m.cpu, instruction, random), ..m }, StepOutcome::Continue)
    } else if is_arithmetic(instruction) {
        (Machine { cpu: arithmetic_spec(m.cpu, instruction), ..m }, StepOutcome::Continue)
    } else if is_index(instruction) {
        (Machine { cpu: index_spec(m.cpu, instruction), ..m }, StepOutcome::Continue)
    } else {
        (storage_spec(m, instruction), StepOutcome::Continue)
    }
}

/// One fetch, decode and execute cycle: what it makes of the machine `m`
/// and how it ends. A word that is no instruction ends it in a fault.
pub open spec fn step_spec(m: Machine, random: u8) -> (Machine, StepOutcome) {
    let code = fetch(m.memory, m.cpu.pc);
    match decode_spec(code) {
        Some(instruction) => execute_spec(m, instruction, random),
        None => (m, StepOutcome::Fault(Fault::UnknownInstruction(code))),
    }
}

/// The timers after one tick: each is one less, and 0 stays 0.
pub open spec fn ticked(c: CpuState) -> CpuState {
    CpuState {
        delay_timer: if c.delay_timer > 0 {
            (c.delay_timer - 1) as u8
        } else {
            0
        },
        sound_timer: if c.sound_timer > 0 {
            (c.sound_timer - 1) as u8
        } else {
            0
        },
        ..c
    }
}

} // verus!
