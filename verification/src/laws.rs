use crate::display::{blank, lemma_redraw_collides, sprite_has_pixel};
use crate::instruction::{decode_spec, lemma_decode_inverts_encoding, Instruction};
use crate::semantics::{
    advance, arithmetic_spec, execute_spec, fetch, flag, flow_spec, index_spec, register_spec,
    skip, step_spec, storage_spec, ticked,
};
use crate::state::{CpuState, Fault, Machine, StepOutcome};
use vstd::prelude::*;

verus! {

/// The instruction that the machine `m` is about to carry out, if the word
/// at its program counter is one.
pub open spec fn pending(m: Machine) -> Option<Instruction> {
    decode_spec(fetch(m.memory, m.cpu.pc))
}

/// A step keeps the machine valid.
pub proof fn law_step_keeps_validity(m: Machine, random: u8)
    requires
        m.valid(),
    ensures
        step_spec(m, random).0.valid(),
{
    lemma_decode_inverts_encoding(fetch(m.memory, m.cpu.pc));
    reveal(flow_spec);
    reveal(register_spec);
    reveal(arithmetic_spec);
    reveal(index_spec);
    reveal(storage_spec);
    reveal(crate::display::drawn);
    reveal(crate::semantics::stored_registers);
    reveal(crate::semantics::loaded_registers);
    match pending(m) {
        Some(instruction) => {
            assert(execute_spec(m, instruction, random).0.valid());
        },
        None => {},
    }
}

/// A step that ends in a fault changes nothing: registers, stack, timers,
/// memory and bitmap are as they were.
pub proof fn law_fault_changes_nothing(m: Machine, random: u8)
    ensures
        step_spec(m, random).1 is Fault ==> step_spec(m, random).0 == m,
{
    reveal(flow_spec);
}

/// A word that is no instruction makes the step fault with that word, and
/// changes nothing.
pub proof fn law_unknown_instruction_faults(m: Machine, random: u8)
    requires
        pending(m) is None,
    ensures
        step_spec(m, random) == (
            m,
            StepOutcome::Fault(Fault::UnknownInstruction(fetch(m.memory, m.cpu.pc))),
        ),
{
}

/// Only `Random` reads the random byte: a step on any other instruction is
/// the same whatever the byte.
pub proof fn law_random_byte_only_read_by_random(m: Machine, first: u8, second: u8)
    requires
        !(pending(m) matches Some(Instruction::Random { .. })),
    ensures
        step_spec(m, first) == step_spec(m, second),
{
    reveal(register_spec);
}

/// After `LoadImm { x, value }`, `Vx` holds `value`, every other register
/// is as before, and the program counter has moved on by 2 (wrapping at 16
/// bits), which is exactly 2 below the top of the address range.
pub proof fn law_load_imm(m: Machine, x: u8, value: u8, random: u8)
    requires
        m.valid(),
        x < 16,
        pending(m) == Some(Instruction::LoadImm { x, value }),
    ensures
        step_spec(m, random).1 == StepOutcome::Continue,
        step_spec(m, random).0.cpu.v(x) == value,
        forall|other: u8|
            other < 16 && other != x ==> #[trigger] step_spec(m, random).0.cpu.v(other)
                == m.cpu.v(other),
        step_spec(m, random).0.cpu.pc == advance(m.cpu.pc, 2),
        m.cpu.pc <= 0xFFFD ==> step_spec(m, random).0.cpu.pc == m.cpu.pc + 2,
{
    reveal(register_spec);
}

/// `AddImm { x, value }` adds modulo 256 and leaves every other register
/// alone; in particular it does not touch the flag unless `x` names it.
pub proof fn law_add_imm(m: Machine, x: u8, value: u8, random: u8)
    requires
        m.valid(),
        x < 16,
        pending(m) == Some(Instruction::AddImm { x, value }),
    ensures
        step_spec(m, random).1 == StepOutcome::Continue,
        step_spec(m, random).0.cpu.v(x) == (m.cpu.v(x) + value) % 256,
        forall|other: u8|
            other < 16 && other != x ==> #[trigger] step_spec(m, random).0.cpu.v(other)
                == m.cpu.v(other),
{
    reveal(register_spec);
}

/// `AddReg { x, y }` adds modulo 256 and sets the flag to the carry. Where
/// `x` names the flag register, the carry is what stays in it.
pub proof fn law_add_reg(m: Machine, x: u8, y: u8, random: u8)
    requires
        m.valid(),
        x < 16,
        y < 16,
        pending(m) == Some(Instruction::AddReg { x, y }),
    ensures
        step_spec(m, random).1 == StepOutcome::Continue,
        x != 15 ==> step_spec(m, random).0.cpu.v(x) == (m.cpu.v(x) + m.cpu.v(y)) % 256,
        step_spec(m, random).0.cpu.v(15) == flag(m.cpu.v(x) + m.cpu.v(y) > 255),
{
    reveal(arithmetic_spec);
}

/// `SubReg { x, y }` subtracts modulo 256 and sets the flag to 1 exactly
/// when `Vx > Vy`.
pub proof fn law_sub_reg(m: Machine, x: u8, y: u8, random: u8)
    requires
        m.valid(),
        x < 16,
        y < 16,
        pending(m) == Some(Instruction::SubReg { x, y }),
    ensures
        step_spec(m, random).1 == StepOutcome::Continue,
        x != 15 ==> step_spec(m, random).0.cpu.v(x) == (m.cpu.v(x) - m.cpu.v(y)) % 256,
        step_spec(m, random).0.cpu.v(15) == flag(m.cpu.v(x) > m.cpu.v(y)),
{
    reveal(arithmetic_spec);
}

/// `SkipEqImm { x, value }` moves the program counter on by 4 where
/// `Vx == value` and by 2 where it differs (wrapping at 16 bits), and
/// changes nothing else.
pub proof fn law_skip_eq_imm(m: Machine, x: u8, value: u8, random: u8)
    requires
        m.valid(),
        x < 16,
        pending(m) == Some(Instruction::SkipEqImm { x, value }),
    ensures
        step_spec(m, random) == (
            Machine { cpu: m.cpu.at(skip(m.cpu.pc, m.cpu.v(x) == value)), ..m },
            StepOutcome::Continue,
        ),
        m.cpu.v(x) == value && m.cpu.pc <= 0xFFFB ==> step_spec(m, random).0.cpu.pc == m.cpu.pc
            + 4,
        m.cpu.v(x) != value && m.cpu.pc <= 0xFFFD ==> step_spec(m, random).0.cpu.pc == m.cpu.pc
            + 2,
{
    reveal(flow_spec);
}

/// A call with room on the stack pushes the address of the instruction
/// after it and leaves the addresses below untouched; with sixteen addresses
/// on the stack it faults and changes nothing.
pub proof fn law_call(m: Machine, address: u16, random: u8)
    requires
        m.valid(),
        pending(m) == Some(Instruction::Call { address }),
    ensures
        m.cpu.stack.len() < 16 ==> {
            let (after, outcome) = step_spec(m, random);
            &&& outcome == StepOutcome::Continue
            &&& after.cpu.pc == address
            &&& after.cpu.stack.len() == m.cpu.stack.len() + 1
            &&& after.cpu.stack.last() == advance(m.cpu.pc, 2)
            &&& forall|level: int|
                0 <= level < m.cpu.stack.len() ==> after.cpu.stack[level] == m.cpu.stack[level]
        },
        m.cpu.stack.len() == 16 ==> step_spec(m, random) == (
            m,
            StepOutcome::Fault(Fault::StackOverflow),
        ),
{
    reveal(flow_spec);
}

/// A return with an address on the stack continues at the newest one and
/// takes it off; with an empty stack it faults and changes nothing.
pub proof fn law_return(m: Machine, random: u8)
    requires
        m.valid(),
        pending(m) == Some(Instruction::Return),
    ensures
        m.cpu.stack.len() > 0 ==> step_spec(m, random) == (
            Machine {
                cpu: CpuState { pc: m.cpu.stack.last(), stack: m.cpu.stack.drop_last(), ..m.cpu },
                ..m
            },
            StepOutcome::Continue,
        ),
        m.cpu.stack.len() == 0 ==> step_spec(m, random) == (
            m,
            StepOutcome::Fault(Fault::StackUnderflow),
        ),
{
    reveal(flow_spec);
}

/// A call that is followed at once by a return brings the machine back to
/// where it was, but for the program counter, which is at the instruction
/// after the call: the stack, and so the stack pointer, are as before the
/// call.
pub proof fn law_call_then_return(m: Machine, address: u16, first: u8, second: u8)
    requires
        m.valid(),
        m.cpu.stack.len() < 16,
        pending(m) == Some(Instruction::Call { address }),
        decode_spec(fetch(m.memory, address)) == Some(Instruction::Return),
    ensures
        step_spec(m, first).1 == StepOutcome::Continue,
        step_spec(step_spec(m, first).0, second) == (
            Machine { cpu: m.cpu.at(advance(m.cpu.pc, 2)), ..m },
            StepOutcome::Continue,
        ),
{
    reveal(flow_spec);
    let called = step_spec(m, first).0;
    let pushed = m.cpu.stack.push(advance(m.cpu.pc, 2));
    assert(called.cpu.stack == pushed);
    assert(pushed.drop_last() =~= m.cpu.stack);
    assert(pending(called) == Some(Instruction::Return));
}

/// Two `Draw` instructions in a row that draw the same sprite at the same
/// place on a blank bitmap: the first reports no collision, the second
/// reports one and leaves the bitmap blank again, provided the sprite has a
/// pixel that is set. The coordinates come from registers other than the
/// flag, which the first drawing overwrites.
pub proof fn law_draw_twice(m: Machine, x: u8, y: u8, rows: u8, first: u8, second: u8)
    requires
        m.valid(),
        x < 15,
        y < 15,
        rows < 16,
        m.display == blank(),
        sprite_has_pixel(m.memory, m.cpu.index, rows as int),
        pending(m) == Some(Instruction::Draw { x, y, rows }),
        pending(step_spec(m, first).0) == Some(Instruction::Draw { x, y, rows }),
    ensures
        step_spec(m, first).1 == StepOutcome::Continue,
        step_spec(m, first).0.cpu.v(15) == 0,
        step_spec(step_spec(m, first).0, second).1 == StepOutcome::Continue,
        step_spec(step_spec(m, first).0, second).0.cpu.v(15) == 1,
        step_spec(step_spec(m, first).0, second).0.display == blank(),
        step_spec(step_spec(m, first).0, second).0.memory == m.memory,
{
    reveal(storage_spec);
    lemma_redraw_collides(m.memory, m.cpu.index, rows as int, m.cpu.v(x), m.cpu.v(y));
}

/// A timer that is 0 stays 0 at a tick, and a timer never grows or wraps.
pub proof fn law_timer_floor(c: CpuState)
    ensures
        c.delay_timer == 0 ==> ticked(c).delay_timer == 0,
        c.sound_timer == 0 ==> ticked(c).sound_timer == 0,
        c.delay_timer > 0 ==> ticked(c).delay_timer == c.delay_timer - 1,
        c.sound_timer > 0 ==> ticked(c).sound_timer == c.sound_timer - 1,
        ticked(c) == (CpuState {
            delay_timer: ticked(c).delay_timer,
            sound_timer: ticked(c).sound_timer,
            ..c
        }),
{
}

} // verus!
