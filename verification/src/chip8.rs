use crate::cpu::{steps_to, Cpu};
use crate::display::blank;
use crate::font::{load_font, with_font};
use crate::instruction::Instruction;
use crate::laws::pending;
use crate::ram::Ram;
use crate::semantics::{step_spec, ticked};
use crate::state::{machine, CpuState, Machine, StepOutcome};
use vstd::prelude::*;

verus! {

/// Bytes of memory from `PROGRAM_START` to the end: the longest program.
pub const PROGRAM_CAPACITY: usize = 3584;

/// Why a program could not be loaded.
#[derive(Clone, Copy, Debug, PartialEq, Eq, Structural)]
pub enum LoadError {
    /// The program has more than `PROGRAM_CAPACITY` bytes.
    TooLarge,
}

/// The whole machine: memory, interpreter and output bitmap.
pub struct Chip8 {
    ram: Ram,
    cpu: Cpu,
    display_buffer: [u8; 2048],
}

impl View for Chip8 {
    type V = Machine;

    closed spec fn view(&self) -> Machine {
        Machine { cpu: self.cpu@, memory: self.ram@, display: self.display_buffer@ }
    }
}

/// Memory with the bytes of `rom` at `PROGRAM_START` and after.
pub open spec fn with_program(memory: Seq<u8>, rom: Seq<u8>) -> Seq<u8> {
    Seq::new(
        memory.len(),
        |a: int|
            if 0x200 <= a < 0x200 + rom.len() {
                rom[a - 0x200]
            } else {
                memory[a]
            },
    )
}

/// One cycle of the driving loop: a step and, if it did not fault, a tick
/// of the timers.
pub open spec fn cycle_spec(m: Machine, random: u8) -> (Machine, StepOutcome) {
    let (stepped, outcome) = step_spec(m, random);
    if outcome is Fault {
        (stepped, outcome)
    } else {
        (Machine { cpu: ticked(stepped.cpu), ..stepped }, outcome)
    }
}

/// A cycle with the random byte `random` takes the machine `before` to the
/// machine `after` and ends as `outcome` says.
pub open spec fn cycles_to(before: Machine, random: u8, after: Machine, outcome: StepOutcome) -> bool {
    cycle_spec(before, random) == (after, outcome)
}

/// Cycles run one after the other, the `k`-th with `randoms[k]` as its
/// random byte, up to the first fault.
pub open spec fn run_spec(m: Machine, randoms: Seq<u8>) -> (Machine, StepOutcome)
    decreases randoms.len(),
{
    if randoms.len() == 0 {
        (m, StepOutcome::Continue)
    } else {
        let (before, outcome) = run_spec(m, randoms.drop_last());
        if outcome is Fault {
            (before, outcome)
        } else {
            cycle_spec(before, randoms.last())
        }
    }
}

impl Chip8 {
    /// A machine at power-on: the font in memory, every other byte zero,
    /// the bitmap blank, the interpreter at its initial state.
    pub fn new() -> (chip8: Chip8)
        ensures
            chip8@ == machine(
                CpuState::initial(),
                with_font(Seq::new(4096, |a: int| 0u8)),
                blank(),
            ),
            chip8@.valid(),
    {
        let mut ram = Ram::new();
        load_font(&mut ram);
        let chip8 = Chip8 { ram, cpu: Cpu::new(), display_buffer: [0; 2048] };
        assert(chip8@.display =~= blank());
        chip8
    }

    /// Copies a program to `PROGRAM_START` and after. A program of more than
    /// `PROGRAM_CAPACITY` bytes is refused, and nothing is changed.
    pub fn load_rom(&mut self, rom: &[u8]) -> (loaded: Result<(), LoadError>)
        ensures
            rom@.len() <= 3584 ==> loaded is Ok && final(self)@ == (Machine {
                memory: with_program(old(self)@.memory, rom@),
                ..old(self)@
            }),
            rom@.len() > 3584 ==> loaded == Err::<(), LoadError>(LoadError::TooLarge) && final(self)@ == old(self)@,
    {
        if rom.len() > PROGRAM_CAPACITY {
            return Err(LoadError::TooLarge);
        }
        let ghost before = self.ram@;
        proof {
            self.ram.lemma_len();
        }
        let mut k: usize = 0;
        while k < rom.len()
            invariant
                k <= rom@.len() <= 3584,
                before.len() == 4096,
                self.ram@.len() == 4096,
                self.cpu == old(self).cpu,
                self.display_buffer == old(self).display_buffer,
                forall|a: int| 0x200 <= a < 0x200 + k ==> self.ram@[a] == rom@[a - 0x200],
                forall|a: int|
                    0 <= a < 4096 && !(0x200 <= a < 0x200 + k) ==> self.ram@[a] == before[a],
            decreases rom@.len() - k,
        {
            self.ram.write_byte((0x200 + k) as u16, rom[k]);
            k = k + 1;
        }
        assert(self.ram@ =~= with_program(before, rom@));
        Ok(())
    }

    /// One cycle of the driving loop: one instruction and, unless it
    /// faulted, one tick of the timers. A `Random` instruction reads a byte
    /// from the random source, so the cycle is that of `cycle_spec` for some
    /// byte; for any other word at the program counter it is that cycle
    /// whatever the byte.
    pub fn cycle(&mut self) -> (outcome: StepOutcome)
        ensures
            exists|random: u8| cycles_to(old(self)@, random, final(self)@, outcome),
            !(pending(old(self)@) matches Some(Instruction::Random { .. })) ==> forall|random: u8|
                cycles_to(old(self)@, random, final(self)@, outcome),
            outcome is Fault ==> final(self)@ == old(self)@,
            final(self)@.cpu.valid(),
    {
        let outcome = self.cpu.run_instruction(&mut self.ram, &mut self.display_buffer);
        let ghost stepped = self@;
        let ghost random = choose|random: u8| steps_to(old(self)@, random, stepped, outcome);
        assert(step_spec(old(self)@, random) == (stepped, outcome));
        match outcome {
            StepOutcome::Continue => {
                self.cpu.decrement_timers();
            },
            StepOutcome::Fault(_) => {},
        }
        assert(cycles_to(old(self)@, random, self@, outcome));
        proof {
            if !(pending(old(self)@) matches Some(Instruction::Random { .. })) {
                assert forall|other: u8| cycles_to(old(self)@, other, self@, outcome) by {
                    assert(steps_to(old(self)@, other, stepped, outcome));
                }
            }
        }
        outcome
    }

    /// Runs `cycles` cycles, or fewer if one faults: the fault ends the run
    /// and is returned. The run is that of `run_spec` for the bytes that the
    /// random source gave, one for each cycle begun.
    pub fn run(&mut self, cycles: u32) -> (outcome: StepOutcome)
        ensures
            exists|randoms: Seq<u8>|
                randoms.len() <= cycles && #[trigger] run_spec(old(self)@, randoms) == (
                    final(self)@,
                    outcome,
                ) && (outcome is Continue ==> randoms.len() == cycles),
            old(self)@.cpu.valid() ==> final(self)@.cpu.valid(),
    {
        let ghost mut randoms: Seq<u8> = Seq::empty();
        let mut done: u32 = 0;
        while done < cycles
            invariant
                done <= cycles,
                randoms.len() == done,
                run_spec(old(self)@, randoms) == (self@, StepOutcome::Continue),
                old(self)@.cpu.valid() ==> self@.cpu.valid(),
            decreases cycles - done,
        {
            let ghost before = self@;
            let outcome = self.cycle();
            proof {
                let random = choose|random: u8| cycles_to(before, random, self@, outcome);
                let longer = randoms.push(random);
                assert(longer.drop_last() =~= randoms);
                assert(run_spec(old(self)@, longer) == (self@, outcome));
                randoms = longer;
            }
            match outcome {
                StepOutcome::Continue => {},
                StepOutcome::Fault(_) => {
                    return outcome;
                },
            }
            done = done + 1;
        }
        StepOutcome::Continue
    }

    /// Records that `key` is down (`pressed`) or up.
    pub fn set_key(&mut self, key: u8, pressed: bool)
        ensures
            final(self)@ == (Machine {
                cpu: CpuState {
                    keys: old(self)@.cpu.keys.update(crate::keypad::key_index(key), pressed),
                    ..old(self)@.cpu
                },
                ..old(self)@
            }),
            final(self)@.cpu.valid(),
    {
        self.cpu.set_key(key, pressed);
    }

    /// Memory always holds 4096 bytes and the bitmap 2048 pixels.
    pub proof fn lemma_sizes(&self)
        ensures
            self@.memory.len() == 4096,
            self@.display.len() == 2048,
    {
        self.ram.lemma_len();
    }

    /// The output bitmap, for the presenter: 2048 pixels row by row, 0 for off.
    pub fn display_buffer(&self) -> (display: &[u8; 2048])
        ensures
            display@ == self@.display,
    {
        &self.display_buffer
    }

    /// The interpreter.
    pub fn cpu(&self) -> (cpu: &Cpu)
        ensures
            cpu@ == self@.cpu,
    {
        &self.cpu
    }

    /// The memory.
    pub fn ram(&self) -> (ram: &Ram)
        ensures
            ram@ == self@.memory,
    {
        &self.ram
    }
}

} // verus!
