use vstd::prelude::*;

verus! {

/// Why the interpreter stopped. A fault is final: the machine is left as it
/// was before the step that raised it.
#[derive(Clone, Copy, Debug, PartialEq, Eq, Structural)]
pub enum Fault {
    /// The word at the program counter is no instruction.
    UnknownInstruction(u16),
    /// A call was made with sixteen return addresses on the stack.
    StackOverflow,
    /// A return was made with no return address on the stack.
    StackUnderflow,
}

/// What one step of the interpreter came to.
#[derive(Clone, Copy, Debug, PartialEq, Eq, Structural)]
pub enum StepOutcome {
    /// The instruction was carried out; the machine can take another step.
    Continue,
    /// The instruction could not be carried out.
    Fault(Fault),
}

/// The interpreter's registers as mathematical values.
pub struct CpuState {
    /// `V0..VF`; `VF`, at position 15, is also the carry, borrow and collision flag.
    pub registers: Seq<u8>,
    /// The return addresses, the oldest first.
    pub stack: Seq<u16>,
    /// Address of the next instruction.
    pub pc: u16,
    /// The index register `I`.
    pub index: u16,
    /// The delay timer.
    pub delay_timer: u8,
    /// The sound timer.
    pub sound_timer: u8,
    /// For each of the sixteen keys, whether it is down.
    pub keys: Seq<bool>,
}

/// Registers, memory and output bitmap together: all that a step reads and writes.
pub struct Machine {
    pub cpu: CpuState,
    pub memory: Seq<u8>,
    pub display: Seq<u8>,
}

/// Address of the first instruction of a program.
pub const PROGRAM_START: u16 = 0x0200;

impl CpuState {
    /// Sixteen registers, sixteen keys, at most sixteen return addresses.
    pub open spec fn valid(self) -> bool {
        &&& self.registers.len() == 16
        &&& self.keys.len() == 16
        &&& self.stack.len() <= 16
    }

    /// The state at power-on: everything zero, no key down, the program
    /// counter at `PROGRAM_START`.
    pub open spec fn initial() -> CpuState {
        CpuState {
            registers: Seq::new(16, |i: int| 0u8),
            stack: Seq::empty(),
            pc: PROGRAM_START,
            index: 0,
            delay_timer: 0,
            sound_timer: 0,
            keys: Seq::new(16, |i: int| false),
        }
    }

    /// The value of register `Vx`.
    pub open spec fn v(self, x: u8) -> u8 {
        self.registers[x as int]
    }

    /// The same state with the program counter at `pc`.
    pub open spec fn at(self, pc: u16) -> CpuState {
        CpuState { pc, ..self }
    }

    /// The same state with `Vx` set to `value`.
    pub open spec fn with_register(self, x: u8, value: u8) -> CpuState {
        CpuState { registers: self.registers.update(x as int, value), ..self }
    }

    /// The same state with `Vx` set to `value` and then `VF` set to `flag`:
    /// where `x` is 15 the flag is what stays.
    pub open spec fn with_result(self, x: u8, value: u8, flag: u8) -> CpuState {
        CpuState { registers: self.registers.update(x as int, value).update(15, flag), ..self }
    }
}

impl Machine {
    /// The registers are valid, memory has 4096 bytes and the bitmap 2048.
    pub open spec fn valid(self) -> bool {
        &&& self.cpu.valid()
        &&& self.memory.len() == 4096
        &&& self.display.len() == 2048
    }
}

/// The machine made of the three parts.
pub open spec fn machine(cpu: CpuState, memory: Seq<u8>, display: Seq<u8>) -> Machine {
    Machine { cpu, memory, display }
}

} // verus!
