use crate::display::{clear, draw_sprite};
use crate::instruction::{decode, decode_spec, lemma_decode_inverts_encoding, Instruction};
use crate::keypad::{key_index, Keypad};
use crate::laws::{law_fault_changes_nothing, law_random_byte_only_read_by_random, pending};
use crate::ram::Ram;
use crate::random::random_byte;
use crate::semantics::{
    advance, arithmetic_spec, execute_spec, fetch, flow_spec, index_spec, is_arithmetic, is_flow,
    is_index, is_register, is_storage, lemma_store_one_more, loaded_registers, low_byte,
    register_spec, skip, step_spec, storage_spec, stored_registers, ticked,
};
use crate::state::{machine, CpuState, Fault, Machine, StepOutcome, PROGRAM_START};
use vstd::prelude::*;

verus! {

/// The interpreter: registers `V0..VF`, the index register, the program
/// counter, the call stack, the two timers and the keys.
pub struct Cpu {
    v: [u8; 16],
    stack: [u16; 16],
    sp: u16,
    pc: u16,
    i: u16,
    delay_timer: u8,
    sound_timer: u8,
    keypad: Keypad,
}

impl View for Cpu {
    type V = CpuState;

    closed spec fn view(&self) -> CpuState {
        CpuState {
            registers: self.v@,
            stack: self.stack@.take(self.sp as int),
            pc: self.pc,
            index: self.i,
            delay_timer: self.delay_timer,
            sound_timer: self.sound_timer,
            keys: self.keypad@,
        }
    }
}

/// A step with the random byte `random` takes the machine `before` to the
/// machine `after` and ends as `outcome` says.
pub open spec fn steps_to(before: Machine, random: u8, after: Machine, outcome: StepOutcome) -> bool {
    step_spec(before, random) == (after, outcome)
}

/// Wrapping addition and subtraction of bytes keep the low eight bits.
proof fn lemma_wrapping(a: u8, b: u8)
    ensures
        vstd::wrapping::u8_specs::wrapping_add(a, b) == low_byte(a + b),
        vstd::wrapping::u8_specs::wrapping_sub(a, b) == low_byte(a - b),
{
}

impl Cpu {
    /// The stack pointer counts the return addresses held, sixteen at most.
    #[verifier::type_invariant]
    spec fn stack_fits(&self) -> bool {
        self.sp <= 16
    }

    /// An interpreter at power-on.
    pub fn new() -> (cpu: Cpu)
        ensures
            cpu@ == CpuState::initial(),
            cpu@.valid(),
    {
        let cpu = Cpu {
            v: [0; 16],
            stack: [0; 16],
            sp: 0,
            pc: PROGRAM_START,
            i: 0,
            delay_timer: 0,
            sound_timer: 0,
            keypad: Keypad::new(),
        };
        assert(cpu@.registers =~= CpuState::initial().registers);
        assert(cpu@.stack =~= CpuState::initial().stack);
        assert(cpu@.keys.len() == 16) by {
            cpu.keypad.lemma_len();
        }
        cpu
    }

    /// Reads the instruction word at the program counter.
    fn fetch(&self, ram: &Ram) -> (code: u16)
        ensures
            code == fetch(ram@, self@.pc),
    {
        let high: u8 = ram.read_byte(self.pc);
        let low: u8 = ram.read_byte(self.pc.wrapping_add(1));
        assert(((high as u16) << 8) | (low as u16) == high * 256 + low) by (bit_vector);
        ((high as u16) << 8) | (low as u16)
    }

    /// Moves the program counter past the instruction.
    fn next(&mut self)
        ensures
            final(self)@ == old(self)@.at(advance(old(self)@.pc, 2)),
    {
        proof {
            use_type_invariant(&*self);
        }
        self.pc = self.pc.wrapping_add(2);
    }

    /// Moves the program counter past the instruction, and past the one
    /// after it too if `condition` holds.
    fn skip_if(&mut self, condition: bool)
        ensures
            final(self)@ == old(self)@.at(skip(old(self)@.pc, condition)),
    {
        proof {
            use_type_invariant(&*self);
        }
        if condition {
            self.pc = self.pc.wrapping_add(4);
        } else {
            self.pc = self.pc.wrapping_add(2);
        }
    }

    /// Sets `Vx` and moves on.
    fn load(&mut self, x: u8, value: u8)
        requires
            x < 16,
        ensures
            final(self)@ == old(self)@.with_register(x, value).at(advance(old(self)@.pc, 2)),
    {
        proof {
            use_type_invariant(&*self);
        }
        self.v[x as usize] = value;
        self.pc = self.pc.wrapping_add(2);
    }

    /// Sets `Vx`, then the flag `VF`, and moves on.
    fn load_with_flag(&mut self, x: u8, value: u8, flag: u8)
        requires
            x < 16,
        ensures
            final(self)@ == old(self)@.with_result(x, value, flag).at(advance(old(self)@.pc, 2)),
    {
        proof {
            use_type_invariant(&*self);
        }
        self.v[x as usize] = value;
        self.v[15] = flag;
        self.pc = self.pc.wrapping_add(2);
    }

    /// Pushes the address of the next instruction and continues at `address`.
    fn call(&mut self, address: u16) -> (outcome: StepOutcome)
        ensures
            old(self)@.stack.len() >= 16 ==> outcome == StepOutcome::Fault(Fault::StackOverflow)
                && final(self)@ == old(self)@,
            old(self)@.stack.len() < 16 ==> outcome == StepOutcome::Continue && final(self)@ == (
            CpuState {
                pc: address,
                stack: old(self)@.stack.push(advance(old(self)@.pc, 2)),
                ..old(self)@
            }),
    {
        proof {
            use_type_invariant(&*self);
        }
        if self.sp >= 16 {
            return StepOutcome::Fault(Fault::StackOverflow);
        }
        self.stack[self.sp as usize] = self.pc.wrapping_add(2);
        self.sp = self.sp + 1;
        self.pc = address;
        assert(self@.stack =~= old(self)@.stack.push(advance(old(self)@.pc, 2)));
        StepOutcome::Continue
    }

    /// Pops the newest return address into the program counter.
    fn ret(&mut self) -> (outcome: StepOutcome)
        ensures
            old(self)@.stack.len() == 0 ==> outcome == StepOutcome::Fault(Fault::StackUnderflow)
                && final(self)@ == old(self)@,
            old(self)@.stack.len() > 0 ==> outcome == StepOutcome::Continue && final(self)@ == (
            CpuState {
                pc: old(self)@.stack.last(),
                stack: old(self)@.stack.drop_last(),
                ..old(self)@
            }),
    {
        proof {
            use_type_invariant(&*self);
        }
        if self.sp == 0 {
            return StepOutcome::Fault(Fault::StackUnderflow);
        }
        self.sp = self.sp - 1;
        self.pc = self.stack[self.sp as usize];
        assert(self@.stack =~= old(self)@.stack.drop_last());
        StepOutcome::Continue
    }

    /// Stores `V0..=Vx` in memory from `I` on.
    fn store_registers(&self, ram: &mut Ram, x: u8)
        requires
            x < 16,
        ensures
            final(ram)@ == stored_registers(old(ram)@, self@.registers, self@.index, x + 1),
    {
        let ghost memory = ram@;
        proof {
            reveal(stored_registers);
            ram.lemma_len();
            assert(ram@ =~= stored_registers(memory, self@.registers, self@.index, 0));
        }
        let mut k: u8 = 0;
        while k <= x
            invariant
                k <= x + 1 <= 16,
                memory.len() == 4096,
                ram@ == stored_registers(memory, self@.registers, self@.index, k as int),
            decreases x + 1 - k,
        {
            ram.write_byte(self.i.wrapping_add(k as u16), self.v[k as usize]);
            proof {
                lemma_store_one_more(memory, self@.registers, self@.index, k as int);
            }
            k = k + 1;
        }
    }

    /// Loads `V0..=Vx` from memory from `I` on.
    fn load_registers(&mut self, ram: &Ram, x: u8)
        requires
            x < 16,
        ensures
            final(self)@ == (CpuState {
                registers: loaded_registers(ram@, old(self)@.registers, old(self)@.index, x + 1),
                ..old(self)@
            }),
    {
        proof {
            use_type_invariant(&*self);
        }
        let mut registers: [u8; 16] = self.v;
        let mut k: u8 = 0;
        proof {
            reveal(loaded_registers);
        }
        assert(registers@ =~= loaded_registers(ram@, self.v@, self.i, 0));
        while k <= x
            invariant
                k <= x + 1 <= 16,
                registers@ == loaded_registers(ram@, self.v@, self.i, k as int),
            decreases x + 1 - k,
        {
            registers[k as usize] = ram.read_byte(self.i.wrapping_add(k as u16));
            proof {
                reveal(loaded_registers);
            }
            assert(registers@ =~= loaded_registers(ram@, self.v@, self.i, k + 1));
            k = k + 1;
        }
        self.v = registers;
    }

    /// Carries out an instruction that only moves the program counter or
    /// the call stack: jumps, calls, returns and skips.
    fn execute_flow(&mut self, instruction: Instruction) -> (outcome: StepOutcome)
        requires
            instruction.valid(),
            is_flow(instruction),
        ensures
            flow_spec(old(self)@, instruction) == (final(self)@, outcome),
    {
        proof {
            use_type_invariant(&*self);
            reveal(flow_spec);
        }
        match instruction {
            Instruction::Return => {
                return self.ret();
            },
            Instruction::Jump { address } => {
                self.pc = address;
            },
            Instruction::Call { address } => {
                return self.call(address);
            },
            Instruction::SkipEqImm { x, value } => {
                self.skip_if(self.v[x as usize] == value);
            },
            Instruction::SkipNeqImm { x, value } => {
                self.skip_if(self.v[x as usize] != value);
            },
            Instruction::SkipEqReg { x, y } => {
                self.skip_if(self.v[x as usize] == self.v[y as usize]);
            },
            Instruction::SkipNeqReg { x, y } => {
                self.skip_if(self.v[x as usize] != self.v[y as usize]);
            },
            Instruction::JumpOffset { address } => {
                self.pc = address.wrapping_add(self.v[0] as u16);
            },
            Instruction::SkipKeyPressed { x } => {
                self.skip_if(self.keypad.is_pressed(self.v[x as usize]));
            },
            Instruction::SkipKeyNotPressed { x } => {
                self.skip_if(!self.keypad.is_pressed(self.v[x as usize]));
            },
            _ => {},
        }
        StepOutcome::Continue
    }

    /// Carries out an instruction that sets a register without touching the flag.
    fn execute_register(&mut self, instruction: Instruction, random: u8)
        requires
            instruction.valid(),
            is_register(instruction),
        ensures
            final(self)@ == register_spec(old(self)@, instruction, random),
    {
        proof {
            use_type_invariant(&*self);
            reveal(register_spec);
        }
        match instruction {
            Instruction::LoadImm { x, value } => {
                self.load(x, value);
            },
            Instruction::AddImm { x, value } => {
                proof {
                    lemma_wrapping(self.v[x as int], value);
                }
                self.load(x, self.v[x as usize].wrapping_add(value));
            },
            Instruction::Move { x, y } => {
                self.load(x, self.v[y as usize]);
            },
            Instruction::Or { x, y } => {
                self.load(x, self.v[x as usize] | self.v[y as usize]);
            },
            Instruction::And { x, y } => {
                self.load(x, self.v[x as usize] & self.v[y as usize]);
            },
            Instruction::Xor { x, y } => {
                self.load(x, self.v[x as usize] ^ self.v[y as usize]);
            },
            Instruction::Random { x, mask } => {
                self.load(x, random & mask);
            },
            Instruction::ReadDelay { x } => {
                self.load(x, self.delay_timer);
            },
            Instruction::WaitKey { x } => {
                match self.keypad.first_pressed() {
                    Some(key) => {
                        self.load(x, key);
                    },
                    None => {},
                }
            },
            _ => {},
        }
    }

    /// Carries out an instruction that sets a register and the flag.
    fn execute_arithmetic(&mut self, instruction: Instruction)
        requires
            instruction.valid(),
            is_arithmetic(instruction),
        ensures
            final(self)@ == arithmetic_spec(old(self)@, instruction),
    {
        proof {
            use_type_invariant(&*self);
            reveal(arithmetic_spec);
        }
        match instruction {
            Instruction::AddReg { x, y } => {
                let a: u8 = self.v[x as usize];
                let b: u8 = self.v[y as usize];
                let carry: u8 = if a as u16 + b as u16 > 255 {
                    1
                } else {
                    0
                };
                proof {
                    lemma_wrapping(a, b);
                }
                self.load_with_flag(x, a.wrapping_add(b), carry);
            },
            Instruction::SubReg { x, y } => {
                let a: u8 = self.v[x as usize];
                let b: u8 = self.v[y as usize];
                let no_borrow: u8 = if a > b {
                    1
                } else {
                    0
                };
                proof {
                    lemma_wrapping(a, b);
                }
                self.load_with_flag(x, a.wrapping_sub(b), no_borrow);
            },
            Instruction::ShiftRight { x, y } => {
                let a: u8 = self.v[x as usize];
                self.load_with_flag(x, a >> 1, a & 1);
            },
            Instruction::SubnReg { x, y } => {
                let a: u8 = self.v[x as usize];
                let b: u8 = self.v[y as usize];
                let no_borrow: u8 = if b > a {
                    1
                } else {
                    0
                };
                proof {
                    lemma_wrapping(b, a);
                }
                self.load_with_flag(x, b.wrapping_sub(a), no_borrow);
            },
            Instruction::ShiftLeft { x, y } => {
                let a: u8 = self.v[x as usize];
                self.load_with_flag(x, a << 1, a >> 7);
            },
            _ => {},
        }
    }

    /// Carries out an instruction that sets a timer or the index register.
    fn execute_index(&mut self, instruction: Instruction)
        requires
            instruction.valid(),
            is_index(instruction),
        ensures
            final(self)@ == index_spec(old(self)@, instruction),
    {
        proof {
            use_type_invariant(&*self);
            reveal(index_spec);
        }
        match instruction {
            Instruction::LoadIndex { address } => {
                self.i = address;
            },
            Instruction::SetDelay { x } => {
                self.delay_timer = self.v[x as usize];
            },
            Instruction::SetSound { x } => {
                self.sound_timer = self.v[x as usize];
            },
            Instruction::AddIndex { x } => {
                self.i = self.i.wrapping_add(self.v[x as usize] as u16);
            },
            Instruction::FontAddress { x } => {
                self.i = self.v[x as usize] as u16 * 5;
            },
            _ => {},
        }
        self.next();
    }

    /// Carries out an instruction that writes memory or the bitmap, or loads
    /// registers from memory.
    fn execute_storage(
        &mut self,
        instruction: Instruction,
        ram: &mut Ram,
        display_buffer: &mut [u8; 2048],
    )
        requires
            instruction.valid(),
            is_storage(instruction),
        ensures
            machine(final(self)@, final(ram)@, final(display_buffer)@) == storage_spec(
                machine(old(self)@, old(ram)@, old(display_buffer)@),
                instruction,
            ),
    {
        proof {
            use_type_invariant(&*self);
            reveal(storage_spec);
        }
        match instruction {
            Instruction::ClearScreen => {
                clear(display_buffer);
                self.next();
            },
            Instruction::Draw { x, y, rows } => {
                let collision: bool = draw_sprite(
                    display_buffer,
                    ram,
                    self.i,
                    rows,
                    self.v[x as usize],
                    self.v[y as usize],
                );
                let erased: u8 = if collision {
                    1
                } else {
                    0
                };
                self.load(15, erased);
            },
            Instruction::StoreBcd { x } => {
                let value: u8 = self.v[x as usize];
                ram.write_byte(self.i, value / 100);
                ram.write_byte(self.i.wrapping_add(1), value / 10 % 10);
                ram.write_byte(self.i.wrapping_add(2), value % 10);
                self.next();
            },
            Instruction::StoreRegisters { x } => {
                self.store_registers(ram, x);
                self.next();
            },
            Instruction::LoadRegisters { x } => {
                self.load_registers(ram, x);
                self.next();
            },
            _ => {},
        }
    }

    /// Carries out one decoded instruction.
    fn execute(
        &mut self,
        instruction: Instruction,
        ram: &mut Ram,
        display_buffer: &mut [u8; 2048],
        random: u8,
    ) -> (outcome: StepOutcome)
        requires
            instruction.valid(),
        ensures
            execute_spec(machine(old(self)@, old(ram)@, old(display_buffer)@), instruction, random)
                == (machine(final(self)@, final(ram)@, final(display_buffer)@), outcome),
    {
        match instruction {
            Instruction::Return
            | Instruction::Jump { .. }
            | Instruction::Call { .. }
            | Instruction::SkipEqImm { .. }
            | Instruction::SkipNeqImm { .. }
            | Instruction::SkipEqReg { .. }
            | Instruction::SkipNeqReg { .. }
            | Instruction::JumpOffset { .. }
            | Instruction::SkipKeyPressed { .. }
            | Instruction::SkipKeyNotPressed { .. } => self.execute_flow(instruction),
            Instruction::LoadImm { .. }
            | Instruction::AddImm { .. }
            | Instruction::Move { .. }
            | Instruction::Or { .. }
            | Instruction::And { .. }
            | Instruction::Xor { .. }
            | Instruction::Random { .. }
            | Instruction::ReadDelay { .. }
            | Instruction::WaitKey { .. } => {
                self.execute_register(instruction, random);
                StepOutcome::Continue
            },
            Instruction::AddReg { .. }
            | Instruction::SubReg { .. }
            | Instruction::ShiftRight { .. }
            | Instruction::SubnReg { .. }
            | Instruction::ShiftLeft { .. } => {
                self.execute_arithmetic(instruction);
                StepOutcome::Continue
            },
            Instruction::LoadIndex { .. }
            | Instruction::SetDelay { .. }
            | Instruction::SetSound { .. }
            | Instruction::AddIndex { .. }
            | Instruction::FontAddress { .. } => {
                self.execute_index(instruction);
                StepOutcome::Continue
            },
            Instruction::ClearScreen
            | Instruction::Draw { .. }
            | Instruction::StoreBcd { .. }
            | Instruction::StoreRegisters { .. }
            | Instruction::LoadRegisters { .. } => {
                self.execute_storage(instruction, ram, display_buffer);
                StepOutcome::Continue
            },
        }
    }

    /// Carries out what the word `code` at the program counter decoded to.
    fn complete(
        &mut self,
        code: u16,
        decoded: Option<Instruction>,
        ram: &mut Ram,
        display_buffer: &mut [u8; 2048],
        random: u8,
    ) -> (outcome: StepOutcome)
        requires
            code == fetch(old(ram)@, old(self)@.pc),
            decoded == decode_spec(code),
        ensures
            steps_to(
                machine(old(self)@, old(ram)@, old(display_buffer)@),
                random,
                machine(final(self)@, final(ram)@, final(display_buffer)@),
                outcome,
            ),
            outcome is Fault ==> final(self)@ == old(self)@ && final(ram)@ == old(ram)@ && final(
                display_buffer
            )@ == old(display_buffer)@,
            final(self)@.valid(),
    {
        proof {
            lemma_decode_inverts_encoding(code);
        }
        let outcome = match decoded {
            Some(instruction) => self.execute(instruction, ram, display_buffer, random),
            None => StepOutcome::Fault(Fault::UnknownInstruction(code)),
        };
        proof {
            use_type_invariant(&*self);
            self.keypad.lemma_len();
            law_fault_changes_nothing(machine(old(self)@, old(ram)@, old(display_buffer)@), random);
        }
        outcome
    }

    /// One fetch, decode and execute cycle, with `random` as the byte that
    /// a `Random` instruction reads.
    ///
    /// A word that is no instruction, a call on a full stack and a return on
    /// an empty one end the step in a fault and leave the interpreter, the
    /// memory and the bitmap as they were.
    pub fn run_instruction_with(
        &mut self,
        ram: &mut Ram,
        display_buffer: &mut [u8; 2048],
        random: u8,
    ) -> (outcome: StepOutcome)
        ensures
            steps_to(
                machine(old(self)@, old(ram)@, old(display_buffer)@),
                random,
                machine(final(self)@, final(ram)@, final(display_buffer)@),
                outcome,
            ),
            outcome is Fault ==> final(self)@ == old(self)@ && final(ram)@ == old(ram)@ && final(
                display_buffer
            )@ == old(display_buffer)@,
            final(self)@.valid(),
    {
        let code: u16 = self.fetch(ram);
        self.complete(code, decode(code), ram, display_buffer, random)
    }

    /// One fetch, decode and execute cycle.
    ///
    /// A `Random` instruction reads a byte from the random source, so the
    /// step is that of `run_instruction_with` for some byte; for any other
    /// word at the program counter it is that step whatever the byte. A
    /// word that is no instruction, a call on a full stack and a return on
    /// an empty one end the step in a fault and leave the interpreter, the
    /// memory and the bitmap as they were.
    pub fn run_instruction(&mut self, ram: &mut Ram, display_buffer: &mut [u8; 2048]) -> (outcome:
        StepOutcome)
        ensures
            exists|random: u8|
                steps_to(
                    machine(old(self)@, old(ram)@, old(display_buffer)@),
                    random,
                    machine(final(self)@, final(ram)@, final(display_buffer)@),
                    outcome,
                ),
            !(pending(machine(old(self)@, old(ram)@, old(display_buffer)@)) matches Some(
                Instruction::Random { .. },
            )) ==> forall|random: u8|
                steps_to(
                    machine(old(self)@, old(ram)@, old(display_buffer)@),
                    random,
                    machine(final(self)@, final(ram)@, final(display_buffer)@),
                    outcome,
                ),
            outcome is Fault ==> final(self)@ == old(self)@ && final(ram)@ == old(ram)@ && final(
                display_buffer
            )@ == old(display_buffer)@,
            final(self)@.valid(),
    {
        let ghost before = machine(self@, ram@, display_buffer@);
        let code: u16 = self.fetch(ram);
        let decoded = decode(code);
        let random: u8 = match decoded {
            Some(Instruction::Random { .. }) => random_byte(),
            _ => 0,
        };
        let outcome = self.complete(code, decoded, ram, display_buffer, random);
        proof {
            let after = machine(self@, ram@, display_buffer@);
            assert(steps_to(before, random, after, outcome));
            if !(pending(before) matches Some(Instruction::Random { .. })) {
                assert forall|other: u8| steps_to(before, other, after, outcome) by {
                    law_random_byte_only_read_by_random(before, random, other);
                }
            }
        }
        outcome
    }

    /// Counts both timers down by one; a timer that is 0 stays 0.
    pub fn decrement_timers(&mut self)
        ensures
            final(self)@ == ticked(old(self)@),
            final(self)@.valid(),
    {
        proof {
            use_type_invariant(&*self);
            self.keypad.lemma_len();
        }
        if self.delay_timer > 0 {
            self.delay_timer -= 1;
        }
        if self.sound_timer > 0 {
            self.sound_timer -= 1;
        }
    }

    /// Records that `key` is down (`pressed`) or up. A key is named by the
    /// low four bits of its number.
    pub fn set_key(&mut self, key: u8, pressed: bool)
        ensures
            final(self)@ == (CpuState {
                keys: old(self)@.keys.update(key_index(key), pressed),
                ..old(self)@
            }),
            final(self)@.valid(),
    {
        proof {
            use_type_invariant(&*self);
            self.keypad.lemma_len();
        }
        self.keypad.set_key(key, pressed);
    }

    /// The value of register `Vx`, `x` taken modulo 16.
    pub fn register(&self, x: u8) -> (value: u8)
        ensures
            value == self@.registers[x as int % 16],
    {
        self.v[(x % 16) as usize]
    }

    /// Address of the next instruction.
    pub fn program_counter(&self) -> (pc: u16)
        ensures
            pc == self@.pc,
    {
        self.pc
    }

    /// The index register `I`.
    pub fn index_register(&self) -> (index: u16)
        ensures
            index == self@.index,
    {
        self.i
    }

    /// Number of return addresses on the stack.
    pub fn stack_pointer(&self) -> (depth: u16)
        ensures
            depth == self@.stack.len(),
            depth <= 16,
    {
        proof {
            use_type_invariant(self);
        }
        self.sp
    }

    /// The delay timer.
    pub fn delay_timer(&self) -> (ticks: u8)
        ensures
            ticks == self@.delay_timer,
    {
        self.delay_timer
    }

    /// The sound timer.
    pub fn sound_timer(&self) -> (ticks: u8)
        ensures
            ticks == self@.sound_timer,
    {
        self.sound_timer
    }
}

} // verus!
