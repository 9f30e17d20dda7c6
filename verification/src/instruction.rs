use vstd::prelude::*;

verus! {

/// One decoded operation of the machine.
///
/// `x` and `y` name registers `V0..VF`; `address` is a 12-bit immediate,
/// `value` an 8-bit one and `rows` a 4-bit one.
#[derive(Clone, Copy, Debug, PartialEq, Eq, Structural)]
pub enum Instruction {
    /// `00E0`: blank the output bitmap.
    ClearScreen,
    /// `00EE`: return from a subroutine.
    Return,
    /// `1nnn`: continue at `address`.
    Jump { address: u16 },
    /// `2nnn`: call the subroutine at `address`.
    Call { address: u16 },
    /// `3xnn`: skip the next instruction if `Vx == value`.
    SkipEqImm { x: u8, value: u8 },
    /// `4xnn`: skip the next instruction if `Vx != value`.
    SkipNeqImm { x: u8, value: u8 },
    /// `5xy0`: skip the next instruction if `Vx == Vy`.
    SkipEqReg { x: u8, y: u8 },
    /// `6xnn`: `Vx := value`.
    LoadImm { x: u8, value: u8 },
    /// `7xnn`: `Vx := Vx + value`, wrapping, flag untouched.
    AddImm { x: u8, value: u8 },
    /// `8xy0`: `Vx := Vy`.
    Move { x: u8, y: u8 },
    /// `8xy1`: `Vx := Vx | Vy`.
    Or { x: u8, y: u8 },
    /// `8xy2`: `Vx := Vx & Vy`.
    And { x: u8, y: u8 },
    /// `8xy3`: `Vx := Vx ^ Vy`.
    Xor { x: u8, y: u8 },
    /// `8xy4`: `Vx := Vx + Vy`, wrapping; `VF` is the carry.
    AddReg { x: u8, y: u8 },
    /// `8xy5`: `Vx := Vx - Vy`, wrapping; `VF` is 1 when `Vx > Vy`.
    SubReg { x: u8, y: u8 },
    /// `8xy6`: `Vx := Vx >> 1`; `VF` is the bit shifted out.
    ShiftRight { x: u8, y: u8 },
    /// `8xy7`: `Vx := Vy - Vx`, wrapping; `VF` is 1 when `Vy > Vx`.
    SubnReg { x: u8, y: u8 },
    /// `8xyE`: `Vx := Vx << 1`; `VF` is the bit shifted out.
    ShiftLeft { x: u8, y: u8 },
    /// `9xy0`: skip the next instruction if `Vx != Vy`.
    SkipNeqReg { x: u8, y: u8 },
    /// `Annn`: `I := address`.
    LoadIndex { address: u16 },
    /// `Bnnn`: continue at `address + V0`.
    JumpOffset { address: u16 },
    /// `Cxnn`: `Vx := random byte & mask`.
    Random { x: u8, mask: u8 },
    /// `Dxyn`: draw the `rows`-byte sprite at `I` at position `(Vx, Vy)`.
    Draw { x: u8, y: u8, rows: u8 },
    /// `Ex9E`: skip the next instruction if key `Vx` is down.
    SkipKeyPressed { x: u8 },
    /// `ExA1`: skip the next instruction if key `Vx` is up.
    SkipKeyNotPressed { x: u8 },
    /// `Fx07`: `Vx := delay timer`.
    ReadDelay { x: u8 },
    /// `Fx0A`: wait until a key is down, then `Vx := key`.
    WaitKey { x: u8 },
    /// `Fx15`: `delay timer := Vx`.
    SetDelay { x: u8 },
    /// `Fx18`: `sound timer := Vx`.
    SetSound { x: u8 },
    /// `Fx1E`: `I := I + Vx`, wrapping at 16 bits.
    AddIndex { x: u8 },
    /// `Fx29`: `I := Vx * 5`, the address of a font glyph.
    FontAddress { x: u8 },
    /// `Fx33`: store the decimal digits of `Vx` at `I`, `I + 1`, `I + 2`.
    StoreBcd { x: u8 },
    /// `Fx55`: store `V0..=Vx` in memory from `I` on.
    StoreRegisters { x: u8 },
    /// `Fx65`: load `V0..=Vx` from memory from `I` on.
    LoadRegisters { x: u8 },
}

impl Instruction {
    /// Every operand fits the bit-field it is encoded in.
    pub open spec fn valid(self) -> bool {
        match self {
            Instruction::ClearScreen | Instruction::Return => true,
            Instruction::Jump { address }
            | Instruction::Call { address }
            | Instruction::LoadIndex { address }
            | Instruction::JumpOffset { address } => address < 4096,
            Instruction::SkipEqImm { x, .. }
            | Instruction::SkipNeqImm { x, .. }
            | Instruction::LoadImm { x, .. }
            | Instruction::AddImm { x, .. }
            | Instruction::Random { x, .. }
            | Instruction::SkipKeyPressed { x }
            | Instruction::SkipKeyNotPressed { x }
            | Instruction::ReadDelay { x }
            | Instruction::WaitKey { x }
            | Instruction::SetDelay { x }
            | Instruction::SetSound { x }
            | Instruction::AddIndex { x }
            | Instruction::FontAddress { x }
            | Instruction::StoreBcd { x }
            | Instruction::StoreRegisters { x }
            | Instruction::LoadRegisters { x } => x < 16,
            Instruction::SkipEqReg { x, y }
            | Instruction::Move { x, y }
            | Instruction::Or { x, y }
            | Instruction::And { x, y }
            | Instruction::Xor { x, y }
            | Instruction::AddReg { x, y }
            | Instruction::SubReg { x, y }
            | Instruction::ShiftRight { x, y }
            | Instruction::SubnReg { x, y }
            | Instruction::ShiftLeft { x, y }
            | Instruction::SkipNeqReg { x, y } => x < 16 && y < 16,
            Instruction::Draw { x, y, rows } => x < 16 && y < 16 && rows < 16,
        }
    }

    /// The 16-bit word that stands for this instruction.
    pub open spec fn encoding(self) -> int {
        match self {
            Instruction::ClearScreen => 0x00E0,
            Instruction::Return => 0x00EE,
            Instruction::Jump { address } => 0x1000 + address,
            Instruction::Call { address } => 0x2000 + address,
            Instruction::SkipEqImm { x, value } => 0x3000 + x * 256 + value,
            Instruction::SkipNeqImm { x, value } => 0x4000 + x * 256 + value,
            Instruction::SkipEqReg { x, y } => 0x5000 + x * 256 + y * 16,
            Instruction::LoadImm { x, value } => 0x6000 + x * 256 + value,
            Instruction::AddImm { x, value } => 0x7000 + x * 256 + value,
            Instruction::Move { x, y } => 0x8000 + x * 256 + y * 16,
            Instruction::Or { x, y } => 0x8001 + x * 256 + y * 16,
            Instruction::And { x, y } => 0x8002 + x * 256 + y * 16,
            Instruction::Xor { x, y } => 0x8003 + x * 256 + y * 16,
            Instruction::AddReg { x, y } => 0x8004 + x * 256 + y * 16,
            Instruction::SubReg { x, y } => 0x8005 + x * 256 + y * 16,
            Instruction::ShiftRight { x, y } => 0x8006 + x * 256 + y * 16,
            Instruction::SubnReg { x, y } => 0x8007 + x * 256 + y * 16,
            Instruction::ShiftLeft { x, y } => 0x800E + x * 256 + y * 16,
            Instruction::SkipNeqReg { x, y } => 0x9000 + x * 256 + y * 16,
            Instruction::LoadIndex { address } => 0xA000 + address,
            Instruction::JumpOffset { address } => 0xB000 + address,
            Instruction::Random { x, mask } => 0xC000 + x * 256 + mask,
            Instruction::Draw { x, y, rows } => 0xD000 + x * 256 + y * 16 + rows,
            Instruction::SkipKeyPressed { x } => 0xE09E + x * 256,
            Instruction::SkipKeyNotPressed { x } => 0xE0A1 + x * 256,
            Instruction::ReadDelay { x } => 0xF007 + x * 256,
            Instruction::WaitKey { x } => 0xF00A + x * 256,
            Instruction::SetDelay { x } => 0xF015 + x * 256,
            Instruction::SetSound { x } => 0xF018 + x * 256,
            Instruction::AddIndex { x } => 0xF01E + x * 256,
            Instruction::FontAddress { x } => 0xF029 + x * 256,
            Instruction::StoreBcd { x } => 0xF033 + x * 256,
            Instruction::StoreRegisters { x } => 0xF055 + x * 256,
            Instruction::LoadRegisters { x } => 0xF065 + x * 256,
        }
    }
}

/// The opcode class: the top four bits of the word.
pub open spec fn opcode_class(code: u16) -> int {
    code as int / 4096
}

/// The `x` field: bits 8 to 11.
pub open spec fn field_x(code: u16) -> u8 {
    ((code as int / 256) % 16) as u8
}

/// The `y` field: bits 4 to 7.
pub open spec fn field_y(code: u16) -> u8 {
    ((code as int / 16) % 16) as u8
}

/// The `n` field: the low four bits.
pub open spec fn field_n(code: u16) -> u8 {
    (code as int % 16) as u8
}

/// The `nn` field: the low byte.
pub open spec fn field_nn(code: u16) -> u8 {
    (code as int % 256) as u8
}

/// The `nnn` field: the low twelve bits.
pub open spec fn field_nnn(code: u16) -> u16 {
    (code as int % 4096) as u16
}

/// The instruction that `code` stands for, or `None` where the word matches
/// no row of the decode table.
pub open spec fn decode_spec(code: u16) -> Option<Instruction> {
    let x = field_x(code);
    let y = field_y(code);
    let n = field_n(code);
    let nn = field_nn(code);
    let nnn = field_nnn(code);
    let class = opcode_class(code);
    if class == 0x0 {
        if code == 0x00E0 {
            Some(Instruction::ClearScreen)
        } else if code == 0x00EE {
            Some(Instruction::Return)
        } else {
            None
        }
    } else if class == 0x1 {
        Some(Instruction::Jump { address: nnn })
    } else if class == 0x2 {
        Some(Instruction::Call { address: nnn })
    } else if class == 0x3 {
        Some(Instruction::SkipEqImm { x, value: nn })
    } else if class == 0x4 {
        Some(Instruction::SkipNeqImm { x, value: nn })
    } else if class == 0x5 {
        if n == 0 {
            Some(Instruction::SkipEqReg { x, y })
        } else {
            None
        }
    } else if class == 0x6 {
        Some(Instruction::LoadImm { x, value: nn })
    } else if class == 0x7 {
        Some(Instruction::AddImm { x, value: nn })
    } else if class == 0x8 {
        if n == 0x0 {
            Some(Instruction::Move { x, y })
        } else if n == 0x1 {
            Some(Instruction::Or { x, y })
        } else if n == 0x2 {
            Some(Instruction::And { x, y })
        } else if n == 0x3 {
            Some(Instruction::Xor { x, y })
        } else if n == 0x4 {
            Some(Instruction::AddReg { x, y })
        } else if n == 0x5 {
            Some(Instruction::SubReg { x, y })
        } else if n == 0x6 {
            Some(Instruction::ShiftRight { x, y })
        } else if n == 0x7 {
            Some(Instruction::SubnReg { x, y })
        } else if n == 0xE {
            Some(Instruction::ShiftLeft { x, y })
        } else {
            None
        }
    } else if class == 0x9 {
        if n == 0 {
            Some(Instruction::SkipNeqReg { x, y })
        } else {
            None
        }
    } else if class == 0xA {
        Some(Instruction::LoadIndex { address: nnn })
    } else if class == 0xB {
        Some(Instruction::JumpOffset { address: nnn })
    } else if class == 0xC {
        Some(Instruction::Random { x, mask: nn })
    } else if class == 0xD {
        Some(Instruction::Draw { x, y, rows: n })
    } else if class == 0xE {
        if nn == 0x9E {
            Some(Instruction::SkipKeyPressed { x })
        } else if nn == 0xA1 {
            Some(Instruction::SkipKeyNotPressed { x })
        } else {
            None
        }
    } else {
        if nn == 0x07 {
            Some(Instruction::ReadDelay { x })
        } else if nn == 0x0A {
            Some(Instruction::WaitKey { x })
        } else if nn == 0x15 {
            Some(Instruction::SetDelay { x })
        } else if nn == 0x18 {
            Some(Instruction::SetSound { x })
        } else if nn == 0x1E {
            Some(Instruction::AddIndex { x })
        } else if nn == 0x29 {
            Some(Instruction::FontAddress { x })
        } else if nn == 0x33 {
            Some(Instruction::StoreBcd { x })
        } else if nn == 0x55 {
            Some(Instruction::StoreRegisters { x })
        } else if nn == 0x65 {
            Some(Instruction::LoadRegisters { x })
        } else {
            None
        }
    }
}

/// Shifts and masks pick the same bit-fields as division and remainder.
proof fn lemma_bit_fields(code: u16)
    by (bit_vector)
    ensures
        code >> 12 == code / 4096,
        (code >> 8) & 0x000F == (code / 256) % 16,
        (code >> 4) & 0x000F == (code / 16) % 16,
        code & 0x000F == code % 16,
        code & 0x00FF == code % 256,
        code & 0x0FFF == code % 4096,
{
}

/// Decodes one instruction word.
///
/// Returns the instruction of the decode table that `code` encodes, and `None`
/// for every other word, the zero word among them.
pub fn decode(code: u16) -> (decoded: Option<Instruction>)
    ensures
        decoded == decode_spec(code),
        decoded matches Some(instruction) ==> instruction.valid() && instruction.encoding()
            == code,
        decoded is None ==> forall|instruction: Instruction|
            instruction.valid() ==> #[trigger] instruction.encoding() != code,
{
    proof {
        lemma_bit_fields(code);
        lemma_decode_inverts_encoding(code);
    }
    let class: u16 = code >> 12;
    let x: u8 = ((code >> 8) & 0x000F) as u8;
    let y: u8 = ((code >> 4) & 0x000F) as u8;
    let n: u8 = (code & 0x000F) as u8;
    let nn: u8 = (code & 0x00FF) as u8;
    let nnn: u16 = code & 0x0FFF;
    match class {
        0x0 => match code {
            0x00E0 => Some(Instruction::ClearScreen),
            0x00EE => Some(Instruction::Return),
            _ => None,
        },
        0x1 => Some(Instruction::Jump { address: nnn }),
        0x2 => Some(Instruction::Call { address: nnn }),
        0x3 => Some(Instruction::SkipEqImm { x, value: nn }),
        0x4 => Some(Instruction::SkipNeqImm { x, value: nn }),
        0x5 => match n {
            0x0 => Some(Instruction::SkipEqReg { x, y }),
            _ => None,
        },
        0x6 => Some(Instruction::LoadImm { x, value: nn }),
        0x7 => Some(Instruction::AddImm { x, value: nn }),
        0x8 => match n {
            0x0 => Some(Instruction::Move { x, y }),
            0x1 => Some(Instruction::Or { x, y }),
            0x2 => Some(Instruction::And { x, y }),
            0x3 => Some(Instruction::Xor { x, y }),
            0x4 => Some(Instruction::AddReg { x, y }),
            0x5 => Some(Instruction::SubReg { x, y }),
            0x6 => Some(Instruction::ShiftRight { x, y }),
            0x7 => Some(Instruction::SubnReg { x, y }),
            0xE => Some(Instruction::ShiftLeft { x, y }),
            _ => None,
        },
        0x9 => match n {
            0x0 => Some(Instruction::SkipNeqReg { x, y }),
            _ => None,
        },
        0xA => Some(Instruction::LoadIndex { address: nnn }),
        0xB => Some(Instruction::JumpOffset { address: nnn }),
        0xC => Some(Instruction::Random { x, mask: nn }),
        0xD => Some(Instruction::Draw { x, y, rows: n }),
        0xE => match nn {
            0x9E => Some(Instruction::SkipKeyPressed { x }),
            0xA1 => Some(Instruction::SkipKeyNotPressed { x }),
            _ => None,
        },
        _ => match nn {
            0x07 => Some(Instruction::ReadDelay { x }),
            0x0A => Some(Instruction::WaitKey { x }),
            0x15 => Some(Instruction::SetDelay { x }),
            0x18 => Some(Instruction::SetSound { x }),
            0x1E => Some(Instruction::AddIndex { x }),
            0x29 => Some(Instruction::FontAddress { x }),
            0x33 => Some(Instruction::StoreBcd { x }),
            0x55 => Some(Instruction::StoreRegisters { x }),
            0x65 => Some(Instruction::LoadRegisters { x }),
            _ => None,
        },
    }
}

/// The fields of a word that is put together from a class and an address.
proof fn lemma_word_of_address(class: int, address: int)
    requires
        0 <= class < 16,
        0 <= address < 4096,
    ensures
        ({
            let word = class * 4096 + address;
            &&& 0 <= word < 0x1_0000
            &&& word / 4096 == class
            &&& word % 4096 == address
        }),
{
}

/// The fields of a word that is put together from a class, a register and a byte.
proof fn lemma_word_of_register_and_byte(class: int, x: int, value: int)
    requires
        0 <= class < 16,
        0 <= x < 16,
        0 <= value < 256,
    ensures
        ({
            let word = class * 4096 + x * 256 + value;
            &&& 0 <= word < 0x1_0000
            &&& word / 4096 == class
            &&& (word / 256) % 16 == x
            &&& word % 256 == value
        }),
{
}

/// The fields of a word that is put together from a class and three nibbles.
proof fn lemma_word_of_nibbles(class: int, x: int, y: int, n: int)
    requires
        0 <= class < 16,
        0 <= x < 16,
        0 <= y < 16,
        0 <= n < 16,
    ensures
        ({
            let word = class * 4096 + x * 256 + y * 16 + n;
            &&& 0 <= word < 0x1_0000
            &&& word / 4096 == class
            &&& (word / 256) % 16 == x
            &&& (word / 16) % 16 == y
            &&& word % 16 == n
            &&& word % 256 == y * 16 + n
        }),
{
    let word = class * 4096 + x * 256 + y * 16 + n;
    lemma_word_of_register_and_byte(class, x, y * 16 + n);
    let upper = class * 256 + x * 16 + y;
    assert(word == 16 * upper + n);
    assert(word / 16 == upper && word % 16 == n);
    assert(upper == 16 * (class * 16 + x) + y);
    assert(upper % 16 == y);
}

/// A word is the sum of its bit-fields.
proof fn lemma_word_is_sum(code: u16)
    by (bit_vector)
    ensures
        code == (code / 4096) * 4096 + code % 4096,
        code == (code / 4096) * 4096 + ((code / 256) % 16) * 256 + code % 256,
        code == (code / 4096) * 4096 + ((code / 256) % 16) * 256 + ((code / 16) % 16) * 16 + code
            % 16,
        code % 256 == ((code / 16) % 16) * 16 + code % 16,
        code / 4096 < 16,
{
}

/// A word is the sum of its fields.
proof fn lemma_fields_of_word(code: u16)
    ensures
        code == opcode_class(code) * 4096 + field_nnn(code),
        code == opcode_class(code) * 4096 + field_x(code) * 256 + field_nn(code),
        code == opcode_class(code) * 4096 + field_x(code) * 256 + field_y(code) * 16 + field_n(
            code,
        ),
        field_nn(code) == field_y(code) * 16 + field_n(code),
        0 <= opcode_class(code) < 16,
        field_x(code) < 16,
        field_y(code) < 16,
        field_n(code) < 16,
        field_nnn(code) < 4096,
{
    lemma_word_is_sum(code);
    assert(opcode_class(code) == code / 4096);
    assert(field_x(code) == (code / 256) % 16);
    assert(field_y(code) == (code / 16) % 16);
    assert(field_n(code) == code % 16);
    assert(field_nn(code) == code % 256);
    assert(field_nnn(code) == code % 4096);
}

/// Every well-formed instruction is decoded from its own encoding.
pub proof fn lemma_encoding_decodes(instruction: Instruction)
    requires
        instruction.valid(),
    ensures
        0 <= instruction.encoding() < 0x1_0000,
        decode_spec(instruction.encoding() as u16) == Some(instruction),
{
    match instruction {
        Instruction::ClearScreen => {
            lemma_word_of_nibbles(0x0, 0x0, 0xE, 0x0);
        },
        Instruction::Return => {
            lemma_word_of_nibbles(0x0, 0x0, 0xE, 0xE);
        },
        Instruction::Jump { address } => {
            lemma_word_of_address(0x1, address as int);
        },
        Instruction::Call { address } => {
            lemma_word_of_address(0x2, address as int);
        },
        Instruction::SkipEqImm { x, value } => {
            lemma_word_of_register_and_byte(0x3, x as int, value as int);
        },
        Instruction::SkipNeqImm { x, value } => {
            lemma_word_of_register_and_byte(0x4, x as int, value as int);
        },
        Instruction::SkipEqReg { x, y } => {
            lemma_word_of_nibbles(0x5, x as int, y as int, 0x0);
        },
        Instruction::LoadImm { x, value } => {
            lemma_word_of_register_and_byte(0x6, x as int, value as int);
        },
        Instruction::AddImm { x, value } => {
            lemma_word_of_register_and_byte(0x7, x as int, value as int);
        },
        Instruction::Move { x, y } => {
            lemma_word_of_nibbles(0x8, x as int, y as int, 0x0);
        },
        Instruction::Or { x, y } => {
            lemma_word_of_nibbles(0x8, x as int, y as int, 0x1);
        },
        Instruction::And { x, y } => {
            lemma_word_of_nibbles(0x8, x as int, y as int, 0x2);
        },
        Instruction::Xor { x, y } => {
            lemma_word_of_nibbles(0x8, x as int, y as int, 0x3);
        },
        Instruction::AddReg { x, y } => {
            lemma_word_of_nibbles(0x8, x as int, y as int, 0x4);
        },
        Instruction::SubReg { x, y } => {
            lemma_word_of_nibbles(0x8, x as int, y as int, 0x5);
        },
        Instruction::ShiftRight { x, y } => {
            lemma_word_of_nibbles(0x8, x as int, y as int, 0x6);
        },
        Instruction::SubnReg { x, y } => {
            lemma_word_of_nibbles(0x8, x as int, y as int, 0x7);
        },
        Instruction::ShiftLeft { x, y } => {
            lemma_word_of_nibbles(0x8, x as int, y as int, 0xE);
        },
        Instruction::SkipNeqReg { x, y } => {
            lemma_word_of_nibbles(0x9, x as int, y as int, 0x0);
        },
        Instruction::LoadIndex { address } => {
            lemma_word_of_address(0xA, address as int);
        },
        Instruction::JumpOffset { address } => {
            lemma_word_of_address(0xB, address as int);
        },
        Instruction::Random { x, mask } => {
            lemma_word_of_register_and_byte(0xC, x as int, mask as int);
        },
        Instruction::Draw { x, y, rows } => {
            lemma_word_of_nibbles(0xD, x as int, y as int, rows as int);
        },
        Instruction::SkipKeyPressed { x } => {
            lemma_word_of_register_and_byte(0xE, x as int, 0x9E);
        },
        Instruction::SkipKeyNotPressed { x } => {
            lemma_word_of_register_and_byte(0xE, x as int, 0xA1);
        },
        Instruction::ReadDelay { x } => {
            lemma_word_of_register_and_byte(0xF, x as int, 0x07);
        },
        Instruction::WaitKey { x } => {
            lemma_word_of_register_and_byte(0xF, x as int, 0x0A);
        },
        Instruction::SetDelay { x } => {
            lemma_word_of_register_and_byte(0xF, x as int, 0x15);
        },
        Instruction::SetSound { x } => {
            lemma_word_of_register_and_byte(0xF, x as int, 0x18);
        },
        Instruction::AddIndex { x } => {
            lemma_word_of_register_and_byte(0xF, x as int, 0x1E);
        },
        Instruction::FontAddress { x } => {
            lemma_word_of_register_and_byte(0xF, x as int, 0x29);
        },
        Instruction::StoreBcd { x } => {
            lemma_word_of_register_and_byte(0xF, x as int, 0x33);
        },
        Instruction::StoreRegisters { x } => {
            lemma_word_of_register_and_byte(0xF, x as int, 0x55);
        },
        Instruction::LoadRegisters { x } => {
            lemma_word_of_register_and_byte(0xF, x as int, 0x65);
        },
    }
}

/// Decoding is the inverse of encoding: a word decodes to an instruction
/// exactly when that instruction is well formed and the word is its encoding.
/// So a word is rejected exactly when no well-formed instruction encodes to it.
pub proof fn lemma_decode_inverts_encoding(code: u16)
    ensures
        decode_spec(code) matches Some(instruction) ==> instruction.valid()
            && instruction.encoding() == code,
        forall|instruction: Instruction|
            instruction.valid() && #[trigger] instruction.encoding() == code ==> decode_spec(code)
                == Some(instruction),
{
    lemma_fields_of_word(code);
    assert forall|instruction: Instruction|
        instruction.valid() && #[trigger] instruction.encoding() == code implies decode_spec(code)
        == Some(instruction) by {
        lemma_encoding_decodes(instruction);
    }
}

/// The zero word and the all-ones word are no instructions.
pub proof fn lemma_zero_and_ones_are_unknown()
    ensures
        decode_spec(0x0000) is None,
        decode_spec(0xFFFF) is None,
{
}

} // verus!
