//! Instruction words and their decoding.
use vstd::prelude::*;

verus! {

/// Width of one instruction in bytes.
pub const OPCODE_LEN: u16 = 2;

/// The 12-bit address operand `nnn`.
pub open spec fn addr_of(op: u16) -> u16 {
    op & 0x0FFF
}

/// The low nibble `n`.
pub open spec fn nibble_of(op: u16) -> u8 {
    (op & 0x000F) as u8
}

/// The register index `x` in the second nibble.
pub open spec fn x_of(op: u16) -> u8 {
    ((op & 0x0F00) >> 8u16) as u8
}

/// The register index `y` in the third nibble.
pub open spec fn y_of(op: u16) -> u8 {
    ((op & 0x00F0) >> 4u16) as u8
}

/// The 8-bit immediate `kk`.
pub open spec fn kk_of(op: u16) -> u8 {
    (op & 0x00FF) as u8
}

/// The primary dispatch nibble.
pub open spec fn top_of(op: u16) -> u8 {
    ((op & 0xF000) >> 12u16) as u8
}

/// Bounds of the fields of every instruction word.
pub proof fn lemma_field_bounds(op: u16)
    ensures
        addr_of(op) <= 0x0FFF,
        nibble_of(op) < 16,
        x_of(op) < 16,
        y_of(op) < 16,
        top_of(op) < 16,
{
    assert(op & 0x0FFF <= 0x0FFF) by (bit_vector);
    assert(op & 0x000F < 16) by (bit_vector);
    assert((op & 0x0F00) >> 8u16 < 16) by (bit_vector);
    assert((op & 0x00F0) >> 4u16 < 16) by (bit_vector);
    assert((op & 0xF000) >> 12u16 < 16) by (bit_vector);
}

/// A raw 16-bit instruction word with accessors for its fields.
pub struct Instruction {
    pub opcode: u16,
}

impl Instruction {
    pub fn new(code: u16) -> (r: Self)
        ensures
            r.opcode == code,
    {
        Instruction { opcode: code }
    }

    pub fn get_addr(&self) -> (r: u16)
        ensures
            r == addr_of(self.opcode),
            r <= 0x0FFF,
    {
        proof {
            lemma_field_bounds(self.opcode);
        }
        self.opcode & 0x0FFF
    }

    pub fn get_nibble(&self) -> (r: u8)
        ensures
            r == nibble_of(self.opcode),
            r < 16,
    {
        proof {
            lemma_field_bounds(self.opcode);
        }
        (self.opcode & 0x000F) as u8
    }

    pub fn get_x(&self) -> (r: u8)
        ensures
            r == x_of(self.opcode),
            r < 16,
    {
        proof {
            lemma_field_bounds(self.opcode);
        }
        ((self.opcode & 0x0F00) >> 8u16) as u8
    }

    pub fn get_y(&self) -> (r: u8)
        ensures
            r == y_of(self.opcode),
            r < 16,
    {
        proof {
            lemma_field_bounds(self.opcode);
        }
        ((self.opcode & 0x00F0) >> 4u16) as u8
    }

    pub fn get_kk(&self) -> (r: u8)
        ensures
            r == kk_of(self.opcode),
    {
        (self.opcode & 0x00FF) as u8
    }

    pub fn get_top_nib(&self) -> (r: u8)
        ensures
            r == top_of(self.opcode),
            r < 16,
    {
        proof {
            lemma_field_bounds(self.opcode);
        }
        ((self.opcode & 0xF000) >> 12u16) as u8
    }
}

/// A decoded instruction. Register operands are indices below 16.
#[derive(Debug, Clone, Copy, PartialEq, Eq, Structural)]
pub enum Opcode {
    /// `00E0`: clear the screen.
    Cls,
    /// `00EE`: return from a subroutine.
    Ret,
    /// `1nnn`: jump to `nnn`.
    Jp(u16),
    /// `2nnn`: call the subroutine at `nnn`.
    Call(u16),
    /// `3xkk`: skip the next instruction if `Vx == kk`.
    SeByte(u8, u8),
    /// `4xkk`: skip the next instruction if `Vx != kk`.
    SneByte(u8, u8),
    /// `5xy0`: skip the next instruction if `Vx == Vy`.
    SeReg(u8, u8),
    /// `6xkk`: `Vx := kk`.
    LdByte(u8, u8),
    /// `7xkk`: `Vx := Vx + kk`, wrapping, flag untouched.
    AddByte(u8, u8),
    /// `8xy0`: `Vx := Vy`.
    LdReg(u8, u8),
    /// `8xy1`: `Vx := Vx | Vy`.
    Or(u8, u8),
    /// `8xy2`: `Vx := Vx & Vy`.
    And(u8, u8),
    /// `8xy3`: `Vx := Vx ^ Vy`.
    Xor(u8, u8),
    /// `8xy4`: `Vx := Vx + Vy`, `VF` is the carry.
    Add(u8, u8),
    /// `8xy5`: `Vx := Vx - Vy`, `VF` is "no borrow".
    Sub(u8, u8),
    /// `8xy6`: shift `Vx` right, `VF` is the bit shifted out.
    Shr(u8),
    /// `8xy7`: `Vx := Vy - Vx`, `VF` is "no borrow".
    Subn(u8, u8),
    /// `8xyE`: shift `Vx` left, `VF` is the bit shifted out.
    Shl(u8),
    /// `9xy0`: skip the next instruction if `Vx != Vy`.
    SneReg(u8, u8),
    /// `Annn`: `I := nnn`.
    LdI(u16),
    /// `Bnnn`: jump to `nnn + V0`.
    JpV0(u16),
    /// `Cxkk`: `Vx := random byte & kk`.
    Rnd(u8, u8),
    /// `Dxyn`: draw the `n`-byte sprite at `I` at `(Vx, Vy)`.
    Drw(u8, u8, u8),
    /// `Ex9E`: skip the next instruction if key `Vx` is pressed.
    Skp(u8),
    /// `ExA1`: skip the next instruction if key `Vx` is not pressed.
    Sknp(u8),
    /// `Fx07`: `Vx := DT`.
    LdVxDt(u8),
    /// `Fx0A`: wait for a key press and store its index in `Vx`.
    LdVxK(u8),
    /// `Fx15`: `DT := Vx`.
    LdDtVx(u8),
    /// `Fx18`: `ST := Vx`.
    LdStVx(u8),
    /// `Fx1E`: `I := I + Vx`, wrapping at 16 bits.
    AddIVx(u8),
    /// `Fx29`: point `I` at the font glyph of digit `Vx`.
    LdFVx(u8),
    /// `Fx33`: store the decimal digits of `Vx` at `I`, `I+1`, `I+2`.
    LdBVx(u8),
    /// `Fx55`: store `V0..=Vx` at `I..`.
    StoreRegs(u8),
    /// `Fx65`: load `V0..=Vx` from `I..`.
    LoadRegs(u8),
}

/// What an instruction word decodes to; `None` for an illegal word.
pub open spec fn decode_spec(op: u16) -> Option<Opcode> {
    let x = x_of(op);
    let y = y_of(op);
    let kk = kk_of(op);
    let n = nibble_of(op);
    let nnn = addr_of(op);
    let top = top_of(op);
    if top == 0 {
        if kk == 0xE0 { Some(Opcode::Cls) }
        else if kk == 0xEE { Some(Opcode::Ret) }
        else { None }
    } else if top == 1 { Some(Opcode::Jp(nnn)) }
    else if top == 2 { Some(Opcode::Call(nnn)) }
    else if top == 3 { Some(Opcode::SeByte(x, kk)) }
    else if top == 4 { Some(Opcode::SneByte(x, kk)) }
    else if top == 5 { Some(Opcode::SeReg(x, y)) }
    else if top == 6 { Some(Opcode::LdByte(x, kk)) }
    else if top == 7 { Some(Opcode::AddByte(x, kk)) }
    else if top == 8 {
        if n == 0 { Some(Opcode::LdReg(x, y)) }
        else if n == 1 { Some(Opcode::Or(x, y)) }
        else if n == 2 { Some(Opcode::And(x, y)) }
        else if n == 3 { Some(Opcode::Xor(x, y)) }
        else if n == 4 { Some(Opcode::Add(x, y)) }
        else if n == 5 { Some(Opcode::Sub(x, y)) }
        else if n == 6 { Some(Opcode::Shr(x)) }
        else if n == 7 { Some(Opcode::Subn(x, y)) }
        else if n == 0xE { Some(Opcode::Shl(x)) }
        else { None }
    } else if top == 9 { Some(Opcode::SneReg(x, y)) }
    else if top == 0xA { Some(Opcode::LdI(nnn)) }
    else if top == 0xB { Some(Opcode::JpV0(nnn)) }
    else if top == 0xC { Some(Opcode::Rnd(x, kk)) }
    else if top == 0xD { Some(Opcode::Drw(x, y, n)) }
    else if top == 0xE {
        if kk == 0x9E { Some(Opcode::Skp(x)) }
        else if kk == 0xA1 { Some(Opcode::Sknp(x)) }
        else { None }
    } else {
        if kk == 0x07 { Some(Opcode::LdVxDt(x)) }
        else if kk == 0x0A { Some(Opcode::LdVxK(x)) }
        else if kk == 0x15 { Some(Opcode::LdDtVx(x)) }
        else if kk == 0x18 { Some(Opcode::LdStVx(x)) }
        else if kk == 0x1E { Some(Opcode::AddIVx(x)) }
        else if kk == 0x29 { Some(Opcode::LdFVx(x)) }
        else if kk == 0x33 { Some(Opcode::LdBVx(x)) }
        else if kk == 0x55 { Some(Opcode::StoreRegs(x)) }
        else if kk == 0x65 { Some(Opcode::LoadRegs(x)) }
        else { None }
    }
}

impl Instruction {
    /// Decodes the word into an [`Opcode`], or `None` where no
    /// instruction has this bit pattern.
    pub fn decode(&self) -> (r: Option<Opcode>)
        ensures
            r == decode_spec(self.opcode),
    {
        let x = self.get_x();
        let y = self.get_y();
        let kk = self.get_kk();
        let n = self.get_nibble();
        let nnn = self.get_addr();
        let top = self.get_top_nib();
        if top == 0 {
            if kk == 0xE0 { Some(Opcode::Cls) }
            else if kk == 0xEE { Some(Opcode::Ret) }
            else { None }
        } else if top == 1 { Some(Opcode::Jp(nnn)) }
        else if top == 2 { Some(Opcode::Call(nnn)) }
        else if top == 3 { Some(Opcode::SeByte(x, kk)) }
        else if top == 4 { Some(Opcode::SneByte(x, kk)) }
        else if top == 5 { Some(Opcode::SeReg(x, y)) }
        else if top == 6 { Some(Opcode::LdByte(x, kk)) }
        else if top == 7 { Some(Opcode::AddByte(x, kk)) }
        else if top == 8 {
            if n == 0 { Some(Opcode::LdReg(x, y)) }
            else if n == 1 { Some(Opcode::Or(x, y)) }
            else if n == 2 { Some(Opcode::And(x, y)) }
            else if n == 3 { Some(Opcode::Xor(x, y)) }
            else if n == 4 { Some(Opcode::Add(x, y)) }
            else if n == 5 { Some(Opcode::Sub(x, y)) }
            else if n == 6 { Some(Opcode::Shr(x)) }
            else if n == 7 { Some(Opcode::Subn(x, y)) }
            else if n == 0xE { Some(Opcode::Shl(x)) }
            else { None }
        } else if top == 9 { Some(Opcode::SneReg(x, y)) }
        else if top == 0xA { Some(Opcode::LdI(nnn)) }
        else if top == 0xB { Some(Opcode::JpV0(nnn)) }
        else if top == 0xC { Some(Opcode::Rnd(x, kk)) }
        else if top == 0xD { Some(Opcode::Drw(x, y, n)) }
        else if top == 0xE {
            if kk == 0x9E { Some(Opcode::Skp(x)) }
            else if kk == 0xA1 { Some(Opcode::Sknp(x)) }
            else { None }
        } else {
            if kk == 0x07 { Some(Opcode::LdVxDt(x)) }
            else if kk == 0x0A { Some(Opcode::LdVxK(x)) }
            else if kk == 0x15 { Some(Opcode::LdDtVx(x)) }
            else if kk == 0x18 { Some(Opcode::LdStVx(x)) }
            else if kk == 0x1E { Some(Opcode::AddIVx(x)) }
            else if kk == 0x29 { Some(Opcode::LdFVx(x)) }
            else if kk == 0x33 { Some(Opcode::LdBVx(x)) }
            else if kk == 0x55 { Some(Opcode::StoreRegs(x)) }
            else if kk == 0x65 { Some(Opcode::LoadRegs(x)) }
            else { None }
        }
    }
}

} // verus!
