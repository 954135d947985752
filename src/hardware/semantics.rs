//! The mathematical model of the machine and the meaning of each
//! instruction, as functions from one model state to the next.
use vstd::prelude::*;

use crate::hardware::instruction::{decode_spec, Opcode};
use crate::hardware::{MEM_SIZE, STACK_DEPTH};

verus! {

/// Number of pixels in a row of the framebuffer.
pub const WIDTH: usize = 64;

/// Number of rows of the framebuffer.
pub const HEIGHT: usize = 32;

/// Number of framebuffer cells.
pub const PIXEL_COUNT: usize = 2048;

/// Index of the flag register `VF`.
pub const VF: usize = 15;

/// Whether instructions are being executed or one is waiting for a key.
#[derive(Debug, Clone, Copy, PartialEq, Eq, Structural)]
pub enum RunState {
    Running,
    /// Waiting for a key press whose index goes to the given register.
    WaitingForKey(u8),
}

/// A fatal condition met while executing.
#[derive(Debug, Clone, Copy, PartialEq, Eq, Structural)]
pub enum Chip8Error {
    /// The word matches no instruction.
    IllegalInstruction(u16),
    /// A call with a full call stack.
    StackOverflow,
    /// A return with an empty call stack.
    StackUnderflow,
    /// A read or write past the end of memory.
    OutOfBoundsMemoryAccess,
}

/// The whole observable state of the machine.
pub struct MachineModel {
    /// `V0` to `VF`.
    pub regs: Seq<u8>,
    pub i: u16,
    pub pc: u16,
    pub dt: u8,
    pub st: u8,
    pub mem: Seq<u8>,
    /// Return addresses, bottom first.
    pub stack: Seq<u16>,
    /// Framebuffer cells, row by row; a cell is 0 or 1.
    pub screen: Seq<u8>,
    /// Keypad; a nonzero entry is a pressed key.
    pub keys: Seq<u8>,
    /// Set by instructions that change the framebuffer.
    pub draw: bool,
    pub state: RunState,
    /// Whether `OR`, `AND` and `XOR` clear `VF`.
    pub logic_clears_vf: bool,
}

impl MachineModel {
    pub open spec fn wf(&self) -> bool {
        &&& self.regs.len() == 16
        &&& self.mem.len() == MEM_SIZE
        &&& self.stack.len() <= STACK_DEPTH
        &&& self.screen.len() == PIXEL_COUNT
        &&& forall|p: int| 0 <= p < PIXEL_COUNT ==> #[trigger] self.screen[p] <= 1
        &&& self.keys.len() == 16
        &&& (self.state matches RunState::WaitingForKey(x) ==> x < 16)
    }
}

/// `pc` moved on by `k` bytes, wrapping at 16 bits.
pub open spec fn pc_plus(pc: u16, k: int) -> u16 {
    ((pc as int + k) % 0x10000) as u16
}

/// The state with the program counter moved to the next instruction.
pub open spec fn next(m: MachineModel) -> MachineModel {
    MachineModel { pc: pc_plus(m.pc, 2), ..m }
}

/// The state after a conditional skip: `+4` when `cond` holds, else `+2`.
pub open spec fn skip_if(m: MachineModel, cond: bool) -> MachineModel {
    MachineModel { pc: pc_plus(m.pc, if cond { 4 } else { 2 }), ..m }
}

/// Register `x` set to `v`, then the program counter moved on.
pub open spec fn set_reg_next(m: MachineModel, x: int, v: u8) -> MachineModel {
    next(MachineModel { regs: m.regs.update(x, v), ..m })
}

/// `VF` set to `flag`, then register `x` set to `v` (so `v` wins when
/// `x` is `VF`), then the program counter moved on.
pub open spec fn set_flag_reg_next(m: MachineModel, x: int, v: u8, flag: bool) -> MachineModel {
    next(MachineModel { regs: m.regs.update(VF as int, if flag { 1u8 } else { 0u8 }).update(x, v), ..m })
}

/// Whether key `k` is pressed; an index past the keypad is not pressed.
pub open spec fn key_pressed(m: MachineModel, k: u8) -> bool {
    k < 16 && m.keys[k as int] != 0
}

pub open spec fn cls_spec(m: MachineModel) -> MachineModel {
    next(MachineModel { screen: Seq::new(PIXEL_COUNT as nat, |p: int| 0u8), draw: true, ..m })
}

/// Returns to the instruction after the `CALL` on top of the stack.
pub open spec fn ret_spec(m: MachineModel) -> Result<MachineModel, Chip8Error> {
    if m.stack.len() == 0 {
        Err(Chip8Error::StackUnderflow)
    } else {
        Ok(MachineModel { pc: pc_plus(m.stack.last(), 2), stack: m.stack.drop_last(), ..m })
    }
}

/// Pushes the address of the `CALL` itself and jumps to `a`.
pub open spec fn call_spec(m: MachineModel, a: u16) -> Result<MachineModel, Chip8Error> {
    if m.stack.len() >= STACK_DEPTH {
        Err(Chip8Error::StackOverflow)
    } else {
        Ok(MachineModel { stack: m.stack.push(m.pc), pc: a, ..m })
    }
}

pub open spec fn jp_spec(m: MachineModel, a: u16) -> MachineModel {
    MachineModel { pc: a, ..m }
}

pub open spec fn jp_add_spec(m: MachineModel, a: u16) -> MachineModel {
    MachineModel { pc: (a + m.regs[0]) as u16, ..m }
}

pub open spec fn add_byte_spec(m: MachineModel, x: int, kk: u8) -> MachineModel {
    set_reg_next(m, x, ((m.regs[x] + kk) % 256) as u8)
}

pub open spec fn add_spec(m: MachineModel, x: int, y: int) -> MachineModel {
    let sum = m.regs[x] + m.regs[y];
    set_flag_reg_next(m, x, (sum % 256) as u8, sum > 255)
}

pub open spec fn sub_spec(m: MachineModel, x: int, y: int) -> MachineModel {
    let (vx, vy) = (m.regs[x], m.regs[y]);
    set_flag_reg_next(m, x, ((vx - vy + 256) % 256) as u8, vx >= vy)
}

pub open spec fn subn_spec(m: MachineModel, x: int, y: int) -> MachineModel {
    let (vx, vy) = (m.regs[x], m.regs[y]);
    set_flag_reg_next(m, x, ((vy - vx + 256) % 256) as u8, vy >= vx)
}

pub open spec fn shr_spec(m: MachineModel, x: int) -> MachineModel {
    let vx = m.regs[x];
    set_flag_reg_next(m, x, vx / 2, vx % 2 == 1)
}

pub open spec fn shl_spec(m: MachineModel, x: int) -> MachineModel {
    let vx = m.regs[x];
    set_flag_reg_next(m, x, ((vx * 2) % 256) as u8, vx >= 128)
}

/// A bitwise operation's result `v` stored in `Vx`; `VF` is cleared
/// afterwards only when the machine is configured so.
pub open spec fn logic_spec(m: MachineModel, x: int, v: u8) -> MachineModel {
    let regs = m.regs.update(x, v);
    next(MachineModel {
        regs: if m.logic_clears_vf { regs.update(VF as int, 0u8) } else { regs },
        ..m
    })
}

pub open spec fn add_i_spec(m: MachineModel, x: int) -> MachineModel {
    next(MachineModel { i: ((m.i + m.regs[x]) % 0x10000) as u16, ..m })
}

pub open spec fn ld_f_spec(m: MachineModel, x: int) -> MachineModel {
    next(MachineModel { i: (5 * m.regs[x]) as u16, ..m })
}

/// The three decimal digits of `v`, hundreds first.
pub open spec fn bcd_digits(v: u8) -> Seq<u8> {
    seq![v / 100, (v / 10) % 10, v % 10]
}

pub open spec fn bcd_spec(m: MachineModel, x: int) -> Result<MachineModel, Chip8Error> {
    if m.i + 3 > MEM_SIZE {
        Err(Chip8Error::OutOfBoundsMemoryAccess)
    } else {
        let d = bcd_digits(m.regs[x]);
        Ok(next(MachineModel {
            mem: m.mem.update(m.i as int, d[0]).update(m.i + 1, d[1]).update(m.i + 2, d[2]),
            ..m
        }))
    }
}

/// `V0..=Vx` written to memory from `I` on.
pub open spec fn store_regs_spec(m: MachineModel, x: int) -> Result<MachineModel, Chip8Error> {
    if m.i + x + 1 > MEM_SIZE {
        Err(Chip8Error::OutOfBoundsMemoryAccess)
    } else {
        Ok(next(MachineModel {
            mem: Seq::new(m.mem.len(), |a: int|
                if m.i <= a <= m.i + x { m.regs[a - m.i] } else { m.mem[a] }),
            ..m
        }))
    }
}

/// `V0..=Vx` read from memory from `I` on.
pub open spec fn load_regs_spec(m: MachineModel, x: int) -> Result<MachineModel, Chip8Error> {
    if m.i + x + 1 > MEM_SIZE {
        Err(Chip8Error::OutOfBoundsMemoryAccess)
    } else {
        Ok(next(MachineModel {
            regs: Seq::new(16, |k: int| if k <= x { m.mem[m.i + k] } else { m.regs[k] }),
            ..m
        }))
    }
}

/// Bit `j` of a sprite row, counting from the most significant bit.
pub open spec fn sprite_bit(row: u8, j: int) -> bool {
    (row >> ((7 - j) as u8)) & 1u8 == 1u8
}

/// The sprite row that lands on pixel `p` when the sprite's origin is
/// `(vx, vy)`, coordinates wrapping around the screen edges.
pub open spec fn sprite_row_at(vy: u8, p: int) -> int {
    (p / (WIDTH as int) + HEIGHT - (vy as int) % (HEIGHT as int)) % (HEIGHT as int)
}

/// The sprite column that lands on pixel `p`.
pub open spec fn sprite_col_at(vx: u8, p: int) -> int {
    (p % (WIDTH as int) + WIDTH - (vx as int) % (WIDTH as int)) % (WIDTH as int)
}

/// Whether a set bit of `sprite` lands on pixel `p`.
pub open spec fn sprite_hits(sprite: Seq<u8>, vx: u8, vy: u8, p: int) -> bool {
    let r = sprite_row_at(vy, p);
    let j = sprite_col_at(vx, p);
    r < sprite.len() && j < 8 && sprite_bit(sprite[r], j)
}

/// A pixel toggled.
pub open spec fn flip(c: u8) -> u8 {
    if c == 0 { 1 } else { 0 }
}

/// The framebuffer after XOR-drawing `sprite` (one byte per row, at most
/// 15 rows) with its origin at `(vx, vy)`.
pub open spec fn draw_spec(screen: Seq<u8>, sprite: Seq<u8>, vx: u8, vy: u8) -> Seq<u8> {
    Seq::new(screen.len(), |p: int|
        if sprite_hits(sprite, vx, vy, p) { flip(screen[p]) } else { screen[p] })
}

/// Whether drawing `sprite` turns off a pixel that was on.
pub open spec fn collides(screen: Seq<u8>, sprite: Seq<u8>, vx: u8, vy: u8) -> bool {
    exists|p: int| 0 <= p < screen.len() && sprite_hits(sprite, vx, vy, p) && screen[p] != 0
}

pub open spec fn drw_spec(m: MachineModel, x: int, y: int, n: int) -> Result<MachineModel, Chip8Error> {
    if m.i + n > MEM_SIZE {
        Err(Chip8Error::OutOfBoundsMemoryAccess)
    } else {
        let sprite = m.mem.subrange(m.i as int, m.i + n);
        let (vx, vy) = (m.regs[x], m.regs[y]);
        Ok(next(MachineModel {
            screen: draw_spec(m.screen, sprite, vx, vy),
            regs: m.regs.update(VF as int, if collides(m.screen, sprite, vx, vy) { 1u8 } else { 0u8 }),
            draw: true,
            ..m
        }))
    }
}

/// The state after executing `op`; `rnd` is the random byte that `RND`
/// masks.
pub open spec fn exec_op_spec(m: MachineModel, op: Opcode, rnd: u8) -> Result<MachineModel, Chip8Error> {
    match op {
        Opcode::Cls => Ok(cls_spec(m)),
        Opcode::Ret => ret_spec(m),
        Opcode::Jp(a) => Ok(jp_spec(m, a)),
        Opcode::Call(a) => call_spec(m, a),
        Opcode::SeByte(x, kk) => Ok(skip_if(m, m.regs[x as int] == kk)),
        Opcode::SneByte(x, kk) => Ok(skip_if(m, m.regs[x as int] != kk)),
        Opcode::SeReg(x, y) => Ok(skip_if(m, m.regs[x as int] == m.regs[y as int])),
        Opcode::SneReg(x, y) => Ok(skip_if(m, m.regs[x as int] != m.regs[y as int])),
        Opcode::LdByte(x, kk) => Ok(set_reg_next(m, x as int, kk)),
        Opcode::AddByte(x, kk) => Ok(add_byte_spec(m, x as int, kk)),
        Opcode::LdReg(x, y) => Ok(set_reg_next(m, x as int, m.regs[y as int])),
        Opcode::Or(x, y) => Ok(logic_spec(m, x as int, m.regs[x as int] | m.regs[y as int])),
        Opcode::And(x, y) => Ok(logic_spec(m, x as int, m.regs[x as int] & m.regs[y as int])),
        Opcode::Xor(x, y) => Ok(logic_spec(m, x as int, m.regs[x as int] ^ m.regs[y as int])),
        Opcode::Add(x, y) => Ok(add_spec(m, x as int, y as int)),
        Opcode::Sub(x, y) => Ok(sub_spec(m, x as int, y as int)),
        Opcode::Shr(x) => Ok(shr_spec(m, x as int)),
        Opcode::Subn(x, y) => Ok(subn_spec(m, x as int, y as int)),
        Opcode::Shl(x) => Ok(shl_spec(m, x as int)),
        Opcode::LdI(a) => Ok(next(MachineModel { i: a, ..m })),
        Opcode::JpV0(a) => Ok(jp_add_spec(m, a)),
        Opcode::Rnd(x, kk) => Ok(set_reg_next(m, x as int, rnd & kk)),
        Opcode::Drw(x, y, n) => drw_spec(m, x as int, y as int, n as int),
        Opcode::Skp(x) => Ok(skip_if(m, key_pressed(m, m.regs[x as int]))),
        Opcode::Sknp(x) => Ok(skip_if(m, !key_pressed(m, m.regs[x as int]))),
        Opcode::LdVxDt(x) => Ok(set_reg_next(m, x as int, m.dt)),
        Opcode::LdVxK(x) => Ok(MachineModel { state: RunState::WaitingForKey(x), ..m }),
        Opcode::LdDtVx(x) => Ok(next(MachineModel { dt: m.regs[x as int], ..m })),
        Opcode::LdStVx(x) => Ok(next(MachineModel { st: m.regs[x as int], ..m })),
        Opcode::AddIVx(x) => Ok(add_i_spec(m, x as int)),
        Opcode::LdFVx(x) => Ok(ld_f_spec(m, x as int)),
        Opcode::LdBVx(x) => bcd_spec(m, x as int),
        Opcode::StoreRegs(x) => store_regs_spec(m, x as int),
        Opcode::LoadRegs(x) => load_regs_spec(m, x as int),
    }
}

/// The state after executing the instruction word `op`.
pub open spec fn execute_spec(m: MachineModel, op: u16, rnd: u8) -> Result<MachineModel, Chip8Error> {
    match decode_spec(op) {
        None => Err(Chip8Error::IllegalInstruction(op)),
        Some(o) => exec_op_spec(m, o, rnd),
    }
}

/// The instruction word at `pc`, high byte first.
pub open spec fn fetch_spec(mem: Seq<u8>, pc: u16) -> u16 {
    ((mem[pc as int] as u16) << 8u16) | (mem[pc + 1] as u16)
}

/// One instruction cycle: nothing while waiting for a key, else fetch and
/// execute the instruction at `PC`.
#[verifier::opaque]
pub open spec fn cycle_spec(m: MachineModel, rnd: u8) -> Result<MachineModel, Chip8Error> {
    if m.state is WaitingForKey {
        Ok(m)
    } else if m.pc + 1 >= MEM_SIZE {
        Err(Chip8Error::OutOfBoundsMemoryAccess)
    } else {
        execute_spec(m, fetch_spec(m.mem, m.pc), rnd)
    }
}

/// `n` cycles, the `k`-th using `rnds[k]`, stopping at the first error.
/// Gives the last state reached and the outcome.
pub open spec fn cycles_spec(m: MachineModel, n: nat, rnds: Seq<u8>) -> (MachineModel, Result<(), Chip8Error>)
    decreases n,
{
    if n == 0 {
        (m, Ok(()))
    } else {
        let (m1, r1) = cycles_spec(m, (n - 1) as nat, rnds);
        if r1 is Err {
            (m1, r1)
        } else {
            match cycle_spec(m1, rnds[n - 1]) {
                Ok(m2) => (m2, Ok(())),
                Err(e) => (m1, Err(e)),
            }
        }
    }
}

/// `t` lowered by `ticks`, stopping at zero.
pub open spec fn timer_after(t: u8, ticks: int) -> u8 {
    if t >= ticks { (t - ticks) as u8 } else { 0 }
}

/// Both timers lowered by `ticks` timer periods.
pub open spec fn timers_spec(m: MachineModel, ticks: int) -> MachineModel {
    MachineModel { dt: timer_after(m.dt, ticks), st: timer_after(m.st, ticks), ..m }
}

/// Key `k` pressed: it is marked on the keypad, and a pending key wait
/// stores `k` in its register and moves on to the next instruction.
pub open spec fn key_down_spec(m: MachineModel, k: u8) -> MachineModel {
    let m1 = MachineModel { keys: m.keys.update(k as int, 1u8), ..m };
    match m.state {
        RunState::WaitingForKey(x) => next(MachineModel {
            regs: m.regs.update(x as int, k),
            state: RunState::Running,
            ..m1
        }),
        RunState::Running => m1,
    }
}

} // verus!
