//! The execution engine: owns memory, registers, framebuffer and keypad,
//! executes instructions and runs the timing loop.
use vstd::prelude::*;

use crate::hardware::instruction::{Instruction, Opcode, decode_spec};
use crate::hardware::semantics::{
    add_byte_spec, add_i_spec, add_spec, bcd_digits, bcd_spec, call_spec, cls_spec, collides,
    cycle_spec, cycles_spec, draw_spec, drw_spec, exec_op_spec, execute_spec, fetch_spec, flip,
    jp_add_spec, jp_spec, key_down_spec, key_pressed, ld_f_spec, load_regs_spec, logic_spec,
    next, ret_spec, set_flag_reg_next, set_reg_next, shl_spec, shr_spec, skip_if,
    sprite_col_at, sprite_hits, sprite_row_at, store_regs_spec, sub_spec, subn_spec, timers_spec,
    Chip8Error, MachineModel, RunState, HEIGHT, PIXEL_COUNT, VF, WIDTH,
};
use crate::hardware::{
    loaded, Memory, ProgramTooLarge, Registers, FONTSET, FONT_SIZE, MEM_SIZE, PROGRAM_END,
    PROGRAM_START, STACK_DEPTH,
};

verus! {

/// Instructions executed per second.
pub const CLOCK_HZ: u64 = 600;

/// Timer decrements per second.
pub const TIMER_HZ: u64 = 60;

/// Microseconds per second; the unit of elapsed time handed to `step`.
pub const MICROS: u64 = 1_000_000;

/// The library's version.
pub fn version() -> (r: &'static str)
    ensures
        r@ == "0.1.0"@,
{
    proof {
        reveal_strlit("0.1.0");
    }
    "0.1.0"
}

/// Whether `(xs, ys)` lies on the screen.
pub fn in_bounds(xs: i32, ys: i32) -> (r: bool)
    ensures
        r <==> 0 <= xs < WIDTH && 0 <= ys < HEIGHT,
{
    0 <= xs && xs < 64 && 0 <= ys && ys < 32
}

/// The three decimal digits of `num`, hundreds first.
pub fn to_digits(num: u8) -> (r: [u8; 3])
    ensures
        r@ == bcd_digits(num),
{
    let r = [num / 100, (num / 10) % 10, num % 10];
    assert(r@ =~= bcd_digits(num));
    r
}


/// Whether the loop of `draw_sprite` has passed pixel `q` when it stands
/// at row `r`, column `j` of the sprite.
spec fn drawn_before(vx: u8, vy: u8, r: int, j: int, q: int) -> bool {
    sprite_row_at(vy, q) < r || (sprite_row_at(vy, q) == r && sprite_col_at(vx, q) < j)
}

/// Moving `r` steps on from `v` and then back by `v`, modulo `m`, gives
/// `r`; and `(v + r) % m` is the only residue that does so.
proof fn lemma_wrap_back(v: int, r: int, m: int, a2: int)
    requires
        0 <= v,
        0 <= r < m,
        0 <= a2 < m,
        m == 32 || m == 64,
    ensures
        (((v + r) % m) + m - v % m) % m == r,
        (a2 + m - v % m) % m == r ==> a2 == (v + r) % m,
{
    let a = (v + r) % m;
    let c = v % m;
    vstd::arithmetic::div_mod::lemma_fundamental_div_mod(v, m);
    vstd::arithmetic::div_mod::lemma_fundamental_div_mod(v + r, m);
    let t = v / m;
    let t2 = (v + r) / m;
    assert(a + m - c == r + m * (t - t2 + 1)) by (nonlinear_arith)
        requires v == m * t + c, v + r == m * t2 + a;
    assert(0 <= c < m);
    assert(0 <= a < m);
    assert(t - t2 + 1 == 0 || t - t2 + 1 == 1) by (nonlinear_arith)
        requires a + m - c == r + m * (t - t2 + 1), 0 <= c < m, 0 <= a < m, 0 <= r < m, m > 0;
    vstd::arithmetic::div_mod::lemma_mod_multiples_vanish(t - t2 + 1, r, m);
    vstd::arithmetic::div_mod::lemma_small_mod(r as nat, m as nat);
    if (a2 + m - c) % m == r {
        vstd::arithmetic::div_mod::lemma_fundamental_div_mod(a2 + m - c, m);
        assert(0 < a2 + m - c < 2 * m);
        if a2 + m - c < m {
            vstd::arithmetic::div_mod::lemma_small_mod((a2 + m - c) as nat, m as nat);
        } else {
            vstd::arithmetic::div_mod::lemma_mod_multiples_vanish(1, a2 - c, m);
            vstd::arithmetic::div_mod::lemma_small_mod((a2 - c) as nat, m as nat);
        }
    }
}

/// The pixel on which row `r`, column `j` of a sprite at `(vx, vy)` lands
/// is the only one that maps back to that row and column.
proof fn lemma_pixel_of(vx: u8, vy: u8, r: int, j: int, q: int)
    requires
        0 <= r < HEIGHT,
        0 <= j < WIDTH,
        0 <= q < PIXEL_COUNT,
    ensures
        ({
            let p = ((vy + r) % 32) * 64 + (vx + j) % 64;
            &&& 0 <= p < PIXEL_COUNT
            &&& sprite_row_at(vy, p) == r
            &&& sprite_col_at(vx, p) == j
            &&& (sprite_row_at(vy, q) == r && sprite_col_at(vx, q) == j ==> q == p)
        }),
{
    let a = (vy + r) % 32;
    let b = (vx + j) % 64;
    let p = a * 64 + b;
    assert(0 <= p < PIXEL_COUNT) by (nonlinear_arith)
        requires 0 <= a < 32, 0 <= b < 64, p == a * 64 + b;
    vstd::arithmetic::div_mod::lemma_fundamental_div_mod_converse(p, 64, a, b);
    vstd::arithmetic::div_mod::lemma_fundamental_div_mod(q, 64);
    let qa = q / 64;
    let qb = q % 64;
    assert(0 <= qa < 32);
    lemma_wrap_back(vy as int, r, 32, qa);
    lemma_wrap_back(vx as int, j, 64, qb);
}

/// XOR-draws `sprite` onto `screen` with its origin at `(vx, vy)`,
/// wrapping at the edges; returns whether a lit pixel was turned off.
pub fn draw_sprite(screen: &mut [u8; 2048], sprite: &Vec<u8>, vx: u8, vy: u8) -> (collision: bool)
    requires
        sprite@.len() < HEIGHT,
    ensures
        final(screen)@ == draw_spec(old(screen)@, sprite@, vx, vy),
        collision == collides(old(screen)@, sprite@, vx, vy),
{
    let ghost old_screen = screen@;
    let n = sprite.len();
    let mut collision = false;
    let mut r: usize = 0;
    while r < n
        invariant
            n == sprite@.len() < HEIGHT,
            r <= n,
            forall|q: int| 0 <= q < PIXEL_COUNT ==> #[trigger] screen@[q] == (
                if drawn_before(vx, vy, r as int, 0, q) && sprite_hits(sprite@, vx, vy, q) {
                    flip(old_screen[q])
                } else {
                    old_screen[q]
                }),
            collision <==> exists|q: int| 0 <= q < PIXEL_COUNT && drawn_before(vx, vy, r as int, 0, q)
                && sprite_hits(sprite@, vx, vy, q) && old_screen[q] != 0,
        decreases n - r,
    {
        let row = sprite[r];
        let mut j: usize = 0;
        while j < 8
            invariant
                n == sprite@.len() < HEIGHT,
                r < n,
                j <= 8,
                row == sprite@[r as int],
                forall|q: int| 0 <= q < PIXEL_COUNT ==> #[trigger] screen@[q] == (
                    if drawn_before(vx, vy, r as int, j as int, q) && sprite_hits(sprite@, vx, vy, q) {
                        flip(old_screen[q])
                    } else {
                        old_screen[q]
                    }),
                collision <==> exists|q: int| 0 <= q < PIXEL_COUNT && drawn_before(vx, vy, r as int, j as int, q)
                    && sprite_hits(sprite@, vx, vy, q) && old_screen[q] != 0,
            decreases 8 - j,
        {
            let p = ((vy as usize + r) % 32) * 64 + (vx as usize + j) % 64;
            let bit = (row >> ((7 - j) as u8)) & 1u8 == 1u8;
            let ghost was_collision = collision;
            proof {
                assert forall|q: int| 0 <= q < PIXEL_COUNT implies
                    (drawn_before(vx, vy, r as int, j as int + 1, q) <==> (drawn_before(vx, vy, r as int, j as int, q) || q == p))
                by {
                    lemma_pixel_of(vx, vy, r as int, j as int, q);
                }
                lemma_pixel_of(vx, vy, r as int, j as int, 0);
                assert(sprite_hits(sprite@, vx, vy, p as int) == bit);
                assert(!drawn_before(vx, vy, r as int, j as int, p as int));
            }
            if bit {
                if screen[p] != 0 {
                    collision = true;
                }
                screen[p] = if screen[p] == 0 { 1 } else { 0 };
            }
            proof {
                if bit && old_screen[p as int] != 0 {
                    assert(drawn_before(vx, vy, r as int, j as int + 1, p as int));
                }
                if was_collision {
                    let w = choose|q: int| 0 <= q < PIXEL_COUNT && drawn_before(vx, vy, r as int, j as int, q)
                        && sprite_hits(sprite@, vx, vy, q) && old_screen[q] != 0;
                    assert(drawn_before(vx, vy, r as int, j as int + 1, w));
                }
                if collision {
                    if !was_collision {
                        assert(bit && old_screen[p as int] != 0);
                    }
                } else {
                    assert forall|q: int| !(0 <= q < PIXEL_COUNT && drawn_before(vx, vy, r as int, j as int + 1, q)
                        && sprite_hits(sprite@, vx, vy, q) && old_screen[q] != 0) by {
                        if 0 <= q < PIXEL_COUNT && drawn_before(vx, vy, r as int, j as int + 1, q) && q != p {
                            assert(drawn_before(vx, vy, r as int, j as int, q));
                        }
                    }
                }
            }
            j = j + 1;
        }
        proof {
            assert forall|q: int| 0 <= q < PIXEL_COUNT implies
                (drawn_before(vx, vy, r as int + 1, 0, q) && sprite_hits(sprite@, vx, vy, q)
                    <==> drawn_before(vx, vy, r as int, 8, q) && sprite_hits(sprite@, vx, vy, q))
            by {}
        }
        r = r + 1;
    }
    proof {
        assert forall|q: int| 0 <= q < PIXEL_COUNT && sprite_hits(sprite@, vx, vy, q)
            implies drawn_before(vx, vy, n as int, 0, q) by {}
    }
    assert(screen@ =~= draw_spec(old_screen, sprite@, vx, vy));
    collision
}

/// Relies on `rand::random::<u8>`, a byte from the thread-local
/// generator; nothing is assumed of its value. It panics only when the
/// operating system cannot seed that generator, whatever the call.
#[verifier::external_body]
fn random_byte() -> (r: u8) {
    rand::random::<u8>()
}

/// The register operands of `op` name registers.
pub open spec fn op_operands_ok(op: Opcode) -> bool {
    match op {
        Opcode::Cls | Opcode::Ret | Opcode::Jp(_) | Opcode::Call(_) | Opcode::LdI(_) => true,
        Opcode::JpV0(a) => a <= 0x0FFF,
        Opcode::SeByte(x, _) | Opcode::SneByte(x, _) | Opcode::LdByte(x, _) | Opcode::AddByte(x, _)
        | Opcode::Rnd(x, _) => x < 16,
        Opcode::SeReg(x, y) | Opcode::SneReg(x, y) | Opcode::LdReg(x, y) | Opcode::Or(x, y)
        | Opcode::And(x, y) | Opcode::Xor(x, y) | Opcode::Add(x, y) | Opcode::Sub(x, y)
        | Opcode::Subn(x, y) => x < 16 && y < 16,
        Opcode::Drw(x, y, n) => x < 16 && y < 16 && n < 16,
        Opcode::Shr(x) | Opcode::Shl(x) | Opcode::Skp(x) | Opcode::Sknp(x) | Opcode::LdVxDt(x)
        | Opcode::LdVxK(x) | Opcode::LdDtVx(x) | Opcode::LdStVx(x) | Opcode::AddIVx(x)
        | Opcode::LdFVx(x) | Opcode::LdBVx(x) | Opcode::StoreRegs(x) | Opcode::LoadRegs(x) => x < 16,
    }
}

/// Every decoded instruction has operands in range.
pub proof fn lemma_decoded_operands_ok(op: u16)
    ensures
        decode_spec(op) matches Some(o) ==> op_operands_ok(o),
{
    crate::hardware::instruction::lemma_field_bounds(op);
}

/// Timer periods that have passed once `elapsed_us` more microseconds
/// are added to a carried-over `credit`.
pub open spec fn timer_ticks_due(credit: u64, elapsed_us: u32) -> int {
    (credit + elapsed_us * TIMER_HZ) / (MICROS as int)
}

/// Instruction cycles due once `elapsed_us` more microseconds are added to
/// a carried-over `credit`.
pub open spec fn cycles_due(credit: u64, elapsed_us: u32) -> nat {
    ((credit + elapsed_us * CLOCK_HZ) / (MICROS as int)) as nat
}

/// Cycles read only the random bytes of the cycles they run.
proof fn lemma_cycles_agree(m: MachineModel, n: nat, rs1: Seq<u8>, rs2: Seq<u8>)
    requires
        n <= rs1.len(),
        n <= rs2.len(),
        forall|i: int| 0 <= i < n ==> rs1[i] == rs2[i],
    ensures
        cycles_spec(m, n, rs1) == cycles_spec(m, n, rs2),
    decreases n,
{
    if n > 0 {
        lemma_cycles_agree(m, (n - 1) as nat, rs1, rs2);
    }
}

/// One more cycle extends a run that has not failed.
proof fn lemma_cycles_step(
    m0: MachineModel,
    k: nat,
    rnds: Seq<u8>,
    random: u8,
    before: MachineModel,
    after: MachineModel,
    res: Result<(), Chip8Error>,
)
    requires
        rnds.len() == k,
        cycles_spec(m0, k, rnds) == (before, Ok::<(), Chip8Error>(())),
        outcome(before, after, res, cycle_spec(before, random)),
    ensures
        cycles_spec(m0, k + 1, rnds.push(random)) == (after, res),
{
    lemma_cycles_agree(m0, k, rnds, rnds.push(random));
    assert(rnds.push(random)[k as int] == random);
}

/// A run that failed after `k` cycles, padded to `n` random bytes, ends
/// the same way.
proof fn lemma_cycles_pad(m0: MachineModel, k: nat, n: nat, rnds: Seq<u8>)
    requires
        rnds.len() == k,
        k <= n,
        cycles_spec(m0, k, rnds).1 is Err,
    ensures
        ({
            let pad = rnds + Seq::new((n - k) as nat, |i: int| 0u8);
            pad.len() == n && cycles_spec(m0, n, pad) == cycles_spec(m0, k, rnds)
        }),
{
    let pad = rnds + Seq::new((n - k) as nat, |i: int| 0u8);
    lemma_cycles_agree(m0, k, rnds, pad);
    lemma_cycles_err_stays(m0, k, n, pad);
}

/// After an error, further cycles change nothing.
proof fn lemma_cycles_err_stays(m: MachineModel, k: nat, n: nat, rs: Seq<u8>)
    requires
        k <= n,
        cycles_spec(m, k, rs).1 is Err,
    ensures
        cycles_spec(m, n, rs) == cycles_spec(m, k, rs),
    decreases n,
{
    if n > k {
        lemma_cycles_err_stays(m, k, (n - 1) as nat, rs);
    }
}

/// A CHIP-8 machine.
pub struct Chip8 {
    pub registers: Registers,
    pub memory: Memory,
    /// 64x32 cells, row by row; 1 is a lit pixel.
    pub screen: [u8; 2048],
    /// Keypad; a nonzero entry is a pressed key.
    pub keys: [u8; 16],
    /// Set when the framebuffer changed; the display clears it.
    pub draw: bool,
    pub state: RunState,
    /// Whether `OR`, `AND` and `XOR` clear `VF` (off by default).
    pub logic_clears_vf: bool,
    /// Instruction cycles owed, in millionths of a cycle.
    pub cycle_credit: u64,
    /// Timer periods owed, in millionths of a period.
    pub timer_credit: u64,
}

impl View for Chip8 {
    type V = MachineModel;

    open spec fn view(&self) -> MachineModel {
        MachineModel {
            regs: self.registers.gen_regs@,
            i: self.registers.i,
            pc: self.registers.pc,
            dt: self.registers.dt,
            st: self.registers.st,
            mem: self.memory.memory@,
            stack: self.memory.stack@,
            screen: self.screen@,
            keys: self.keys@,
            draw: self.draw,
            state: self.state,
            logic_clears_vf: self.logic_clears_vf,
        }
    }
}

/// `r` and the new state are what `expected` says: the state it gives,
/// or its error with the state unchanged.
pub open spec fn outcome(
    before: MachineModel,
    after: MachineModel,
    r: Result<(), Chip8Error>,
    expected: Result<MachineModel, Chip8Error>,
) -> bool {
    match expected {
        Ok(m) => r == Ok::<(), Chip8Error>(()) && after == m,
        Err(e) => r == Err::<(), Chip8Error>(e) && after == before,
    }
}

impl Default for Chip8 {
    fn default() -> (r: Self)
        ensures
            r.wf(),
            r.is_initial(),
    {
        Chip8::new()
    }
}

impl Chip8 {
    /// The state of a fresh machine: the font loaded, `PC` at the program
    /// start, everything else zero, running, with no clock credit.
    pub open spec fn is_initial(&self) -> bool {
        &&& self@.regs == Seq::new(16, |k: int| 0u8)
        &&& self@.i == 0
        &&& self@.pc == PROGRAM_START
        &&& self@.dt == 0
        &&& self@.st == 0
        &&& self@.mem.subrange(0, FONT_SIZE as int) == FONTSET@
        &&& forall|a: int| FONT_SIZE <= a < MEM_SIZE ==> self@.mem[a] == 0
        &&& self@.stack.len() == 0
        &&& self@.screen == Seq::new(PIXEL_COUNT as nat, |p: int| 0u8)
        &&& self@.keys == Seq::new(16, |k: int| 0u8)
        &&& !self@.draw
        &&& self@.state == RunState::Running
        &&& !self@.logic_clears_vf
        &&& self.cycle_credit == 0
        &&& self.timer_credit == 0
    }

    pub open spec fn wf(&self) -> bool {
        &&& self@.wf()
        &&& self.cycle_credit < MICROS
        &&& self.timer_credit < MICROS
    }

    /// A machine with the font loaded, `PC` at the program start, all else
    /// zero, and running.
    pub fn new() -> (r: Self)
        ensures
            r.wf(),
            r.is_initial(),
    {
        let r = Chip8 {
            registers: Registers::default(),
            memory: Memory::default(),
            screen: [0u8; 2048],
            keys: [0u8; 16],
            draw: false,
            state: RunState::Running,
            logic_clears_vf: false,
            cycle_credit: 0,
            timer_credit: 0,
        };
        assert(r@.regs =~= Seq::new(16, |k: int| 0u8));
        assert(r@.screen =~= Seq::new(PIXEL_COUNT as nat, |p: int| 0u8));
        assert(r@.keys =~= Seq::new(16, |k: int| 0u8));
        assert(r@.mem.subrange(0, FONT_SIZE as int) =~= FONTSET@);
        r
    }

    fn inc_pc(&mut self)
        ensures
            final(self)@ == next(old(self)@),
            final(self).cycle_credit == old(self).cycle_credit,
            final(self).timer_credit == old(self).timer_credit,
            final(self).memory.wf() == old(self).memory.wf(),
    {
        self.registers.pc = self.registers.pc.wrapping_add(2);
    }

    /// The timing credits are those of `o`.
    pub open spec fn same_clock(&self, o: &Chip8) -> bool {
        self.cycle_credit == o.cycle_credit && self.timer_credit == o.timer_credit
    }

    pub fn get_reg(&self, index: usize) -> (r: u8)
        requires
            index < 16,
        ensures
            r == self@.regs[index as int],
    {
        self.registers.gen_regs[index]
    }

    pub fn set_reg(&mut self, index: usize, val: u8)
        requires
            old(self).wf(),
            index < 16,
        ensures
            final(self).wf(),
            final(self).same_clock(old(self)),
            final(self)@ == (MachineModel { regs: old(self)@.regs.update(index as int, val), ..old(self)@ }),
    {
        self.registers.gen_regs[index] = val;
    }

    /// The flag register `VF`.
    pub fn get_vf(&self) -> (r: u8)
        ensures
            r == self@.regs[VF as int],
    {
        self.registers.gen_regs[VF]
    }

    fn do_set_vf(&mut self, val: u8)
        requires
            old(self).wf(),
        ensures
            final(self).wf(),
            final(self).same_clock(old(self)),
            final(self)@ == (MachineModel { regs: old(self)@.regs.update(VF as int, val), ..old(self)@ }),
    {
        self.registers.gen_regs[VF] = val;
    }

    pub fn get_i(&self) -> (r: u16)
        ensures
            r == self@.i,
    {
        self.registers.i
    }

    pub fn set_i(&mut self, val: u16)
        requires
            old(self).wf(),
        ensures
            final(self).wf(),
            final(self).same_clock(old(self)),
            final(self)@ == (MachineModel { i: val, ..old(self)@ }),
    {
        self.registers.i = val;
    }

    pub fn get_pc(&self) -> (r: u16)
        ensures
            r == self@.pc,
    {
        self.registers.pc
    }

    pub fn get_dt(&self) -> (r: u8)
        ensures
            r == self@.dt,
    {
        self.registers.dt
    }

    pub fn set_dt(&mut self, val: u8)
        requires
            old(self).wf(),
        ensures
            final(self).wf(),
            final(self).same_clock(old(self)),
            final(self)@ == (MachineModel { dt: val, ..old(self)@ }),
    {
        self.registers.dt = val;
    }

    pub fn get_st(&self) -> (r: u8)
        ensures
            r == self@.st,
    {
        self.registers.st
    }

    pub fn set_st(&mut self, val: u8)
        requires
            old(self).wf(),
        ensures
            final(self).wf(),
            final(self).same_clock(old(self)),
            final(self)@ == (MachineModel { st: val, ..old(self)@ }),
    {
        self.registers.st = val;
    }

    pub fn read_mem(&self, loc: usize) -> (r: u8)
        requires
            self.wf(),
            loc < MEM_SIZE,
        ensures
            r == self@.mem[loc as int],
    {
        self.memory.memory[loc]
    }

    pub fn write_mem(&mut self, loc: usize, val: u8)
        requires
            old(self).wf(),
            loc < MEM_SIZE,
        ensures
            final(self).wf(),
            final(self).same_clock(old(self)),
            final(self)@ == (MachineModel { mem: old(self)@.mem.update(loc as int, val), ..old(self)@ }),
    {
        self.memory.memory.set(loc, val);
    }

    /// `00E0`: clears the framebuffer.
    pub fn cls(&mut self)
        requires
            old(self).wf(),
        ensures
            final(self).wf(),
            final(self).same_clock(old(self)),
            final(self)@ == cls_spec(old(self)@),
    {
        let mut p: usize = 0;
        while p < PIXEL_COUNT
            invariant
                p <= PIXEL_COUNT,
                self.wf(),
                self.same_clock(old(self)),
                self@ == (MachineModel { screen: self@.screen, ..old(self)@ }),
                forall|q: int| 0 <= q < p ==> self@.screen[q] == 0,
                forall|q: int| p <= q < PIXEL_COUNT ==> self@.screen[q] == old(self)@.screen[q],
            decreases PIXEL_COUNT - p,
        {
            self.screen[p] = 0;
            p = p + 1;
        }
        self.draw = true;
        self.inc_pc();
        assert(self@.screen =~= cls_spec(old(self)@).screen);
    }

    /// `1nnn`: jumps to `address`.
    pub fn jp(&mut self, address: u16)
        requires
            old(self).wf(),
        ensures
            final(self).wf(),
            final(self).same_clock(old(self)),
            final(self)@ == jp_spec(old(self)@, address),
    {
        self.registers.pc = address;
    }

    /// `Bnnn`: jumps to `address + V0`.
    pub fn jp_add(&mut self, address: u16)
        requires
            old(self).wf(),
            address <= 0x0FFF,
        ensures
            final(self).wf(),
            final(self).same_clock(old(self)),
            final(self)@ == jp_add_spec(old(self)@, address),
    {
        self.registers.pc = address + self.registers.gen_regs[0] as u16;
    }

    /// `00EE`: returns to the instruction after the `CALL` on top of the
    /// call stack; an empty stack is an error.
    pub fn ret(&mut self) -> (r: Result<(), Chip8Error>)
        requires
            old(self).wf(),
        ensures
            final(self).wf(),
            final(self).same_clock(old(self)),
            outcome(old(self)@, final(self)@, r, ret_spec(old(self)@)),
    {
        match self.memory.stack.pop() {
            Some(address) => {
                self.registers.pc = address.wrapping_add(2);
                Ok(())
            },
            None => Err(Chip8Error::StackUnderflow),
        }
    }

    /// `2nnn`: pushes the address of this instruction and jumps to
    /// `address`; a full stack is an error.
    pub fn call(&mut self, address: u16) -> (r: Result<(), Chip8Error>)
        requires
            old(self).wf(),
        ensures
            final(self).wf(),
            final(self).same_clock(old(self)),
            outcome(old(self)@, final(self)@, r, call_spec(old(self)@, address)),
    {
        match self.memory.stack.push(self.registers.pc) {
            Ok(()) => {
                self.registers.pc = address;
                Ok(())
            },
            Err(_) => Err(Chip8Error::StackOverflow),
        }
    }

    /// `3xkk`: skips the next instruction if `Vx == byte`.
    pub fn seb(&mut self, regx: usize, byte: u8)
        requires
            old(self).wf(),
            regx < 16,
        ensures
            final(self).wf(),
            final(self).same_clock(old(self)),
            final(self)@ == skip_if(old(self)@, old(self)@.regs[regx as int] == byte),
    {
        self.skip_when(self.registers.gen_regs[regx] == byte);
    }

    /// `4xkk`: skips the next instruction if `Vx != byte`.
    pub fn sneb(&mut self, regx: usize, byte: u8)
        requires
            old(self).wf(),
            regx < 16,
        ensures
            final(self).wf(),
            final(self).same_clock(old(self)),
            final(self)@ == skip_if(old(self)@, old(self)@.regs[regx as int] != byte),
    {
        self.skip_when(self.registers.gen_regs[regx] != byte);
    }

    /// `5xy0`: skips the next instruction if `Vx == Vy`.
    pub fn se(&mut self, regx: usize, regy: usize)
        requires
            old(self).wf(),
            regx < 16,
            regy < 16,
        ensures
            final(self).wf(),
            final(self).same_clock(old(self)),
            final(self)@ == skip_if(old(self)@, old(self)@.regs[regx as int] == old(self)@.regs[regy as int]),
    {
        self.skip_when(self.registers.gen_regs[regx] == self.registers.gen_regs[regy]);
    }

    /// `9xy0`: skips the next instruction if `Vx != Vy`.
    pub fn sne(&mut self, regx: usize, regy: usize)
        requires
            old(self).wf(),
            regx < 16,
            regy < 16,
        ensures
            final(self).wf(),
            final(self).same_clock(old(self)),
            final(self)@ == skip_if(old(self)@, old(self)@.regs[regx as int] != old(self)@.regs[regy as int]),
    {
        self.skip_when(self.registers.gen_regs[regx] != self.registers.gen_regs[regy]);
    }

    fn skip_when(&mut self, cond: bool)
        requires
            old(self).wf(),
        ensures
            final(self).wf(),
            final(self).same_clock(old(self)),
            final(self)@ == skip_if(old(self)@, cond),
    {
        let step: u16 = if cond { 4 } else { 2 };
        self.registers.pc = self.registers.pc.wrapping_add(step);
    }

    fn set_reg_and_advance(&mut self, regx: usize, val: u8)
        requires
            old(self).wf(),
            regx < 16,
        ensures
            final(self).wf(),
            final(self).same_clock(old(self)),
            final(self)@ == set_reg_next(old(self)@, regx as int, val),
    {
        self.registers.gen_regs[regx] = val;
        self.inc_pc();
    }

    fn set_flag_reg_and_advance(&mut self, regx: usize, val: u8, flag: bool)
        requires
            old(self).wf(),
            regx < 16,
        ensures
            final(self).wf(),
            final(self).same_clock(old(self)),
            final(self)@ == set_flag_reg_next(old(self)@, regx as int, val, flag),
    {
        self.do_set_vf(if flag { 1 } else { 0 });
        self.registers.gen_regs[regx] = val;
        self.inc_pc();
    }

    /// `6xkk`: `Vx := byte`.
    pub fn ldb(&mut self, regx: usize, byte: u8)
        requires
            old(self).wf(),
            regx < 16,
        ensures
            final(self).wf(),
            final(self).same_clock(old(self)),
            final(self)@ == set_reg_next(old(self)@, regx as int, byte),
    {
        self.set_reg_and_advance(regx, byte);
    }

    /// `8xy0`: `Vx := Vy`.
    pub fn ld(&mut self, regx: usize, regy: usize)
        requires
            old(self).wf(),
            regx < 16,
            regy < 16,
        ensures
            final(self).wf(),
            final(self).same_clock(old(self)),
            final(self)@ == set_reg_next(old(self)@, regx as int, old(self)@.regs[regy as int]),
    {
        let v = self.registers.gen_regs[regy];
        self.set_reg_and_advance(regx, v);
    }

    /// `7xkk`: `Vx := Vx + byte` modulo 256; `VF` is not touched.
    pub fn addb(&mut self, regx: usize, byte: u8)
        requires
            old(self).wf(),
            regx < 16,
        ensures
            final(self).wf(),
            final(self).same_clock(old(self)),
            final(self)@ == add_byte_spec(old(self)@, regx as int, byte),
    {
        let v = self.registers.gen_regs[regx].wrapping_add(byte);
        self.set_reg_and_advance(regx, v);
    }

    /// `8xy4`: `Vx := Vx + Vy` modulo 256; `VF` is 1 when the sum exceeds
    /// 255, else 0.
    pub fn add(&mut self, regx: usize, regy: usize)
        requires
            old(self).wf(),
            regx < 16,
            regy < 16,
        ensures
            final(self).wf(),
            final(self).same_clock(old(self)),
            final(self)@ == add_spec(old(self)@, regx as int, regy as int),
    {
        let sum: u16 = self.registers.gen_regs[regx] as u16 + self.registers.gen_regs[regy] as u16;
        self.set_flag_reg_and_advance(regx, (sum % 256) as u8, sum > 255);
    }

    /// `8xy5`: `Vx := Vx - Vy` modulo 256; `VF` is 1 when `Vx >= Vy`
    /// beforehand, else 0.
    pub fn sub(&mut self, regx: usize, regy: usize)
        requires
            old(self).wf(),
            regx < 16,
            regy < 16,
        ensures
            final(self).wf(),
            final(self).same_clock(old(self)),
            final(self)@ == sub_spec(old(self)@, regx as int, regy as int),
    {
        let vx = self.registers.gen_regs[regx];
        let vy = self.registers.gen_regs[regy];
        self.set_flag_reg_and_advance(regx, vx.wrapping_sub(vy), vx >= vy);
    }

    /// `8xy7`: `Vx := Vy - Vx` modulo 256; `VF` is 1 when `Vy >= Vx`
    /// beforehand, else 0.
    pub fn subn(&mut self, regx: usize, regy: usize)
        requires
            old(self).wf(),
            regx < 16,
            regy < 16,
        ensures
            final(self).wf(),
            final(self).same_clock(old(self)),
            final(self)@ == subn_spec(old(self)@, regx as int, regy as int),
    {
        let vx = self.registers.gen_regs[regx];
        let vy = self.registers.gen_regs[regy];
        self.set_flag_reg_and_advance(regx, vy.wrapping_sub(vx), vy >= vx);
    }

    /// `8xy6`: `VF` takes the low bit of `Vx`, then `Vx` is shifted right.
    pub fn shr(&mut self, regx: usize)
        requires
            old(self).wf(),
            regx < 16,
        ensures
            final(self).wf(),
            final(self).same_clock(old(self)),
            final(self)@ == shr_spec(old(self)@, regx as int),
    {
        let vx = self.registers.gen_regs[regx];
        self.set_flag_reg_and_advance(regx, vx / 2, vx % 2 == 1);
    }

    /// `8xyE`: `VF` takes the high bit of `Vx`, then `Vx` is shifted left
    /// and truncated to 8 bits.
    pub fn shl(&mut self, regx: usize)
        requires
            old(self).wf(),
            regx < 16,
        ensures
            final(self).wf(),
            final(self).same_clock(old(self)),
            final(self)@ == shl_spec(old(self)@, regx as int),
    {
        let vx = self.registers.gen_regs[regx];
        self.set_flag_reg_and_advance(regx, ((vx as u16 * 2) % 256) as u8, vx >= 128);
    }

    fn logic_result(&mut self, regx: usize, val: u8)
        requires
            old(self).wf(),
            regx < 16,
        ensures
            final(self).wf(),
            final(self).same_clock(old(self)),
            final(self)@ == logic_spec(old(self)@, regx as int, val),
    {
        self.registers.gen_regs[regx] = val;
        if self.logic_clears_vf {
            self.registers.gen_regs[VF] = 0;
        }
        self.inc_pc();
    }

    /// `8xy1`: `Vx := Vx | Vy`.
    pub fn or(&mut self, regx: usize, regy: usize)
        requires
            old(self).wf(),
            regx < 16,
            regy < 16,
        ensures
            final(self).wf(),
            final(self).same_clock(old(self)),
            final(self)@ == logic_spec(old(self)@, regx as int,
                old(self)@.regs[regx as int] | old(self)@.regs[regy as int]),
    {
        let v = self.registers.gen_regs[regx] | self.registers.gen_regs[regy];
        self.logic_result(regx, v);
    }

    /// `8xy2`: `Vx := Vx & Vy`.
    pub fn and(&mut self, regx: usize, regy: usize)
        requires
            old(self).wf(),
            regx < 16,
            regy < 16,
        ensures
            final(self).wf(),
            final(self).same_clock(old(self)),
            final(self)@ == logic_spec(old(self)@, regx as int,
                old(self)@.regs[regx as int] & old(self)@.regs[regy as int]),
    {
        let v = self.registers.gen_regs[regx] & self.registers.gen_regs[regy];
        self.logic_result(regx, v);
    }

    /// `8xy3`: `Vx := Vx ^ Vy`.
    pub fn xor(&mut self, regx: usize, regy: usize)
        requires
            old(self).wf(),
            regx < 16,
            regy < 16,
        ensures
            final(self).wf(),
            final(self).same_clock(old(self)),
            final(self)@ == logic_spec(old(self)@, regx as int,
                old(self)@.regs[regx as int] ^ old(self)@.regs[regy as int]),
    {
        let v = self.registers.gen_regs[regx] ^ self.registers.gen_regs[regy];
        self.logic_result(regx, v);
    }

    /// `Annn`: `I := val`.
    pub fn ldi(&mut self, val: u16)
        requires
            old(self).wf(),
        ensures
            final(self).wf(),
            final(self).same_clock(old(self)),
            final(self)@ == next(MachineModel { i: val, ..old(self)@ }),
    {
        self.registers.i = val;
        self.inc_pc();
    }

    /// `Cxkk`: `Vx := random & byte`, `random` being a byte drawn by the
    /// caller.
    pub fn rnd(&mut self, regx: usize, byte: u8, random: u8)
        requires
            old(self).wf(),
            regx < 16,
        ensures
            final(self).wf(),
            final(self).same_clock(old(self)),
            final(self)@ == set_reg_next(old(self)@, regx as int, random & byte),
    {
        self.set_reg_and_advance(regx, random & byte);
    }

    /// `Fx07`: `Vx := DT`.
    pub fn ldt(&mut self, regx: usize)
        requires
            old(self).wf(),
            regx < 16,
        ensures
            final(self).wf(),
            final(self).same_clock(old(self)),
            final(self)@ == set_reg_next(old(self)@, regx as int, old(self)@.dt),
    {
        let v = self.registers.dt;
        self.set_reg_and_advance(regx, v);
    }

    /// `Fx15`: `DT := Vx`.
    pub fn sdt(&mut self, regx: usize)
        requires
            old(self).wf(),
            regx < 16,
        ensures
            final(self).wf(),
            final(self).same_clock(old(self)),
            final(self)@ == next(MachineModel { dt: old(self)@.regs[regx as int], ..old(self)@ }),
    {
        self.registers.dt = self.registers.gen_regs[regx];
        self.inc_pc();
    }

    /// `Fx18`: `ST := Vx`.
    pub fn sst(&mut self, regx: usize)
        requires
            old(self).wf(),
            regx < 16,
        ensures
            final(self).wf(),
            final(self).same_clock(old(self)),
            final(self)@ == next(MachineModel { st: old(self)@.regs[regx as int], ..old(self)@ }),
    {
        self.registers.st = self.registers.gen_regs[regx];
        self.inc_pc();
    }

    /// `Fx0A`: starts waiting for a key press for `Vx`; `PC` stays on this
    /// instruction until the key arrives.
    pub fn ldk(&mut self, regx: usize)
        requires
            old(self).wf(),
            regx < 16,
        ensures
            final(self).wf(),
            final(self).same_clock(old(self)),
            final(self)@ == (MachineModel { state: RunState::WaitingForKey(regx as u8), ..old(self)@ }),
    {
        self.state = RunState::WaitingForKey(regx as u8);
    }

    /// `Fx1E`: `I := I + Vx` modulo 65536.
    pub fn addi(&mut self, regx: usize)
        requires
            old(self).wf(),
            regx < 16,
        ensures
            final(self).wf(),
            final(self).same_clock(old(self)),
            final(self)@ == add_i_spec(old(self)@, regx as int),
    {
        self.registers.i = self.registers.i.wrapping_add(self.registers.gen_regs[regx] as u16);
        self.inc_pc();
    }

    /// `Fx29`: `I := 5 * Vx`, the address of the font glyph of digit `Vx`.
    pub fn ld_sprite(&mut self, regx: usize)
        requires
            old(self).wf(),
            regx < 16,
        ensures
            final(self).wf(),
            final(self).same_clock(old(self)),
            final(self)@ == ld_f_spec(old(self)@, regx as int),
    {
        self.registers.i = 5 * self.registers.gen_regs[regx] as u16;
        self.inc_pc();
    }

    /// `Ex9E`: skips the next instruction if the key numbered `Vx` is
    /// pressed.
    pub fn skp(&mut self, regx: usize)
        requires
            old(self).wf(),
            regx < 16,
        ensures
            final(self).wf(),
            final(self).same_clock(old(self)),
            final(self)@ == skip_if(old(self)@, key_pressed(old(self)@, old(self)@.regs[regx as int])),
    {
        let pressed = self.is_pressed(self.registers.gen_regs[regx]);
        self.skip_when(pressed);
    }

    /// `ExA1`: skips the next instruction if the key numbered `Vx` is not
    /// pressed.
    pub fn sknp(&mut self, regx: usize)
        requires
            old(self).wf(),
            regx < 16,
        ensures
            final(self).wf(),
            final(self).same_clock(old(self)),
            final(self)@ == skip_if(old(self)@, !key_pressed(old(self)@, old(self)@.regs[regx as int])),
    {
        let pressed = self.is_pressed(self.registers.gen_regs[regx]);
        self.skip_when(!pressed);
    }

    /// Whether key `k` is pressed; an index past the keypad is not.
    pub fn is_pressed(&self, k: u8) -> (r: bool)
        requires
            self.wf(),
        ensures
            r == key_pressed(self@, k),
    {
        k < 16 && self.keys[k as usize] != 0
    }

    /// `Fx33`: writes the decimal digits of `Vx` to `I`, `I+1`, `I+2`;
    /// an error when that passes the end of memory.
    pub fn ld_bcd(&mut self, regx: usize) -> (r: Result<(), Chip8Error>)
        requires
            old(self).wf(),
            regx < 16,
        ensures
            final(self).wf(),
            final(self).same_clock(old(self)),
            outcome(old(self)@, final(self)@, r, bcd_spec(old(self)@, regx as int)),
    {
        let start = self.registers.i as usize;
        if start + 3 > MEM_SIZE {
            return Err(Chip8Error::OutOfBoundsMemoryAccess);
        }
        let digits = to_digits(self.registers.gen_regs[regx]);
        self.memory.memory.set(start, digits[0]);
        self.memory.memory.set(start + 1, digits[1]);
        self.memory.memory.set(start + 2, digits[2]);
        self.inc_pc();
        Ok(())
    }

    /// `Fx55`: writes `V0..=Vx` to memory from `I` on; an error when that
    /// passes the end of memory.
    pub fn copy_reg_mem(&mut self, limit_reg: usize) -> (r: Result<(), Chip8Error>)
        requires
            old(self).wf(),
            limit_reg < 16,
        ensures
            final(self).wf(),
            final(self).same_clock(old(self)),
            outcome(old(self)@, final(self)@, r, store_regs_spec(old(self)@, limit_reg as int)),
    {
        let start = self.registers.i as usize;
        if start + limit_reg + 1 > MEM_SIZE {
            return Err(Chip8Error::OutOfBoundsMemoryAccess);
        }
        let mut k: usize = 0;
        while k <= limit_reg
            invariant
                start == old(self)@.i,
                start + limit_reg + 1 <= MEM_SIZE,
                limit_reg < 16,
                k <= limit_reg + 1,
                self.wf(),
                self.same_clock(old(self)),
                self@ == (MachineModel { mem: self@.mem, ..old(self)@ }),
                forall|a: int| 0 <= a < MEM_SIZE ==> #[trigger] self@.mem[a] == (
                    if start <= a < start + k { old(self)@.regs[a - start] } else { old(self)@.mem[a] }),
            decreases limit_reg + 1 - k,
        {
            let v = self.registers.gen_regs[k];
            self.memory.memory.set(start + k, v);
            k = k + 1;
        }
        self.inc_pc();
        assert(self@.mem =~= store_regs_spec(old(self)@, limit_reg as int)->Ok_0.mem);
        Ok(())
    }

    /// `Fx65`: reads `V0..=Vx` from memory from `I` on; an error when that
    /// passes the end of memory.
    pub fn read_reg_mem(&mut self, limit_reg: usize) -> (r: Result<(), Chip8Error>)
        requires
            old(self).wf(),
            limit_reg < 16,
        ensures
            final(self).wf(),
            final(self).same_clock(old(self)),
            outcome(old(self)@, final(self)@, r, load_regs_spec(old(self)@, limit_reg as int)),
    {
        let start = self.registers.i as usize;
        if start + limit_reg + 1 > MEM_SIZE {
            return Err(Chip8Error::OutOfBoundsMemoryAccess);
        }
        let mut k: usize = 0;
        while k <= limit_reg
            invariant
                start == old(self)@.i,
                start + limit_reg + 1 <= MEM_SIZE,
                limit_reg < 16,
                k <= limit_reg + 1,
                self.wf(),
                self.same_clock(old(self)),
                self@ == (MachineModel { regs: self@.regs, ..old(self)@ }),
                forall|j: int| 0 <= j < 16 ==> #[trigger] self@.regs[j] == (
                    if j < k { old(self)@.mem[start + j] } else { old(self)@.regs[j] }),
            decreases limit_reg + 1 - k,
        {
            let v = self.memory.memory[start + k];
            self.registers.gen_regs[k] = v;
            k = k + 1;
        }
        self.inc_pc();
        assert(self@.regs =~= load_regs_spec(old(self)@, limit_reg as int)->Ok_0.regs);
        Ok(())
    }

    /// `Dxyn`: XOR-draws the `n`-byte sprite at `I` with its origin at
    /// `(Vx, Vy)`; `VF` tells whether a lit pixel was turned off. An error
    /// when the sprite passes the end of memory.
    pub fn drw(&mut self, regx: usize, regy: usize, sprite_height: u8) -> (r: Result<(), Chip8Error>)
        requires
            old(self).wf(),
            regx < 16,
            regy < 16,
            sprite_height < 16,
        ensures
            final(self).wf(),
            final(self).same_clock(old(self)),
            outcome(old(self)@, final(self)@, r,
                drw_spec(old(self)@, regx as int, regy as int, sprite_height as int)),
    {
        let start = self.registers.i as usize;
        let n = sprite_height as usize;
        if start + n > MEM_SIZE {
            return Err(Chip8Error::OutOfBoundsMemoryAccess);
        }
        let mut sprite: Vec<u8> = Vec::new();
        let mut k: usize = 0;
        while k < n
            invariant
                start + n <= MEM_SIZE,
                self.wf(),
                self@.mem.len() == MEM_SIZE,
                k <= n,
                sprite@ == self@.mem.subrange(start as int, start + k),
            decreases n - k,
        {
            sprite.push(self.memory.memory[start + k]);
            k = k + 1;
        }
        let vx = self.registers.gen_regs[regx];
        let vy = self.registers.gen_regs[regy];
        let collision = draw_sprite(&mut self.screen, &sprite, vx, vy);
        self.do_set_vf(if collision { 1 } else { 0 });
        self.draw = true;
        self.inc_pc();
        proof {
            let m = old(self)@;
            assert forall|p: int| 0 <= p < PIXEL_COUNT implies #[trigger] self@.screen[p] <= 1 by {
                assert(m.screen[p] <= 1);
            }
        }
        Ok(())
    }

    /// Executes a decoded instruction; `random` is the byte that `RND`
    /// masks.
    pub fn execute_op(&mut self, op: Opcode, random: u8) -> (r: Result<(), Chip8Error>)
        requires
            old(self).wf(),
            op_operands_ok(op),
        ensures
            final(self).wf(),
            final(self).same_clock(old(self)),
            outcome(old(self)@, final(self)@, r, exec_op_spec(old(self)@, op, random)),
    {
        match op {
            Opcode::Cls => { self.cls(); Ok(()) },
            Opcode::Ret => self.ret(),
            Opcode::Jp(a) => { self.jp(a); Ok(()) },
            Opcode::Call(a) => self.call(a),
            Opcode::SeByte(x, kk) => { self.seb(x as usize, kk); Ok(()) },
            Opcode::SneByte(x, kk) => { self.sneb(x as usize, kk); Ok(()) },
            Opcode::SeReg(x, y) => { self.se(x as usize, y as usize); Ok(()) },
            Opcode::SneReg(x, y) => { self.sne(x as usize, y as usize); Ok(()) },
            Opcode::LdByte(x, kk) => { self.ldb(x as usize, kk); Ok(()) },
            Opcode::AddByte(x, kk) => { self.addb(x as usize, kk); Ok(()) },
            Opcode::LdReg(x, y) => { self.ld(x as usize, y as usize); Ok(()) },
            Opcode::Or(x, y) => { self.or(x as usize, y as usize); Ok(()) },
            Opcode::And(x, y) => { self.and(x as usize, y as usize); Ok(()) },
            Opcode::Xor(x, y) => { self.xor(x as usize, y as usize); Ok(()) },
            Opcode::Add(x, y) => { self.add(x as usize, y as usize); Ok(()) },
            Opcode::Sub(x, y) => { self.sub(x as usize, y as usize); Ok(()) },
            Opcode::Shr(x) => { self.shr(x as usize); Ok(()) },
            Opcode::Subn(x, y) => { self.subn(x as usize, y as usize); Ok(()) },
            Opcode::Shl(x) => { self.shl(x as usize); Ok(()) },
            Opcode::LdI(a) => { self.ldi(a); Ok(()) },
            Opcode::JpV0(a) => { self.jp_add(a); Ok(()) },
            Opcode::Rnd(x, kk) => { self.rnd(x as usize, kk, random); Ok(()) },
            Opcode::Drw(x, y, n) => self.drw(x as usize, y as usize, n),
            Opcode::Skp(x) => { self.skp(x as usize); Ok(()) },
            Opcode::Sknp(x) => { self.sknp(x as usize); Ok(()) },
            Opcode::LdVxDt(x) => { self.ldt(x as usize); Ok(()) },
            Opcode::LdVxK(x) => { self.ldk(x as usize); Ok(()) },
            Opcode::LdDtVx(x) => { self.sdt(x as usize); Ok(()) },
            Opcode::LdStVx(x) => { self.sst(x as usize); Ok(()) },
            Opcode::AddIVx(x) => { self.addi(x as usize); Ok(()) },
            Opcode::LdFVx(x) => { self.ld_sprite(x as usize); Ok(()) },
            Opcode::LdBVx(x) => self.ld_bcd(x as usize),
            Opcode::StoreRegs(x) => self.copy_reg_mem(x as usize),
            Opcode::LoadRegs(x) => self.read_reg_mem(x as usize),
        }
    }

    /// Decodes and executes the instruction word `opcode`; `random` is the
    /// byte that `RND` masks. A word that is no instruction is an error.
    pub fn execute_instruction_with(&mut self, opcode: u16, random: u8) -> (r: Result<(), Chip8Error>)
        requires
            old(self).wf(),
        ensures
            final(self).wf(),
            final(self).same_clock(old(self)),
            outcome(old(self)@, final(self)@, r, execute_spec(old(self)@, opcode, random)),
    {
        let instruction = Instruction::new(opcode);
        proof {
            lemma_decoded_operands_ok(opcode);
        }
        match instruction.decode() {
            Some(op) => self.execute_op(op, random),
            None => Err(Chip8Error::IllegalInstruction(opcode)),
        }
    }

    /// Decodes and executes the instruction word `opcode`, drawing the byte
    /// that `RND` masks from the thread's random generator.
    pub fn execute_instruction(&mut self, opcode: u16) -> (r: Result<(), Chip8Error>)
        requires
            old(self).wf(),
        ensures
            final(self).wf(),
            final(self).same_clock(old(self)),
            exists|random: u8| outcome(old(self)@, final(self)@, r, execute_spec(old(self)@, opcode, random)),
    {
        let random = random_byte();
        self.execute_instruction_with(opcode, random)
    }

    /// The instruction word at `PC`; an error when `PC + 1` is past the
    /// end of memory.
    pub fn fetch_instruction(&self) -> (r: Result<u16, Chip8Error>)
        requires
            self.wf(),
        ensures
            self@.pc + 1 < MEM_SIZE ==> r == Ok::<u16, Chip8Error>(fetch_spec(self@.mem, self@.pc)),
            self@.pc + 1 >= MEM_SIZE ==> r == Err::<u16, Chip8Error>(Chip8Error::OutOfBoundsMemoryAccess),
    {
        let pc = self.registers.pc as usize;
        if pc + 1 >= MEM_SIZE {
            return Err(Chip8Error::OutOfBoundsMemoryAccess);
        }
        let hi = self.memory.memory[pc] as u16;
        let lo = self.memory.memory[pc + 1] as u16;
        Ok((hi << 8u16) | lo)
    }

    /// One instruction cycle with `random` as the byte that `RND` masks:
    /// nothing while waiting for a key, else fetch and execute.
    pub fn run_cycle_with(&mut self, random: u8) -> (r: Result<(), Chip8Error>)
        requires
            old(self).wf(),
        ensures
            final(self).wf(),
            final(self).same_clock(old(self)),
            outcome(old(self)@, final(self)@, r, cycle_spec(old(self)@, random)),
    {
        proof {
            reveal(cycle_spec);
        }
        if let RunState::WaitingForKey(_) = self.state {
            return Ok(());
        }
        let opcode = self.fetch_instruction()?;
        self.execute_instruction_with(opcode, random)
    }

    /// One instruction cycle, drawing the byte that `RND` masks from the
    /// thread's random generator.
    pub fn run_cycle(&mut self) -> (r: Result<(), Chip8Error>)
        requires
            old(self).wf(),
        ensures
            final(self).wf(),
            final(self).same_clock(old(self)),
            exists|random: u8| outcome(old(self)@, final(self)@, r, cycle_spec(old(self)@, random)),
    {
        let random = random_byte();
        self.run_cycle_with(random)
    }

    /// Lowers both timers by `ticks` periods, stopping at zero.
    pub fn inc_timers(&mut self, ticks: u64)
        requires
            old(self).wf(),
        ensures
            final(self).wf(),
            final(self).same_clock(old(self)),
            final(self)@ == timers_spec(old(self)@, ticks as int),
    {
        self.registers.dt = if self.registers.dt as u64 >= ticks { self.registers.dt - ticks as u8 } else { 0 };
        self.registers.st = if self.registers.st as u64 >= ticks { self.registers.st - ticks as u8 } else { 0 };
    }

    /// Accounts for `elapsed_us` microseconds of real time: lowers the
    /// timers by the timer periods that have passed and returns the number
    /// of instruction cycles that are due. Fractions of a period or cycle
    /// are carried over to the next call.
    pub fn advance_clock(&mut self, elapsed_us: u32) -> (cycles: u64)
        requires
            old(self).wf(),
        ensures
            final(self).wf(),
            final(self)@ == timers_spec(old(self)@, timer_ticks_due(old(self).timer_credit, elapsed_us)),
            final(self).timer_credit == (old(self).timer_credit + elapsed_us * TIMER_HZ) % (MICROS as int),
            final(self).cycle_credit == (old(self).cycle_credit + elapsed_us * CLOCK_HZ) % (MICROS as int),
            cycles == cycles_due(old(self).cycle_credit, elapsed_us),
    {
        let timer_total: u64 = self.timer_credit + elapsed_us as u64 * TIMER_HZ;
        let cycle_total: u64 = self.cycle_credit + elapsed_us as u64 * CLOCK_HZ;
        self.inc_timers(timer_total / MICROS);
        self.timer_credit = timer_total % MICROS;
        self.cycle_credit = cycle_total % MICROS;
        cycle_total / MICROS
    }

    /// One tick of the host loop, `elapsed_us` microseconds after the last:
    /// the timers move on (also while waiting for a key), then the cycles
    /// that are due run one by one, each with a byte from the thread's
    /// random generator for `RND`, stopping at the first error.
    pub fn step(&mut self, elapsed_us: u32) -> (r: Result<(), Chip8Error>)
        requires
            old(self).wf(),
        ensures
            final(self).wf(),
            final(self).timer_credit == (old(self).timer_credit + elapsed_us * TIMER_HZ) % (MICROS as int),
            final(self).cycle_credit == (old(self).cycle_credit + elapsed_us * CLOCK_HZ) % (MICROS as int),
            exists|rnds: Seq<u8>|
                rnds.len() == cycles_due(old(self).cycle_credit, elapsed_us)
                && #[trigger] cycles_spec(
                    timers_spec(old(self)@, timer_ticks_due(old(self).timer_credit, elapsed_us)),
                    cycles_due(old(self).cycle_credit, elapsed_us),
                    rnds,
                ) == (final(self)@, r),
    {
        let cycles = self.advance_clock(elapsed_us);
        let ghost m0 = self@;
        let ghost ticks = timer_ticks_due(old(self).timer_credit, elapsed_us);
        let ghost due = cycles_due(old(self).cycle_credit, elapsed_us);
        assert(m0 == timers_spec(old(self)@, ticks));
        assert(cycles as nat == due);
        let ghost mut rnds: Seq<u8> = Seq::empty();
        let mut k: u64 = 0;
        while k < cycles
            invariant
                k <= cycles,
                self.wf(),
                self.timer_credit == (old(self).timer_credit + elapsed_us * TIMER_HZ) % (MICROS as int),
                self.cycle_credit == (old(self).cycle_credit + elapsed_us * CLOCK_HZ) % (MICROS as int),
                rnds.len() == k,
                ticks == timer_ticks_due(old(self).timer_credit, elapsed_us),
                due == cycles_due(old(self).cycle_credit, elapsed_us),
                m0 == timers_spec(old(self)@, ticks),
                cycles as nat == due,
                cycles_spec(m0, k as nat, rnds) == (self@, Ok::<(), Chip8Error>(())),
            decreases cycles - k,
        {
            let random = random_byte();
            let ghost before = self@;
            let res = self.run_cycle_with(random);
            proof {
                lemma_cycles_step(m0, k as nat, rnds, random, before, self@, res);
                rnds = rnds.push(random);
            }
            if let Err(e) = res {
                proof {
                    lemma_cycles_pad(m0, (k + 1) as nat, cycles as nat, rnds);
                    let pad = rnds + Seq::new((cycles - (k + 1)) as nat, |i: int| 0u8);
                    assert(cycles_spec(timers_spec(old(self)@, ticks), due, pad) == (self@, res));
                }
                return Err(e);
            }
            k = k + 1;
        }
        assert(cycles_spec(timers_spec(old(self)@, ticks), due, rnds) == (self@, Ok::<(), Chip8Error>(())));
        Ok(())
    }

    /// Key `idx` went down: it is marked pressed, and a pending key wait
    /// takes it and moves on to the next instruction.
    pub fn set_key(&mut self, idx: u8)
        requires
            old(self).wf(),
            idx < 16,
        ensures
            final(self).wf(),
            final(self).same_clock(old(self)),
            final(self)@ == key_down_spec(old(self)@, idx),
    {
        self.keys[idx as usize] = 1;
        if let RunState::WaitingForKey(x) = self.state {
            self.registers.gen_regs[x as usize] = idx;
            self.state = RunState::Running;
            self.inc_pc();
        }
    }

    /// Key `idx` went up.
    pub fn unset_key(&mut self, idx: u8)
        requires
            old(self).wf(),
            idx < 16,
        ensures
            final(self).wf(),
            final(self).same_clock(old(self)),
            final(self)@ == (MachineModel { keys: old(self)@.keys.update(idx as int, 0u8), ..old(self)@ }),
    {
        self.keys[idx as usize] = 0;
    }

    /// Whether the sound timer is running.
    pub fn is_beeping(&self) -> (r: bool)
        ensures
            r <==> self@.st > 0,
    {
        self.registers.st > 0
    }

    /// Loads `program` at the program start; a program longer than the
    /// program region is refused and the machine is left as it was.
    pub fn load_program(&mut self, program: &Vec<u8>) -> (r: Result<(), ProgramTooLarge>)
        requires
            old(self).wf(),
        ensures
            final(self).wf(),
            final(self).same_clock(old(self)),
            r is Ok <==> program@.len() <= PROGRAM_END - PROGRAM_START,
            r is Ok ==> final(self)@ == (MachineModel { mem: loaded(old(self)@.mem, program@), ..old(self)@ }),
            r is Err ==> final(self)@ == old(self)@,
    {
        self.memory.load_program(program)
    }

    /// Pushes `address` onto the call stack; a full stack is an error.
    pub fn push_stack(&mut self, address: u16) -> (r: Result<(), Chip8Error>)
        requires
            old(self).wf(),
        ensures
            final(self).wf(),
            final(self).same_clock(old(self)),
            r is Ok <==> old(self)@.stack.len() < STACK_DEPTH,
            r is Ok ==> final(self)@ == (MachineModel { stack: old(self)@.stack.push(address), ..old(self)@ }),
            r is Err ==> r == Err::<(), Chip8Error>(Chip8Error::StackOverflow) && final(self)@ == old(self)@,
    {
        match self.memory.stack.push(address) {
            Ok(()) => Ok(()),
            Err(_) => Err(Chip8Error::StackOverflow),
        }
    }

    /// Pops the top of the call stack; an empty stack is an error.
    pub fn pop_stack(&mut self) -> (r: Result<u16, Chip8Error>)
        requires
            old(self).wf(),
        ensures
            final(self).wf(),
            final(self).same_clock(old(self)),
            r is Ok <==> old(self)@.stack.len() > 0,
            r is Ok ==> r == Ok::<u16, Chip8Error>(old(self)@.stack.last())
                && final(self)@ == (MachineModel { stack: old(self)@.stack.drop_last(), ..old(self)@ }),
            r is Err ==> r == Err::<u16, Chip8Error>(Chip8Error::StackUnderflow) && final(self)@ == old(self)@,
    {
        match self.memory.stack.pop() {
            Some(a) => Ok(a),
            None => Err(Chip8Error::StackUnderflow),
        }
    }
}

} // verus!
