//! Properties that relate several instructions or several executions.
use vstd::prelude::*;

use crate::hardware::semantics::{
    add_byte_spec, call_spec, cycle_spec, drw_spec, flip, key_down_spec, next, ret_spec,
    Chip8Error, MachineModel, RunState, VF,
};
use crate::hardware::STACK_DEPTH;

verus! {

/// Adding `k1` and then `k2` to `Vx` leaves `(Vx + k1 + k2) mod 256` in
/// `Vx`, however far the sums pass 255, and touches no other register:
/// in particular `VF` keeps its value.
pub proof fn lemma_add_byte_twice(m: MachineModel, x: int, k1: u8, k2: u8)
    requires
        m.wf(),
        0 <= x < 16,
    ensures
        ({
            let m2 = add_byte_spec(add_byte_spec(m, x, k1), x, k2);
            &&& m2.regs[x] == (m.regs[x] + k1 + k2) % 256
            &&& forall|k: int| 0 <= k < 16 && k != x ==> m2.regs[k] == m.regs[k]
            &&& (x != VF ==> m2.regs[VF as int] == m.regs[VF as int])
        }),
{
    let m1 = add_byte_spec(m, x, k1);
    let v = m.regs[x] as int;
    assert(m1.regs[x] == (v + k1) % 256);
    assert(((v + k1) % 256 + k2) % 256 == (v + k1 + k2) % 256) by {
        vstd::arithmetic::div_mod::lemma_add_mod_noop(v + k1, k2 as int, 256);
        vstd::arithmetic::div_mod::lemma_mod_twice(k2 as int, 256);
        vstd::arithmetic::div_mod::lemma_small_mod(k2 as nat, 256);
    }
}

/// `CALL` followed by `RET` comes back to the instruction right after the
/// `CALL`, with the call stack as it was.
pub proof fn lemma_call_then_ret(m: MachineModel, a: u16)
    requires
        m.wf(),
        m.stack.len() < STACK_DEPTH,
    ensures
        call_spec(m, a) is Ok,
        ret_spec(call_spec(m, a)->Ok_0) == Ok::<MachineModel, Chip8Error>(next(m)),
{
    let m1 = call_spec(m, a)->Ok_0;
    assert(m1.stack.drop_last() =~= m.stack);
}

/// A `CALL` with a full call stack fails with a stack overflow.
pub proof fn lemma_call_on_full_stack(m: MachineModel, a: u16)
    requires
        m.wf(),
        m.stack.len() == STACK_DEPTH,
    ensures
        call_spec(m, a) == Err::<MachineModel, Chip8Error>(Chip8Error::StackOverflow),
{
}

/// Drawing the same sprite twice at the same place leaves the framebuffer
/// as it was. The coordinates must not be read from `VF`, which the first
/// draw overwrites.
pub proof fn lemma_draw_twice(m: MachineModel, x: int, y: int, n: int)
    requires
        m.wf(),
        0 <= x < 16,
        0 <= y < 16,
        x != VF,
        y != VF,
        0 <= n < 16,
        m.i + n <= m.mem.len(),
    ensures
        drw_spec(m, x, y, n) is Ok,
        drw_spec(drw_spec(m, x, y, n)->Ok_0, x, y, n) is Ok,
        drw_spec(drw_spec(m, x, y, n)->Ok_0, x, y, n)->Ok_0.screen == m.screen,
{
    let m1 = drw_spec(m, x, y, n)->Ok_0;
    let m2 = drw_spec(m1, x, y, n)->Ok_0;
    assert(m1.regs[x] == m.regs[x]);
    assert(m1.regs[y] == m.regs[y]);
    assert forall|p: int| 0 <= p < m.screen.len() implies #[trigger] m2.screen[p] == m.screen[p] by {
        assert(m.screen[p] <= 1);
        assert(flip(flip(m.screen[p])) == m.screen[p]);
    }
    assert(m2.screen =~= m.screen);
}

/// While waiting for a key, a cycle changes nothing; a key press then
/// stores the key in the waiting register, resumes running and moves on
/// to the next instruction.
pub proof fn lemma_key_wait(m: MachineModel, x: u8, k: u8, rnd: u8)
    requires
        m.wf(),
        m.state == RunState::WaitingForKey(x),
        k < 16,
    ensures
        cycle_spec(m, rnd) == Ok::<MachineModel, Chip8Error>(m),
        key_down_spec(m, k).regs[x as int] == k,
        key_down_spec(m, k).state == RunState::Running,
        key_down_spec(m, k).pc == next(m).pc,
        key_down_spec(m, k).keys[k as int] != 0,
{
    reveal(cycle_spec);
}

} // verus!
