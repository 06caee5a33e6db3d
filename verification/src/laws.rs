//! Laws of the machine, stated and proved over the transition function
//! and the instruction semantics.

use vstd::prelude::*;
use crate::cpu::{CpuView, Fault, Mode, StepOutcome};
use crate::draw::{draw_collision, draw_graphics, draw_toggles};
use crate::isa::{alu_result, decode_spec, AluOp, Instr};
use crate::step::{
    any_key_pressed, fetch, first_pressed, first_pressed_from, step_spec, wrap_add16,
};

verus! {

/// For all 8-bit values `a`, `b`: add-with-carry stores `(a + b) mod 256`
/// and sets the flag register to 1 exactly when `a + b` exceeds 255, to 0
/// otherwise.
pub proof fn lemma_add_with_carry(a: u8, b: u8, shift_quirk: bool)
    ensures
        alu_result(AluOp::AddCarry, a, b, shift_quirk).0 == (a + b) % 256,
        alu_result(AluOp::AddCarry, a, b, shift_quirk).1 == Some(
            if a + b > 255 {
                1u8
            } else {
                0u8
            },
        ),
{
}

/// For all 8-bit values `a`, `b`: subtract-with-borrow stores
/// `(a - b) mod 256` and sets the flag register to 1 exactly when
/// `a >= b` (no borrow occurred), to 0 otherwise.
pub proof fn lemma_sub_with_borrow(a: u8, b: u8, shift_quirk: bool)
    ensures
        alu_result(AluOp::SubBorrow, a, b, shift_quirk).0 == (a - b + 256) % 256,
        alu_result(AluOp::SubBorrow, a, b, shift_quirk).1 == Some(
            if a >= b {
                1u8
            } else {
                0u8
            },
        ),
{
}

/// Drawing the same sprite at the same location twice restores the
/// display to its prior state (XOR is self-inverse), and the second draw
/// reports a collision exactly when the first draw turned some
/// previously-clear cell on.
pub proof fn lemma_draw_twice(g: Seq<u8>, mem: Seq<u8>, i: u16, vx: u8, vy: u8, n: u8)
    requires
        g.len() == 2048,
        forall|k: int| 0 <= k < 2048 ==> g[k] <= 1,
    ensures
        draw_graphics(draw_graphics(g, mem, i, vx, vy, n), mem, i, vx, vy, n) == g,
        draw_collision(draw_graphics(g, mem, i, vx, vy, n), mem, i, vx, vy, n) == (exists|k: int|
            0 <= k < 2048 && #[trigger] draw_toggles(mem, i, vx, vy, n, k) && g[k] == 0),
{
    let g1 = draw_graphics(g, mem, i, vx, vy, n);
    assert(draw_graphics(g1, mem, i, vx, vy, n) =~= g);
    if draw_collision(g1, mem, i, vx, vy, n) {
        let k0 = choose|k: int|
            0 <= k < 2048 && #[trigger] draw_toggles(mem, i, vx, vy, n, k) && g1[k] == 1;
        assert(g[k0] == 0);
    }
    if exists|k: int| 0 <= k < 2048 && #[trigger] draw_toggles(mem, i, vx, vy, n, k) && g[k] == 0 {
        let k0 = choose|k: int|
            0 <= k < 2048 && #[trigger] draw_toggles(mem, i, vx, vy, n, k) && g[k] == 0;
        assert(g1[k0] == 1);
        assert(draw_collision(g1, mem, i, vx, vy, n));
    }
}

/// Calling a subroutine and immediately returning restores the program
/// counter to just past the call; registers, stack depth and memory are
/// as before.
pub proof fn lemma_call_then_return(pre: CpuView, nnn: u16, rand1: u8, rand2: u8)
    requires
        pre.wf(),
        pre.mode == Mode::Running,
        pre.pc < 4095,
        pre.sp < 16,
        decode_spec(fetch(pre.memory, pre.pc)) == Instr::Call(nnn),
        nnn < 4095,
        decode_spec(fetch(pre.memory, nnn)) == Instr::Return,
    ensures
        step_spec(pre, rand1).1 == Ok::<StepOutcome, Fault>(StepOutcome::Executed),
        step_spec(step_spec(pre, rand1).0, rand2).1 == Ok::<StepOutcome, Fault>(
            StepOutcome::Executed,
        ),
        step_spec(step_spec(pre, rand1).0, rand2).0.pc == pre.pc + 2,
        step_spec(step_spec(pre, rand1).0, rand2).0.registers == pre.registers,
        step_spec(step_spec(pre, rand1).0, rand2).0.sp == pre.sp,
        step_spec(step_spec(pre, rand1).0, rand2).0.memory == pre.memory,
        step_spec(step_spec(pre, rand1).0, rand2).0.mode == Mode::Running,
{
    let op1 = fetch(pre.memory, pre.pc);
    let s1 = step_spec(pre, rand1).0;
    assert(s1 == (CpuView {
        stack: pre.stack.update(pre.sp as int, (pre.pc + 2) as u16),
        sp: (pre.sp + 1) as u8,
        pc: nnn,
        opcode: op1,
        ..pre
    }));
    let s2 = step_spec(s1, rand2).0;
    assert(s2.pc == s1.stack[s1.sp - 1]);
    assert(s1.stack[pre.sp as int] == (pre.pc + 2) as u16);
}

/// With the stack full (all sixteen slots holding return addresses), a
/// further call faults with a stack overflow and leaves the machine
/// unchanged; with the stack empty, a return faults with a stack
/// underflow and leaves the machine unchanged.
pub proof fn lemma_stack_faults(pre: CpuView, rand: u8)
    requires
        pre.mode == Mode::Running,
        pre.pc < 4095,
    ensures
        (decode_spec(fetch(pre.memory, pre.pc)) matches Instr::Call(_)) && pre.sp >= 16
            ==> step_spec(pre, rand) == (pre, Err::<StepOutcome, Fault>(Fault::StackOverflow)),
        decode_spec(fetch(pre.memory, pre.pc)) == Instr::Return && pre.sp == 0 ==> step_spec(
            pre,
            rand,
        ) == (pre, Err::<StepOutcome, Fault>(Fault::StackUnderflow)),
{
}

/// Helper facts about the lowest-pressed-key scan, by induction on the
/// scan position.
proof fn lemma_first_pressed_from_props(keys: Seq<bool>, k: int)
    requires
        keys.len() == 16,
        0 <= k <= 16,
    ensures
        k <= first_pressed_from(keys, k) <= 16,
        (first_pressed_from(keys, k) < 16) == (exists|j: int| k <= j < 16 && keys[j]),
        first_pressed_from(keys, k) < 16 ==> keys[first_pressed_from(keys, k)],
        forall|j: int| k <= j < first_pressed_from(keys, k) ==> !keys[j],
    decreases 16 - k,
{
    if k < 16 && !keys[k] {
        lemma_first_pressed_from_props(keys, k + 1);
        if exists|j: int| k <= j < 16 && keys[j] {
            let j0 = choose|j: int| k <= j < 16 && keys[j];
            assert(k + 1 <= j0 < 16 && keys[j0]);
        }
    }
}

/// The lowest pressed key exists exactly when any key is pressed; it is
/// pressed and nothing below it is.
pub proof fn lemma_first_pressed(keys: Seq<bool>)
    requires
        keys.len() == 16,
    ensures
        (first_pressed(keys) < 16) == any_key_pressed(keys),
        0 <= first_pressed(keys) <= 16,
        first_pressed(keys) < 16 ==> keys[first_pressed(keys)],
        forall|j: int| 0 <= j < first_pressed(keys) ==> !keys[j],
{
    lemma_first_pressed_from_props(keys, 0);
}

/// While the machine awaits a key and none is pressed, a step changes
/// nothing, however often it is repeated.
pub proof fn lemma_wait_key_blocked(pre: CpuView, rand: u8)
    requires
        pre.mode matches Mode::AwaitingKey(_),
        !any_key_pressed(pre.keys),
    ensures
        step_spec(pre, rand) == (pre, Ok::<StepOutcome, Fault>(StepOutcome::AwaitingKey)),
{
}

/// A wait-for-key reached while no key is pressed parks the machine: the
/// program counter stays on the wait instruction and only the latched
/// opcode and the mode change.
pub proof fn lemma_wait_key_enter(pre: CpuView, x: u8, rand: u8)
    requires
        pre.mode == Mode::Running,
        pre.pc < 4095,
        decode_spec(fetch(pre.memory, pre.pc)) == (Instr::WaitKey { x }),
        !any_key_pressed(pre.keys),
    ensures
        step_spec(pre, rand).0 == (CpuView {
            opcode: fetch(pre.memory, pre.pc),
            mode: Mode::AwaitingKey(x),
            ..pre
        }),
        step_spec(pre, rand).1 == Ok::<StepOutcome, Fault>(StepOutcome::AwaitingKey),
{
}

/// The instant a key is pressed, the next step of a waiting machine
/// stores the lowest pressed key's index in the target register, advances
/// the program counter past the wait instruction, and resumes running.
pub proof fn lemma_wait_key_resume(pre: CpuView, x: u8, rand: u8)
    requires
        pre.wf(),
        pre.mode == Mode::AwaitingKey(x),
        any_key_pressed(pre.keys),
    ensures
        step_spec(pre, rand).0 == (CpuView {
            registers: pre.registers.update(x as int, first_pressed(pre.keys) as u8),
            pc: wrap_add16(pre.pc, 2),
            mode: Mode::Running,
            ..pre
        }),
        step_spec(pre, rand).1 == Ok::<StepOutcome, Fault>(StepOutcome::Executed),
        0 <= first_pressed(pre.keys) < 16,
        pre.keys[first_pressed(pre.keys)],
        forall|j: int| 0 <= j < first_pressed(pre.keys) ==> !pre.keys[j],
{
    lemma_first_pressed(pre.keys);
}

/// Whether the next step would consult the random source: only the
/// random-and instruction does.
pub open spec fn uses_random(pre: CpuView) -> bool {
    pre.mode == Mode::Running && pre.pc < 4095 && (decode_spec(
        fetch(pre.memory, pre.pc),
    ) matches Instr::RandomAnd { .. })
}

/// Every step but a random-and instruction moves the machine the same way
/// whatever byte the random source supplies.
pub proof fn lemma_step_rand_independent(pre: CpuView, b1: u8, b2: u8)
    requires
        !uses_random(pre),
    ensures
        step_spec(pre, b1) == step_spec(pre, b2),
{
}

} // verus!
