//! The fetch-decode-execute cycle.
//!
//! [`step_spec`] is the mathematical transition function of the machine:
//! one step takes the state and the byte that the random-number source
//! would hand the random-and instruction, and yields the next state
//! together with the step's result. The executable engine is proved to
//! follow it exactly.

use vstd::prelude::*;
use crate::cpu::{CPU, CpuView, Fault, Mode, StepOutcome};
use crate::draw::{draw_collision, draw_graphics, draw_sprite};
use crate::isa::{alu, alu_result, decode, decode_spec, Instr};

verus! {

/// The 16-bit instruction word at `pc`: high byte first.
pub open spec fn fetch(mem: Seq<u8>, pc: u16) -> u16 {
    (mem[pc as int] * 256 + mem[pc as int + 1]) as u16
}

/// Addition on the 16-bit index register wraps around.
pub open spec fn wrap_add16(a: u16, b: u16) -> u16 {
    if a + b > 0xFFFF {
        (a + b - 0x10000) as u16
    } else {
        (a + b) as u16
    }
}

/// Whether any of the sixteen keys is pressed.
pub open spec fn any_key_pressed(keys: Seq<bool>) -> bool {
    exists|k: int| 0 <= k < 16 && keys[k]
}

/// The lowest pressed key index at or above `k`, or 16 if none.
pub open spec fn first_pressed_from(keys: Seq<bool>, k: int) -> int
    decreases 16 - k,
{
    if k < 0 || k >= 16 {
        16
    } else if keys[k] {
        k
    } else {
        first_pressed_from(keys, k + 1)
    }
}

/// The lowest pressed key index, or 16 if no key is pressed.
pub open spec fn first_pressed(keys: Seq<bool>) -> int {
    first_pressed_from(keys, 0)
}

/// Memory address `I + k`, wrapping modulo the memory size.
pub open spec fn dump_addr(i: u16, k: int) -> int {
    (i + k) % 4096
}

/// Memory after the register-dump instruction wrote `V0..=Vk` to the
/// addresses `I..=I+k` in order.
pub open spec fn mem_after_dump(mem: Seq<u8>, regs: Seq<u8>, i: u16, k: int) -> Seq<u8>
    decreases k + 1,
{
    if k < 0 {
        mem
    } else {
        mem_after_dump(mem, regs, i, k - 1).update(dump_addr(i, k), regs[k])
    }
}

/// Registers after the register-load instruction read `V0..=Vx` from the
/// addresses `I..=I+x`.
pub open spec fn regs_after_load(regs: Seq<u8>, mem: Seq<u8>, i: u16, x: int) -> Seq<u8> {
    Seq::new(16, |j: int| if j <= x { mem[dump_addr(i, j)] } else { regs[j] })
}

/// Memory after the store-BCD instruction wrote the hundreds, tens and
/// units digits of `v` to `I`, `I+1`, `I+2`.
pub open spec fn bcd_memory(mem: Seq<u8>, i: u16, v: u8) -> Seq<u8> {
    mem.update(dump_addr(i, 0), (v as int / 100) as u8).update(
        dump_addr(i, 1),
        ((v as int / 10) % 10) as u8,
    ).update(dump_addr(i, 2), (v as int % 10) as u8)
}

/// The state right after a fetch: the word is latched and the program
/// counter has taken its base advance of 2.
pub open spec fn advanced(pre: CpuView, op: u16) -> CpuView {
    CpuView { opcode: op, pc: (pre.pc + 2) as u16, ..pre }
}

/// One further conditional advance of 2: a taken skip.
pub open spec fn skipped(s: CpuView) -> CpuView {
    CpuView { pc: (s.pc + 2) as u16, ..s }
}

/// Effect of one non-faulting instruction on the post-fetch state `s`.
/// The stack guards for call and return, and the blocking branch of
/// wait-for-key, are handled by [`step_spec`] before this applies.
/// Memory addresses derived from the index register wrap modulo the
/// memory size, and a key number read from a register is its low nibble:
/// only sixteen keys exist.
pub open spec fn apply_instr(s: CpuView, i: Instr, rand: u8) -> (CpuView, StepOutcome) {
    match i {
        Instr::ClearScreen => (
            (CpuView { graphics: Seq::new(2048, |j: int| 0u8), ..s }),
            StepOutcome::Executed,
        ),
        Instr::Return => (
            (CpuView { pc: s.stack[s.sp - 1], sp: (s.sp - 1) as u8, ..s }),
            StepOutcome::Executed,
        ),
        Instr::Jump(nnn) => ((CpuView { pc: nnn, ..s }), StepOutcome::Executed),
        Instr::Call(nnn) => (
            (CpuView {
                stack: s.stack.update(s.sp as int, s.pc),
                sp: (s.sp + 1) as u8,
                pc: nnn,
                ..s
            }),
            StepOutcome::Executed,
        ),
        Instr::SkipEqImm { x, nn } => (
            (if s.registers[x as int] == nn {
                skipped(s)
            } else {
                s
            }),
            StepOutcome::Executed,
        ),
        Instr::SkipNeImm { x, nn } => (
            (if s.registers[x as int] != nn {
                skipped(s)
            } else {
                s
            }),
            StepOutcome::Executed,
        ),
        Instr::SkipEqReg { x, y } => (
            (if s.registers[x as int] == s.registers[y as int] {
                skipped(s)
            } else {
                s
            }),
            StepOutcome::Executed,
        ),
        Instr::SkipNeReg { x, y } => (
            (if s.registers[x as int] != s.registers[y as int] {
                skipped(s)
            } else {
                s
            }),
            StepOutcome::Executed,
        ),
        Instr::LoadImm { x, nn } => (
            (CpuView { registers: s.registers.update(x as int, nn), ..s }),
            StepOutcome::Executed,
        ),
        Instr::AddImm { x, nn } => (
            (CpuView {
                registers: s.registers.update(
                    x as int,
                    ((s.registers[x as int] + nn) % 256) as u8,
                ),
                ..s
            }),
            StepOutcome::Executed,
        ),
        Instr::Alu { x, y, op } => {
            let vx = s.registers[x as int];
            let vy = s.registers[y as int];
            let regs = match alu_result(op, vx, vy, s.shift_quirk) {
                (v, Some(f)) => s.registers.update(x as int, v).update(15, f),
                (v, None) => s.registers.update(x as int, v),
            };
            ((CpuView { registers: regs, ..s }), StepOutcome::Executed)
        },
        Instr::SetIndex(nnn) => ((CpuView { index: nnn, ..s }), StepOutcome::Executed),
        Instr::JumpOffset(nnn) => (
            (CpuView { pc: (nnn + s.registers[0]) as u16, ..s }),
            StepOutcome::Executed,
        ),
        Instr::RandomAnd { x, nn } => (
            (CpuView { registers: s.registers.update(x as int, rand & nn), ..s }),
            StepOutcome::Executed,
        ),
        Instr::Draw { x, y, n } => {
            let vx = s.registers[x as int];
            let vy = s.registers[y as int];
            let hit = draw_collision(s.graphics, s.memory, s.index, vx, vy, n);
            (
                (CpuView {
                    graphics: draw_graphics(s.graphics, s.memory, s.index, vx, vy, n),
                    registers: s.registers.update(15, if hit { 1u8 } else { 0u8 }),
                    ..s
                }),
                StepOutcome::Executed,
            )
        },
        Instr::SkipKeyPressed { x } => (
            (if s.keys[s.registers[x as int] as int % 16] {
                skipped(s)
            } else {
                s
            }),
            StepOutcome::Executed,
        ),
        Instr::SkipKeyNotPressed { x } => (
            (if !s.keys[s.registers[x as int] as int % 16] {
                skipped(s)
            } else {
                s
            }),
            StepOutcome::Executed,
        ),
        Instr::ReadDelay { x } => (
            (CpuView { registers: s.registers.update(x as int, s.delay_timer), ..s }),
            StepOutcome::Executed,
        ),
        Instr::WaitKey { x } => (
            (CpuView {
                registers: s.registers.update(x as int, first_pressed(s.keys) as u8),
                ..s
            }),
            StepOutcome::Executed,
        ),
        Instr::SetDelay { x } => (
            (CpuView { delay_timer: s.registers[x as int], ..s }),
            StepOutcome::Executed,
        ),
        Instr::SetSound { x } => (
            (CpuView { sound_timer: s.registers[x as int], ..s }),
            StepOutcome::Executed,
        ),
        Instr::AddIndex { x } => (
            (CpuView { index: wrap_add16(s.index, s.registers[x as int] as u16), ..s }),
            StepOutcome::Executed,
        ),
        Instr::GlyphIndex { x } => (
            (CpuView { index: (s.registers[x as int] * 5) as u16, ..s }),
            StepOutcome::Executed,
        ),
        Instr::StoreBcd { x } => (
            (CpuView { memory: bcd_memory(s.memory, s.index, s.registers[x as int]), ..s }),
            StepOutcome::Executed,
        ),
        Instr::RegDump { x } => (
            (CpuView { memory: mem_after_dump(s.memory, s.registers, s.index, x as int), ..s }),
            StepOutcome::Executed,
        ),
        Instr::RegLoad { x } => (
            (CpuView {
                registers: regs_after_load(s.registers, s.memory, s.index, x as int),
                ..s
            }),
            StepOutcome::Executed,
        ),
        Instr::Unknown => (s, StepOutcome::UnknownOpcode),
    }
}

/// The transition function of the machine: one step from `pre`, where
/// `rand` is the byte the random source would supply.
///
/// While awaiting a key, nothing changes until a key is pressed; then the
/// lowest pressed key's index is stored and the program counter moves past
/// the wait instruction. While running, a step fetches the word at `pc`
/// (a fault if a whole word cannot be read), advances `pc` by 2, and
/// executes: call with a full stack and return with an empty one fault
/// without changing the state, and wait-for-key with no key pressed parks
/// the machine on the instruction instead of advancing.
pub open spec fn step_spec(pre: CpuView, rand: u8) -> (CpuView, Result<StepOutcome, Fault>) {
    match pre.mode {
        Mode::AwaitingKey(x) => {
            if any_key_pressed(pre.keys) {
                (
                    (CpuView {
                        registers: pre.registers.update(x as int, first_pressed(pre.keys) as u8),
                        pc: wrap_add16(pre.pc, 2),
                        mode: Mode::Running,
                        ..pre
                    }),
                    Ok(StepOutcome::Executed),
                )
            } else {
                (pre, Ok(StepOutcome::AwaitingKey))
            }
        },
        Mode::Running => {
            if pre.pc >= 4095 {
                (pre, Err(Fault::PcOutOfBounds))
            } else {
                let op = fetch(pre.memory, pre.pc);
                match decode_spec(op) {
                    Instr::Call(nnn) => {
                        if pre.sp >= 16 {
                            (pre, Err(Fault::StackOverflow))
                        } else {
                            let (post, out) = apply_instr(
                                advanced(pre, op),
                                decode_spec(op),
                                rand,
                            );
                            (post, Ok(out))
                        }
                    },
                    Instr::Return => {
                        if pre.sp == 0 {
                            (pre, Err(Fault::StackUnderflow))
                        } else {
                            let (post, out) = apply_instr(
                                advanced(pre, op),
                                decode_spec(op),
                                rand,
                            );
                            (post, Ok(out))
                        }
                    },
                    Instr::WaitKey { x } => {
                        if !any_key_pressed(pre.keys) {
                            (
                                (CpuView { opcode: op, mode: Mode::AwaitingKey(x), ..pre }),
                                Ok(StepOutcome::AwaitingKey),
                            )
                        } else {
                            let (post, out) = apply_instr(
                                advanced(pre, op),
                                decode_spec(op),
                                rand,
                            );
                            (post, Ok(out))
                        }
                    },
                    _ => {
                        let (post, out) = apply_instr(advanced(pre, op), decode_spec(op), rand);
                        (post, Ok(out))
                    },
                }
            }
        },
    }
}

/// Zero every display cell.
fn clear_graphics(g: &mut Vec<u8>)
    requires
        old(g)@.len() == 2048,
    ensures
        final(g)@ == Seq::new(2048, |j: int| 0u8),
{
    let mut i: usize = 0;
    while i < 2048
        invariant
            g@.len() == 2048,
            i <= 2048,
            forall|j: int| 0 <= j < i ==> g@[j] == 0,
        decreases 2048 - i,
    {
        g.set(i, 0);
        i = i + 1;
    }
    proof {
        assert(g@ =~= Seq::new(2048, |j: int| 0u8));
    }
}

/// Write `V0..=Vx` to memory at `I..`, wrapping addresses.
fn reg_dump(mem: &mut Vec<u8>, regs: &Vec<u8>, i: u16, x: u8)
    requires
        old(mem)@.len() == 4096,
        regs@.len() == 16,
        x < 16,
    ensures
        final(mem)@ == mem_after_dump(old(mem)@, regs@, i, x as int),
        final(mem)@.len() == 4096,
{
    let ghost m0 = mem@;
    let mut k: usize = 0;
    while k <= x as usize
        invariant
            mem@.len() == 4096,
            regs@.len() == 16,
            x < 16,
            k <= x as usize + 1,
            mem@ == mem_after_dump(m0, regs@, i, k as int - 1),
        decreases x as usize + 1 - k,
    {
        mem.set(((i as usize) + k) % 4096, regs[k]);
        proof {
            assert(mem@ == mem_after_dump(m0, regs@, i, k as int));
        }
        k = k + 1;
    }
}

/// Read `V0..=Vx` from memory at `I..`, wrapping addresses.
fn reg_load(regs: &mut Vec<u8>, mem: &Vec<u8>, i: u16, x: u8)
    requires
        old(regs)@.len() == 16,
        mem@.len() == 4096,
        x < 16,
    ensures
        final(regs)@ == regs_after_load(old(regs)@, mem@, i, x as int),
{
    let ghost r0 = regs@;
    let mut k: usize = 0;
    while k <= x as usize
        invariant
            regs@.len() == 16,
            mem@.len() == 4096,
            x < 16,
            k <= x as usize + 1,
            forall|j: int| 0 <= j < k ==> regs@[j] == mem@[dump_addr(i, j)],
            forall|j: int| k <= j < 16 ==> regs@[j] == r0[j],
        decreases x as usize + 1 - k,
    {
        regs.set(k, mem[((i as usize) + k) % 4096]);
        k = k + 1;
    }
    proof {
        assert(regs@ =~= regs_after_load(r0, mem@, i, x as int));
    }
}

/// Find the lowest pressed key, if any.
fn scan_keys(keys: &Vec<bool>) -> (r: Option<u8>)
    requires
        keys@.len() == 16,
    ensures
        match r {
            Some(k) => k < 16 && keys@[k as int] && any_key_pressed(keys@) && k as int
                == first_pressed(keys@),
            None => !any_key_pressed(keys@),
        },
{
    let mut k: u8 = 0;
    while k < 16
        invariant
            keys@.len() == 16,
            k <= 16,
            forall|j: int| 0 <= j < k ==> !keys@[j],
            first_pressed(keys@) == first_pressed_from(keys@, k as int),
        decreases 16 - k,
    {
        if keys[k as usize] {
            proof {
                assert(first_pressed_from(keys@, k as int) == k as int);
                assert(any_key_pressed(keys@));
            }
            return Some(k);
        }
        k = k + 1;
        proof {
            assert(first_pressed_from(keys@, k as int - 1) == first_pressed_from(
                keys@,
                k as int,
            ));
        }
    }
    proof {
        assert(first_pressed_from(keys@, 16) == 16);
        assert(!any_key_pressed(keys@));
    }
    None
}

/// Relies on rand::random: one byte drawn uniformly in 0..=255 from the
/// thread-local generator. Nothing is assumed about the value; every
/// caller is verified for every possible byte.
#[verifier::external_body]
fn random_byte() -> u8 {
    rand::random::<u8>()
}

impl CPU {
    /// One fetch-decode-execute step, with the byte for the random-and
    /// instruction supplied by the caller. The machine moves exactly as
    /// [`step_spec`] says.
    pub fn step_with(&mut self, rand_byte: u8) -> (r: Result<StepOutcome, Fault>)
        requires
            old(self)@.wf(),
        ensures
            final(self)@ == step_spec(old(self)@, rand_byte).0,
            r == step_spec(old(self)@, rand_byte).1,
            final(self)@.wf(),
    {
        let ghost pre = self@;
        match self.mode {
            Mode::AwaitingKey(x) => {
                match scan_keys(&self.keys) {
                    Some(k) => {
                        self.registers.set(x as usize, k);
                        self.pc = self.pc.wrapping_add(2);
                        self.mode = Mode::Running;
                        proof {
                            assert(self@ =~= step_spec(pre, rand_byte).0);
                        }
                        Ok(StepOutcome::Executed)
                    },
                    None => Ok(StepOutcome::AwaitingKey),
                }
            },
            Mode::Running => {
                if self.pc >= 4095 {
                    return Err(Fault::PcOutOfBounds);
                }
                let hi = self.memory[self.pc as usize];
                let lo = self.memory[(self.pc as usize) + 1];
                let op: u16 = (hi as u16) * 256 + (lo as u16);
                proof {
                    assert(op == fetch(pre.memory, pre.pc));
                }
                let instr = decode(op);
                match instr {
                    Instr::ClearScreen => {
                        self.opcode = op;
                        self.pc = self.pc + 2;
                        clear_graphics(&mut self.graphics);
                        proof {
                            assert(self@ =~= step_spec(pre, rand_byte).0);
                        }
                        Ok(StepOutcome::Executed)
                    },
                    Instr::Return => {
                        if self.sp == 0 {
                            return Err(Fault::StackUnderflow);
                        }
                        self.opcode = op;
                        self.pc = self.pc + 2;
                        self.sp = self.sp - 1;
                        self.pc = self.stack[self.sp as usize];
                        proof {
                            assert(self@ =~= step_spec(pre, rand_byte).0);
                        }
                        Ok(StepOutcome::Executed)
                    },
                    Instr::Jump(nnn) => {
                        self.opcode = op;
                        self.pc = nnn;
                        proof {
                            assert(self@ =~= step_spec(pre, rand_byte).0);
                        }
                        Ok(StepOutcome::Executed)
                    },
                    Instr::Call(nnn) => {
                        if self.sp >= 16 {
                            return Err(Fault::StackOverflow);
                        }
                        self.opcode = op;
                        self.pc = self.pc + 2;
                        self.stack.set(self.sp as usize, self.pc);
                        self.sp = self.sp + 1;
                        self.pc = nnn;
                        proof {
                            assert(self@ =~= step_spec(pre, rand_byte).0);
                        }
                        Ok(StepOutcome::Executed)
                    },
                    Instr::SkipEqImm { x, nn } => {
                        self.opcode = op;
                        self.pc = self.pc + 2;
                        if self.registers[x as usize] == nn {
                            self.pc = self.pc + 2;
                        }
                        proof {
                            assert(self@ =~= step_spec(pre, rand_byte).0);
                        }
                        Ok(StepOutcome::Executed)
                    },
                    Instr::SkipNeImm { x, nn } => {
                        self.opcode = op;
                        self.pc = self.pc + 2;
                        if self.registers[x as usize] != nn {
                            self.pc = self.pc + 2;
                        }
                        proof {
                            assert(self@ =~= step_spec(pre, rand_byte).0);
                        }
                        Ok(StepOutcome::Executed)
                    },
                    Instr::SkipEqReg { x, y } => {
                        self.opcode = op;
                        self.pc = self.pc + 2;
                        if self.registers[x as usize] == self.registers[y as usize] {
                            self.pc = self.pc + 2;
                        }
                        proof {
                            assert(self@ =~= step_spec(pre, rand_byte).0);
                        }
                        Ok(StepOutcome::Executed)
                    },
                    Instr::SkipNeReg { x, y } => {
                        self.opcode = op;
                        self.pc = self.pc + 2;
                        if self.registers[x as usize] != self.registers[y as usize] {
                            self.pc = self.pc + 2;
                        }
                        proof {
                            assert(self@ =~= step_spec(pre, rand_byte).0);
                        }
                        Ok(StepOutcome::Executed)
                    },
                    Instr::LoadImm { x, nn } => {
                        self.opcode = op;
                        self.pc = self.pc + 2;
                        self.registers.set(x as usize, nn);
                        proof {
                            assert(self@ =~= step_spec(pre, rand_byte).0);
                        }
                        Ok(StepOutcome::Executed)
                    },
                    Instr::AddImm { x, nn } => {
                        self.opcode = op;
                        self.pc = self.pc + 2;
                        let sum: u16 = self.registers[x as usize] as u16 + nn as u16;
                        self.registers.set(x as usize, (sum % 256) as u8);
                        proof {
                            assert(self@ =~= step_spec(pre, rand_byte).0);
                        }
                        Ok(StepOutcome::Executed)
                    },
                    Instr::Alu { x, y, op: aop } => {
                        self.opcode = op;
                        self.pc = self.pc + 2;
                        let vx = self.registers[x as usize];
                        let vy = self.registers[y as usize];
                        let (v, f) = alu(aop, vx, vy, self.shift_quirk);
                        self.registers.set(x as usize, v);
                        match f {
                            Some(fv) => self.registers.set(15, fv),
                            None => (),
                        }
                        proof {
                            assert(self@ =~= step_spec(pre, rand_byte).0);
                        }
                        Ok(StepOutcome::Executed)
                    },
                    Instr::SetIndex(nnn) => {
                        self.opcode = op;
                        self.pc = self.pc + 2;
                        self.index = nnn;
                        proof {
                            assert(self@ =~= step_spec(pre, rand_byte).0);
                        }
                        Ok(StepOutcome::Executed)
                    },
                    Instr::JumpOffset(nnn) => {
                        self.opcode = op;
                        self.pc = nnn + (self.registers[0] as u16);
                        proof {
                            assert(self@ =~= step_spec(pre, rand_byte).0);
                        }
                        Ok(StepOutcome::Executed)
                    },
                    Instr::RandomAnd { x, nn } => {
                        self.opcode = op;
                        self.pc = self.pc + 2;
                        self.registers.set(x as usize, rand_byte & nn);
                        proof {
                            assert(self@ =~= step_spec(pre, rand_byte).0);
                        }
                        Ok(StepOutcome::Executed)
                    },
                    Instr::Draw { x, y, n } => {
                        self.opcode = op;
                        self.pc = self.pc + 2;
                        let vx = self.registers[x as usize];
                        let vy = self.registers[y as usize];
                        let hit = draw_sprite(
                            &mut self.graphics,
                            &self.memory,
                            self.index,
                            vx,
                            vy,
                            n,
                        );
                        self.registers.set(15, if hit { 1 } else { 0 });
                        proof {
                            assert(self@ =~= step_spec(pre, rand_byte).0);
                        }
                        Ok(StepOutcome::Executed)
                    },
                    Instr::SkipKeyPressed { x } => {
                        self.opcode = op;
                        self.pc = self.pc + 2;
                        let key = (self.registers[x as usize] % 16) as usize;
                        if self.keys[key] {
                            self.pc = self.pc + 2;
                        }
                        proof {
                            assert(self@ =~= step_spec(pre, rand_byte).0);
                        }
                        Ok(StepOutcome::Executed)
                    },
                    Instr::SkipKeyNotPressed { x } => {
                        self.opcode = op;
                        self.pc = self.pc + 2;
                        let key = (self.registers[x as usize] % 16) as usize;
                        if !self.keys[key] {
                            self.pc = self.pc + 2;
                        }
                        proof {
                            assert(self@ =~= step_spec(pre, rand_byte).0);
                        }
                        Ok(StepOutcome::Executed)
                    },
                    Instr::ReadDelay { x } => {
                        self.opcode = op;
                        self.pc = self.pc + 2;
                        let t = self.delay_timer;
                        self.registers.set(x as usize, t);
                        proof {
                            assert(self@ =~= step_spec(pre, rand_byte).0);
                        }
                        Ok(StepOutcome::Executed)
                    },
                    Instr::WaitKey { x } => {
                        match scan_keys(&self.keys) {
                            Some(k) => {
                                self.opcode = op;
                                self.pc = self.pc + 2;
                                self.registers.set(x as usize, k);
                                proof {
                                    assert(self@ =~= step_spec(pre, rand_byte).0);
                                }
                                Ok(StepOutcome::Executed)
                            },
                            None => {
                                self.opcode = op;
                                self.mode = Mode::AwaitingKey(x);
                                proof {
                                    assert(self@ =~= step_spec(pre, rand_byte).0);
                                }
                                Ok(StepOutcome::AwaitingKey)
                            },
                        }
                    },
                    Instr::SetDelay { x } => {
                        self.opcode = op;
                        self.pc = self.pc + 2;
                        self.delay_timer = self.registers[x as usize];
                        proof {
                            assert(self@ =~= step_spec(pre, rand_byte).0);
                        }
                        Ok(StepOutcome::Executed)
                    },
                    Instr::SetSound { x } => {
                        self.opcode = op;
                        self.pc = self.pc + 2;
                        self.sound_timer = self.registers[x as usize];
                        proof {
                            assert(self@ =~= step_spec(pre, rand_byte).0);
                        }
                        Ok(StepOutcome::Executed)
                    },
                    Instr::AddIndex { x } => {
                        self.opcode = op;
                        self.pc = self.pc + 2;
                        let vx = self.registers[x as usize];
                        self.index = self.index.wrapping_add(vx as u16);
                        proof {
                            assert(self@ =~= step_spec(pre, rand_byte).0);
                        }
                        Ok(StepOutcome::Executed)
                    },
                    Instr::GlyphIndex { x } => {
                        self.opcode = op;
                        self.pc = self.pc + 2;
                        self.index = (self.registers[x as usize] as u16) * 5;
                        proof {
                            assert(self@ =~= step_spec(pre, rand_byte).0);
                        }
                        Ok(StepOutcome::Executed)
                    },
                    Instr::StoreBcd { x } => {
                        self.opcode = op;
                        self.pc = self.pc + 2;
                        let v = self.registers[x as usize];
                        let base = self.index as usize;
                        self.memory.set(base % 4096, v / 100);
                        self.memory.set((base + 1) % 4096, (v / 10) % 10);
                        self.memory.set((base + 2) % 4096, v % 10);
                        proof {
                            assert(self@ =~= step_spec(pre, rand_byte).0);
                        }
                        Ok(StepOutcome::Executed)
                    },
                    Instr::RegDump { x } => {
                        self.opcode = op;
                        self.pc = self.pc + 2;
                        reg_dump(&mut self.memory, &self.registers, self.index, x);
                        proof {
                            assert(self@ =~= step_spec(pre, rand_byte).0);
                        }
                        Ok(StepOutcome::Executed)
                    },
                    Instr::RegLoad { x } => {
                        self.opcode = op;
                        self.pc = self.pc + 2;
                        reg_load(&mut self.registers, &self.memory, self.index, x);
                        proof {
                            assert(self@ =~= step_spec(pre, rand_byte).0);
                        }
                        Ok(StepOutcome::Executed)
                    },
                    Instr::Unknown => {
                        self.opcode = op;
                        self.pc = self.pc + 2;
                        proof {
                            assert(self@ =~= step_spec(pre, rand_byte).0);
                        }
                        Ok(StepOutcome::UnknownOpcode)
                    },
                }
            },
        }
    }

    /// One fetch-decode-execute step, drawing the random-and byte from the
    /// random source: some byte exists for which this step is exactly a
    /// [`step_spec`] transition (and for every instruction but random-and,
    /// the transition is the same whatever the byte).
    pub fn emulate_cycle(&mut self) -> (r: Result<StepOutcome, Fault>)
        requires
            old(self)@.wf(),
        ensures
            final(self)@.wf(),
            exists|b: u8|
                final(self)@ == step_spec(old(self)@, b).0 && r == step_spec(old(self)@, b).1,
    {
        let b = random_byte();
        let r = self.step_with(b);
        proof {
            assert(self@ == step_spec(old(self)@, b).0 && r == step_spec(old(self)@, b).1);
        }
        r
    }
}

} // verus!
