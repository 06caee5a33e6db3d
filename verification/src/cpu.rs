//! Machine state: memory, registers, call stack, timers, display buffer,
//! keypad, and the execution mode (running or awaiting a key press).

use vstd::prelude::*;

verus! {

/// Execution mode of the interpreter. `AwaitingKey(x)` records that a
/// wait-for-key instruction is blocked and will store the pressed key's
/// index into register `x` once one is observed.
#[derive(Clone, Copy, PartialEq, Eq, Structural, Debug)]
pub enum Mode {
    Running,
    AwaitingKey(u8),
}

/// Fatal conditions: the run cannot continue past one of these.
#[derive(Clone, Copy, PartialEq, Eq, Structural, Debug)]
pub enum Fault {
    PcOutOfBounds,
    StackOverflow,
    StackUnderflow,
}

/// What a successful step did.
#[derive(Clone, Copy, PartialEq, Eq, Structural, Debug)]
pub enum StepOutcome {
    /// An instruction was decoded and executed.
    Executed,
    /// The instruction word had no defined meaning; only the program
    /// counter advanced, and the host may log the word (kept in `opcode`).
    UnknownOpcode,
    /// The machine is blocked on a wait-for-key instruction.
    AwaitingKey,
}

/// The whole machine state, as the host sees it.
pub struct CPU {
    /// The most recently fetched instruction word.
    pub opcode: u16,
    /// Flat byte memory; the glyph table occupies the first 80 bytes and
    /// programs load at 0x200. Always 4096 bytes.
    pub memory: Vec<u8>,
    /// 64x32 one-bit pixels, row-major; each cell is 0 or 1. 2048 cells.
    pub graphics: Vec<u8>,
    /// Sixteen 8-bit general registers V0..VF; VF doubles as the flag.
    pub registers: Vec<u8>,
    /// 16-bit index register.
    pub index: u16,
    /// Program counter: address of the next instruction word to fetch.
    pub pc: u16,
    /// Countdown timer read by programs; decremented by `tick_timers`.
    pub delay_timer: u8,
    /// Countdown timer driving the tone; nonzero means tone active.
    pub sound_timer: u8,
    /// Return-address stack, 16 slots.
    pub stack: Vec<u16>,
    /// Stack pointer: number of return addresses currently pushed.
    pub sp: u8,
    /// Keypad: pressed state of the sixteen keys 0x0..0xF.
    pub keys: Vec<bool>,
    /// Running, or blocked on wait-for-key.
    pub mode: Mode,
    /// Shift-instruction operand source: historical variants disagree on
    /// whether shifts read the register named by `y` (true) or shift the
    /// destination register `x` in place (false, the default).
    pub shift_quirk: bool,
}

/// Mathematical model of the machine state.
#[verifier::ext_equal]
pub ghost struct CpuView {
    pub opcode: u16,
    pub memory: Seq<u8>,
    pub graphics: Seq<u8>,
    pub registers: Seq<u8>,
    pub index: u16,
    pub pc: u16,
    pub delay_timer: u8,
    pub sound_timer: u8,
    pub stack: Seq<u16>,
    pub sp: u8,
    pub keys: Seq<bool>,
    pub mode: Mode,
    pub shift_quirk: bool,
}

impl View for CPU {
    type V = CpuView;

    open spec fn view(&self) -> CpuView {
        CpuView {
            opcode: self.opcode,
            memory: self.memory@,
            graphics: self.graphics@,
            registers: self.registers@,
            index: self.index,
            pc: self.pc,
            delay_timer: self.delay_timer,
            sound_timer: self.sound_timer,
            stack: self.stack@,
            sp: self.sp,
            keys: self.keys@,
            mode: self.mode,
            shift_quirk: self.shift_quirk,
        }
    }
}

impl CpuView {
    /// Well-formedness: the sizes of every component are fixed at
    /// construction, the stack pointer never exceeds the stack's capacity,
    /// every display cell is a single bit, and a blocked wait-for-key
    /// always targets a real register.
    pub open spec fn wf(self) -> bool {
        &&& self.memory.len() == 4096
        &&& self.graphics.len() == 2048
        &&& self.registers.len() == 16
        &&& self.stack.len() == 16
        &&& self.keys.len() == 16
        &&& self.sp <= 16
        &&& forall|i: int| 0 <= i < 2048 ==> self.graphics[i] <= 1
        &&& match self.mode {
            Mode::Running => true,
            Mode::AwaitingKey(x) => x < 16,
        }
    }
}

/// The built-in glyph table: sixteen 5-byte bitmaps for the hexadecimal
/// digits, resident at the base of memory.
pub open spec fn fontset() -> Seq<u8> {
    seq![
        0xF0u8, 0x90, 0x90, 0x90, 0xF0, // 0
        0x20, 0x60, 0x20, 0x20, 0x70, // 1
        0xF0, 0x10, 0xF0, 0x80, 0xF0, // 2
        0xF0, 0x10, 0xF0, 0x10, 0xF0, // 3
        0x90, 0x90, 0xF0, 0x10, 0x10, // 4
        0xF0, 0x80, 0xF0, 0x10, 0xF0, // 5
        0xF0, 0x80, 0xF0, 0x90, 0xF0, // 6
        0xF0, 0x10, 0x20, 0x40, 0x40, // 7
        0xF0, 0x90, 0xF0, 0x90, 0xF0, // 8
        0xF0, 0x90, 0xF0, 0x10, 0xF0, // 9
        0xF0, 0x90, 0xF0, 0x90, 0x90, // A
        0xE0, 0x90, 0xE0, 0x90, 0xE0, // B
        0xF0, 0x80, 0x80, 0x80, 0xF0, // C
        0xE0, 0x90, 0x90, 0x90, 0xE0, // D
        0xF0, 0x80, 0xF0, 0x80, 0xF0, // E
        0xF0, 0x80, 0xF0, 0x80, 0x80, // F
    ]
}

/// Memory as construction leaves it: the glyph table, then zeroes.
pub open spec fn initial_memory() -> Seq<u8> {
    Seq::new(4096, |i: int| if i < 80 { fontset()[i] } else { 0u8 })
}

/// The machine state immediately after construction.
pub open spec fn initial_view() -> CpuView {
    CpuView {
        opcode: 0,
        memory: initial_memory(),
        graphics: Seq::new(2048, |i: int| 0u8),
        registers: Seq::new(16, |i: int| 0u8),
        index: 0,
        pc: 0x200,
        delay_timer: 0,
        sound_timer: 0,
        stack: Seq::new(16, |i: int| 0u16),
        sp: 0,
        keys: Seq::new(16, |i: int| false),
        mode: Mode::Running,
        shift_quirk: false,
    }
}

/// A vector of `n` copies of `val`.
fn filled<T: Copy>(n: usize, val: T) -> (v: Vec<T>)
    ensures
        v@ == Seq::new(n as nat, |i: int| val),
{
    let mut v: Vec<T> = Vec::new();
    while v.len() < n
        invariant
            v@.len() <= n,
            forall|i: int| 0 <= i < v@.len() ==> v@[i] == val,
        decreases n - v.len(),
    {
        v.push(val);
    }
    proof {
        assert(v@ =~= Seq::new(n as nat, |i: int| val));
    }
    v
}

/// The glyph table as bytes.
fn fontset_vec() -> (v: Vec<u8>)
    ensures
        v@ == fontset(),
{
    let mut v: Vec<u8> = Vec::new();
    v.push(0xF0); v.push(0x90); v.push(0x90); v.push(0x90); v.push(0xF0);
    v.push(0x20); v.push(0x60); v.push(0x20); v.push(0x20); v.push(0x70);
    v.push(0xF0); v.push(0x10); v.push(0xF0); v.push(0x80); v.push(0xF0);
    v.push(0xF0); v.push(0x10); v.push(0xF0); v.push(0x10); v.push(0xF0);
    v.push(0x90); v.push(0x90); v.push(0xF0); v.push(0x10); v.push(0x10);
    v.push(0xF0); v.push(0x80); v.push(0xF0); v.push(0x10); v.push(0xF0);
    v.push(0xF0); v.push(0x80); v.push(0xF0); v.push(0x90); v.push(0xF0);
    v.push(0xF0); v.push(0x10); v.push(0x20); v.push(0x40); v.push(0x40);
    v.push(0xF0); v.push(0x90); v.push(0xF0); v.push(0x90); v.push(0xF0);
    v.push(0xF0); v.push(0x90); v.push(0xF0); v.push(0x10); v.push(0xF0);
    v.push(0xF0); v.push(0x90); v.push(0xF0); v.push(0x90); v.push(0x90);
    v.push(0xE0); v.push(0x90); v.push(0xE0); v.push(0x90); v.push(0xE0);
    v.push(0xF0); v.push(0x80); v.push(0x80); v.push(0x80); v.push(0xF0);
    v.push(0xE0); v.push(0x90); v.push(0x90); v.push(0x90); v.push(0xE0);
    v.push(0xF0); v.push(0x80); v.push(0xF0); v.push(0x80); v.push(0xF0);
    v.push(0xF0); v.push(0x80); v.push(0xF0); v.push(0x80); v.push(0x80);
    proof {
        assert(v@ =~= fontset());
    }
    v
}

/// Memory with the glyph table at the base and zeroes above it.
fn initial_memory_vec() -> (v: Vec<u8>)
    ensures
        v@ == initial_memory(),
{
    let mut v = fontset_vec();
    proof {
        assert(v@.len() == 80);
    }
    while v.len() < 4096
        invariant
            80 <= v@.len() <= 4096,
            forall|i: int| 0 <= i < 80 ==> v@[i] == fontset()[i],
            forall|i: int| 80 <= i < v@.len() ==> v@[i] == 0u8,
        decreases 4096 - v.len(),
    {
        v.push(0);
    }
    proof {
        assert(v@ =~= initial_memory());
    }
    v
}

/// One external clock tick of a countdown timer: decrement, flooring at
/// zero.
pub open spec fn ticked(t: u8) -> u8 {
    if t > 0 {
        (t - 1) as u8
    } else {
        0u8
    }
}

/// Memory after a program image was placed at the load offset 0x200.
pub open spec fn loaded_memory(mem: Seq<u8>, rom: Seq<u8>) -> Seq<u8> {
    Seq::new(
        4096,
        |j: int|
            if 512 <= j < 512 + rom.len() {
                rom[j - 512]
            } else {
                mem[j]
            },
    )
}

/// One byte of the monochrome frame image: white for a set cell, black
/// for a clear one.
pub open spec fn pixel_byte(b: u8) -> u8 {
    if b == 1 {
        0xFFu8
    } else {
        0u8
    }
}

/// Place a program image into memory starting at the load offset 0x200.
/// An image that would run past the end of memory is rejected whole: the
/// machine is left untouched and `false` comes back.
pub fn load_rom(cpu: &mut CPU, rom: &Vec<u8>) -> (ok: bool)
    requires
        old(cpu)@.wf(),
    ensures
        ok == (rom@.len() <= 3584),
        ok ==> final(cpu)@ == (CpuView {
            memory: loaded_memory(old(cpu)@.memory, rom@),
            ..old(cpu)@
        }),
        !ok ==> final(cpu)@ == old(cpu)@,
        final(cpu)@.wf(),
{
    let ghost pre = cpu@;
    if rom.len() > 3584 {
        return false;
    }
    let mut i: usize = 0;
    while i < rom.len()
        invariant
            rom@.len() <= 3584,
            i <= rom@.len(),
            cpu@.memory.len() == 4096,
            cpu@ == (CpuView { memory: cpu@.memory, ..pre }),
            forall|j: int| 512 <= j < 512 + i ==> cpu@.memory[j] == rom@[j - 512],
            forall|j: int|
                0 <= j < 4096 && !(512 <= j < 512 + i) ==> cpu@.memory[j] == pre.memory[j],
        decreases rom.len() - i,
    {
        let b = rom[i];
        cpu.memory.set(512 + i, b);
        i = i + 1;
    }
    proof {
        assert(cpu@.memory =~= loaded_memory(pre.memory, rom@));
        assert(cpu@ =~= (CpuView { memory: loaded_memory(pre.memory, rom@), ..pre }));
    }
    true
}

/// The display as a 4-bytes-per-pixel image, row-major: a set cell gives
/// three 0xFF colour bytes, a clear cell three zero bytes, and every cell
/// an opaque 0xFF alpha byte.
pub fn frame_pixels(cpu: &CPU) -> (pix: Vec<u8>)
    requires
        cpu@.wf(),
    ensures
        pix@.len() == 8192,
        forall|k: int|
            0 <= k < 2048 ==> pix@[4 * k] == pixel_byte(cpu@.graphics[k]) && pix@[4 * k + 1]
                == pixel_byte(cpu@.graphics[k]) && pix@[4 * k + 2] == pixel_byte(cpu@.graphics[k])
                && pix@[4 * k + 3] == 0xFF,
{
    let mut pix: Vec<u8> = Vec::new();
    let mut j: usize = 0;
    while j < 2048
        invariant
            cpu@.graphics.len() == 2048,
            j <= 2048,
            pix@.len() == 4 * j,
            forall|k: int|
                0 <= k < j ==> pix@[4 * k] == pixel_byte(cpu@.graphics[k]) && pix@[4 * k + 1]
                    == pixel_byte(cpu@.graphics[k]) && pix@[4 * k + 2] == pixel_byte(
                    cpu@.graphics[k],
                ) && pix@[4 * k + 3] == 0xFF,
        decreases 2048 - j,
    {
        let c: u8 = if cpu.graphics[j] == 1 {
            0xFF
        } else {
            0x00
        };
        pix.push(c);
        pix.push(c);
        pix.push(c);
        pix.push(0xFF);
        j = j + 1;
    }
    pix
}

impl CPU {
    /// Construct the machine: memory zeroed except for the glyph table,
    /// registers, timers, stack, keypad and display all zeroed, the
    /// program counter set to the load offset 0x200, mode running, and the
    /// shift quirk off (shifts operate on the destination register).
    pub fn new() -> (cpu: CPU)
        ensures
            cpu@ == initial_view(),
            cpu@.wf(),
    {
        let cpu = CPU {
            opcode: 0,
            memory: initial_memory_vec(),
            graphics: filled::<u8>(2048, 0),
            registers: filled::<u8>(16, 0),
            index: 0,
            pc: 0x200,
            delay_timer: 0,
            sound_timer: 0,
            stack: filled::<u16>(16, 0),
            sp: 0,
            keys: filled::<bool>(16, false),
            mode: Mode::Running,
            shift_quirk: false,
        };
        proof {
            assert(cpu@ =~= initial_view());
        }
        cpu
    }

    /// One tick of the external 60 Hz clock: each timer decrements by one,
    /// flooring at zero; a timer already at zero stays at zero. Nothing
    /// else moves: timers are driven by this clock alone, never by
    /// instruction execution.
    pub fn tick_timers(&mut self)
        ensures
            final(self)@ == (CpuView {
                delay_timer: ticked(old(self)@.delay_timer),
                sound_timer: ticked(old(self)@.sound_timer),
                ..old(self)@
            }),
    {
        if self.delay_timer > 0 {
            self.delay_timer = self.delay_timer - 1;
        }
        if self.sound_timer > 0 {
            self.sound_timer = self.sound_timer - 1;
        }
    }

    /// Press (`true`) or release (`false`) one of the sixteen keys.
    pub fn set_key(&mut self, key: u8, pressed: bool)
        requires
            old(self)@.wf(),
            key < 16,
        ensures
            final(self)@ == (CpuView {
                keys: old(self)@.keys.update(key as int, pressed),
                ..old(self)@
            }),
            final(self)@.wf(),
    {
        self.keys.set(key as usize, pressed);
    }

    /// Whether the tone should sound: any nonzero sound timer.
    pub fn sound_active(&self) -> (r: bool)
        ensures
            r == (self@.sound_timer > 0),
    {
        self.sound_timer > 0
    }

    /// Whether the machine is blocked on a wait-for-key instruction.
    pub fn awaiting_key(&self) -> (r: bool)
        ensures
            r == (self@.mode matches Mode::AwaitingKey(_)),
    {
        match self.mode {
            Mode::Running => false,
            Mode::AwaitingKey(_) => true,
        }
    }

    /// Choose the shift-instruction operand source: `true` reads the
    /// register named by `y`, `false` (the construction default) shifts
    /// the destination register in place.
    pub fn set_shift_quirk(&mut self, on: bool)
        ensures
            final(self)@ == (CpuView { shift_quirk: on, ..old(self)@ }),
    {
        self.shift_quirk = on;
    }

    /// Check well-formedness at run time, for hosts that set fields
    /// directly rather than going through the machine's own operations.
    pub fn is_well_formed(&self) -> (r: bool)
        ensures
            r == self@.wf(),
    {
        if self.memory.len() != 4096 {
            return false;
        }
        if self.graphics.len() != 2048 {
            return false;
        }
        if self.registers.len() != 16 {
            return false;
        }
        if self.stack.len() != 16 {
            return false;
        }
        if self.keys.len() != 16 {
            return false;
        }
        if self.sp > 16 {
            return false;
        }
        match self.mode {
            Mode::Running => (),
            Mode::AwaitingKey(x) => {
                if x >= 16 {
                    return false;
                }
            },
        }
        let mut i: usize = 0;
        while i < 2048
            invariant
                self@.graphics.len() == 2048,
                i <= 2048,
                forall|j: int| 0 <= j < i ==> self@.graphics[j] <= 1,
            decreases 2048 - i,
        {
            if self.graphics[i] > 1 {
                return false;
            }
            i = i + 1;
        }
        true
    }
}

} // verus!
