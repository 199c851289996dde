//! The mathematical model of the machine: its state as plain sequences and
//! integers, and one instruction cycle as a function on that state.

use vstd::prelude::*;
use crate::font::FONTSET;

verus! {

/// Display width in pixels.
pub const SCREEN_WIDTH: usize = 64;

/// Display height in pixels.
pub const SCREEN_HEIGHT: usize = 32;

/// Number of display cells, `SCREEN_WIDTH * SCREEN_HEIGHT`.
pub const SCREEN_SIZE: usize = 2048;

/// Bytes of addressable memory.
pub const RAM_SIZE: usize = 4096;

/// Number of general registers; the last one is the flag register.
pub const NUM_REGS: usize = 16;

/// Capacity of the call stack.
pub const STACK_SIZE: usize = 16;

/// Number of keys on the keypad.
pub const NUM_KEYS: usize = 16;

/// Address at which programs are loaded and start to run.
pub const START_ADDR: u16 = 0x200;

/// Why a cycle cannot run.
#[derive(Clone, Copy, Debug, PartialEq, Eq, Structural)]
pub enum Fault {
    /// The cycle would leave memory, the call stack, the keypad or the
    /// range of the program counter.
    OutOfBounds,
    /// The word at the program counter is no known instruction.
    BadOpcode,
}

/// Everything the machine holds, as mathematical values.
pub struct State {
    /// Address of the next instruction.
    pub pc: u16,
    /// Memory, one byte per address.
    pub ram: Seq<u8>,
    /// The display, row-major: cell `(x, y)` is at index `x + 64 * y`.
    pub screen: Seq<bool>,
    /// General registers; register 15 is the flag register.
    pub v_regs: Seq<u8>,
    /// The index register.
    pub i_reg: u16,
    /// Number of return addresses on the stack.
    pub sp: u16,
    /// The call stack; entries at `sp` and above are stale.
    pub stack: Seq<u16>,
    /// Which keys are held down.
    pub keys: Seq<bool>,
    /// The delay timer.
    pub delay_timer: u8,
    /// The sound timer.
    pub sound_timer: u8,
}

impl State {
    /// The fixed sizes of the architecture, and a stack that is not overfull.
    pub open spec fn wf(self) -> bool {
        &&& self.ram.len() == RAM_SIZE
        &&& self.screen.len() == SCREEN_SIZE
        &&& self.v_regs.len() == NUM_REGS
        &&& self.stack.len() == STACK_SIZE
        &&& self.keys.len() == NUM_KEYS
        &&& self.sp <= STACK_SIZE
    }

    /// The state of a machine that has just been created or reset: the font
    /// at the bottom of memory, the program counter at the start address,
    /// everything else zero or off.
    pub open spec fn initial() -> State {
        State {
            pc: START_ADDR,
            ram: Seq::new(RAM_SIZE as nat, |a: int| if a < 80 { FONTSET[a] } else { 0u8 }),
            screen: Seq::new(SCREEN_SIZE as nat, |k: int| false),
            v_regs: Seq::new(NUM_REGS as nat, |k: int| 0u8),
            i_reg: 0,
            sp: 0,
            stack: Seq::new(STACK_SIZE as nat, |k: int| 0u16),
            keys: Seq::new(NUM_KEYS as nat, |k: int| false),
            delay_timer: 0,
            sound_timer: 0,
        }
    }
}

/// First (most significant) nibble of an instruction word.
pub open spec fn d1(op: u16) -> int {
    op as int / 4096
}

/// Second nibble, which usually names register X.
pub open spec fn d2(op: u16) -> int {
    (op as int / 256) % 16
}

/// Third nibble, which usually names register Y.
pub open spec fn d3(op: u16) -> int {
    (op as int / 16) % 16
}

/// Fourth (least significant) nibble.
pub open spec fn d4(op: u16) -> int {
    op as int % 16
}

/// The 12-bit address operand.
pub open spec fn nnn(op: u16) -> u16 {
    (op as int % 4096) as u16
}

/// The 8-bit immediate operand.
pub open spec fn nn(op: u16) -> u8 {
    (op as int % 256) as u8
}

/// Whether `op` is one of the instructions the machine knows.
pub open spec fn implemented(op: u16) -> bool {
    let d = d1(op);
    let n = d4(op);
    let lo = op as int % 256;
    ||| op == 0x0000
    ||| op == 0x00E0
    ||| op == 0x00EE
    ||| 1 <= d <= 4
    ||| (d == 5 && n == 0)
    ||| d == 6
    ||| d == 7
    ||| (d == 8 && (n <= 7 || n == 0xE))
    ||| (d == 9 && n == 0)
    ||| 0xA <= d <= 0xD
    ||| (d == 0xE && (lo == 0x9E || lo == 0xA1))
    ||| (d == 0xF && (lo == 0x07 || lo == 0x0A || lo == 0x15 || lo == 0x18 || lo == 0x1E
        || lo == 0x29 || lo == 0x33 || lo == 0x55 || lo == 0x65))
}

/// The word held big-endian in the two bytes at the program counter.
pub open spec fn fetch_word(s: State) -> u16 {
    (s.ram[s.pc as int] as int * 256 + s.ram[s.pc as int + 1] as int) as u16
}

/// The state with the program counter moved past one instruction.
pub open spec fn advance(s: State) -> State {
    State { pc: (s.pc + 2) as u16, ..s }
}

/// The state after a conditional skip whose condition is `cond`.
pub open spec fn skip_if(s: State, cond: bool) -> State {
    if cond {
        advance(s)
    } else {
        s
    }
}

/// The state with register `x` set to `v`.
pub open spec fn set_reg(s: State, x: int, v: u8) -> State {
    State { v_regs: s.v_regs.update(x, v), ..s }
}

/// The state with the flag register set to `flag` and then register `x` set
/// to `v`: when `x` is the flag register itself, `v` is what stays.
pub open spec fn set_flag_then_reg(s: State, flag: u8, x: int, v: u8) -> State {
    State { v_regs: s.v_regs.update(0xF, flag).update(x, v), ..s }
}

/// The state with register `x` set to `v` and then the flag register set to
/// `flag`: when `x` is the flag register itself, `flag` is what stays.
pub open spec fn set_reg_then_flag(s: State, x: int, v: u8, flag: u8) -> State {
    State { v_regs: s.v_regs.update(x, v).update(0xF, flag), ..s }
}

/// The register-to-register instructions `8XYn`.
pub open spec fn alu(s: State, x: int, y: int, n: int) -> State {
    let vx = s.v_regs[x];
    let vy = s.v_regs[y];
    if n == 0 {
        set_reg(s, x, vy)
    } else if n == 1 {
        set_reg(s, x, vx | vy)
    } else if n == 2 {
        set_reg(s, x, vx & vy)
    } else if n == 3 {
        set_reg(s, x, vx ^ vy)
    } else if n == 4 {
        set_flag_then_reg(s, if vx + vy > 255 { 1u8 } else { 0u8 }, x, ((vx + vy) % 256) as u8)
    } else if n == 5 {
        set_flag_then_reg(s, if vx < vy { 0u8 } else { 1u8 }, x, ((vx - vy) % 256) as u8)
    } else if n == 6 {
        set_reg_then_flag(s, x, (vx / 2) as u8, (vx % 2) as u8)
    } else if n == 7 {
        set_flag_then_reg(s, if vy < vx { 0u8 } else { 1u8 }, x, ((vy - vx) % 256) as u8)
    } else if n == 0xE {
        set_reg_then_flag(s, x, ((vx * 2) % 256) as u8, (vx / 128) as u8)
    } else {
        s
    }
}

/// Whether the bit for sprite column `col` (0 is leftmost) is set in `byte`.
pub open spec fn sprite_bit(byte: u8, col: u8) -> bool {
    byte & (0x80u8 >> col) != 0
}

/// The sprite column that falls on display cell `k` when the sprite's left
/// edge is at `x0`; columns wrap round the display.
pub open spec fn sprite_col(x0: int, k: int) -> int {
    (k % 64 - x0) % 64
}

/// The sprite row that falls on display cell `k` when the sprite's top edge
/// is at `y0`; rows wrap round the display.
pub open spec fn sprite_row(y0: int, k: int) -> int {
    (k / 64 - y0) % 32
}

/// Whether cell `k` is toggled by the part of the sprite at address `i` that
/// lies before row `r`, column `c`, in reading order, the sprite being drawn
/// with its top-left corner at `(x0, y0)`.
pub open spec fn toggled_before(ram: Seq<u8>, i: int, x0: int, y0: int, r: int, c: int, k: int) -> bool {
    let col = sprite_col(x0, k);
    let row = sprite_row(y0, k);
    &&& col < 8
    &&& (row < r || (row == r && col < c))
    &&& sprite_bit(ram[i + row], col as u8)
}

/// Whether cell `k` is toggled by the sprite of `n` rows at address `i`
/// drawn with its top-left corner at `(x0, y0)`.
pub open spec fn toggled(ram: Seq<u8>, i: int, x0: int, y0: int, n: int, k: int) -> bool {
    toggled_before(ram, i, x0, y0, n, 0, k)
}

/// Whether the part of the sprite before row `r`, column `c` turns off a
/// cell of `screen` that was on.
pub open spec fn collides_before(screen: Seq<bool>, ram: Seq<u8>, i: int, x0: int, y0: int, r: int, c: int) -> bool {
    exists|k: int| 0 <= k < screen.len() && screen[k] && #[trigger] toggled_before(ram, i, x0, y0, r, c, k)
}

/// The draw instruction `DXYn`: every cell under a set sprite bit flips, and
/// the flag register says whether any cell went from on to off.
pub open spec fn draw(s: State, x0: int, y0: int, n: int) -> State {
    State {
        screen: Seq::new(
            SCREEN_SIZE as nat,
            |k: int| s.screen[k] ^ toggled(s.ram, s.i_reg as int, x0, y0, n, k),
        ),
        v_regs: s.v_regs.update(
            0xF,
            if collides_before(s.screen, s.ram, s.i_reg as int, x0, y0, n, 0) { 1u8 } else { 0u8 },
        ),
        ..s
    }
}

/// Index of the first key at or after `from` that is held down, or the
/// number of keys if there is none.
pub open spec fn first_pressed(keys: Seq<bool>, from: int) -> int
    decreases keys.len() - from,
{
    if from < 0 || from >= keys.len() {
        keys.len() as int
    } else if keys[from] {
        from
    } else {
        first_pressed(keys, from + 1)
    }
}

/// The timer, keypad and memory instructions `FXnn`; `lo` is the low byte.
pub open spec fn misc(s: State, x: int, lo: int) -> State {
    let vx = s.v_regs[x];
    let i = s.i_reg as int;
    if lo == 0x07 {
        set_reg(s, x, s.delay_timer)
    } else if lo == 0x0A {
        let k = first_pressed(s.keys, 0);
        if k < s.keys.len() {
            set_reg(s, x, k as u8)
        } else {
            State { pc: (s.pc - 2) as u16, ..s }
        }
    } else if lo == 0x15 {
        State { delay_timer: vx, ..s }
    } else if lo == 0x18 {
        State { sound_timer: vx, ..s }
    } else if lo == 0x1E {
        State { i_reg: ((i + vx) % 65536) as u16, ..s }
    } else if lo == 0x29 {
        State { i_reg: (5 * vx) as u16, ..s }
    } else if lo == 0x33 {
        State {
            ram: s.ram.update(i, (vx / 100) as u8).update(i + 1, ((vx / 10) % 10) as u8).update(
                i + 2,
                (vx % 10) as u8,
            ),
            ..s
        }
    } else if lo == 0x55 {
        State {
            ram: Seq::new(
                RAM_SIZE as nat,
                |a: int| if i <= a <= i + x { s.v_regs[a - i] } else { s.ram[a] },
            ),
            ..s
        }
    } else if lo == 0x65 {
        State {
            v_regs: Seq::new(
                NUM_REGS as nat,
                |k: int| if k <= x { s.ram[i + k] } else { s.v_regs[k] },
            ),
            ..s
        }
    } else {
        s
    }
}

/// The state after executing instruction `op` in state `s`, where `rnd` is
/// the byte that the random source gives. Only the random instruction
/// `CXnn` looks at `rnd`.
pub open spec fn step(s: State, op: u16, rnd: u8) -> State {
    let d = d1(op);
    let x = d2(op);
    let y = d3(op);
    let n = d4(op);
    let vx = s.v_regs[x];
    let vy = s.v_regs[y];
    if op == 0x00E0 {
        State { screen: Seq::new(SCREEN_SIZE as nat, |k: int| false), ..s }
    } else if op == 0x00EE {
        State { pc: s.stack[s.sp - 1], sp: (s.sp - 1) as u16, ..s }
    } else if d == 1 {
        State { pc: nnn(op), ..s }
    } else if d == 2 {
        State { pc: nnn(op), sp: (s.sp + 1) as u16, stack: s.stack.update(s.sp as int, s.pc), ..s }
    } else if d == 3 {
        skip_if(s, vx == nn(op))
    } else if d == 4 {
        skip_if(s, vx != nn(op))
    } else if d == 5 && n == 0 {
        skip_if(s, vx == vy)
    } else if d == 6 {
        set_reg(s, x, nn(op))
    } else if d == 7 {
        set_reg(s, x, ((vx + nn(op)) % 256) as u8)
    } else if d == 8 {
        alu(s, x, y, n)
    } else if d == 9 && n == 0 {
        skip_if(s, vx != vy)
    } else if d == 0xA {
        State { i_reg: nnn(op), ..s }
    } else if d == 0xB {
        State { pc: (nnn(op) + s.v_regs[0]) as u16, ..s }
    } else if d == 0xC {
        set_reg(s, x, rnd & nn(op))
    } else if d == 0xD {
        draw(s, vx as int, vy as int, n)
    } else if d == 0xE && y == 9 && n == 0xE {
        skip_if(s, s.keys[vx as int])
    } else if d == 0xE && y == 0xA && n == 1 {
        skip_if(s, !s.keys[vx as int])
    } else if d == 0xF {
        misc(s, x, op as int % 256)
    } else {
        s
    }
}

/// Whether instruction `op` can be executed in state `s`: it is a known
/// instruction, and it stays inside memory, the stack, the keypad and the
/// range of the program counter.
pub open spec fn can_step(s: State, op: u16) -> bool {
    let d = d1(op);
    let x = d2(op);
    let y = d3(op);
    let n = d4(op);
    let lo = op as int % 256;
    let vx = s.v_regs[x];
    let skips = d == 3 || d == 4 || d == 5 || d == 9 || d == 0xE;
    &&& implemented(op)
    &&& op == 0x00EE ==> s.sp > 0
    &&& d == 2 ==> s.sp < STACK_SIZE
    &&& skips ==> s.pc + 2 <= u16::MAX
    &&& d == 0xD && n > 0 ==> s.i_reg + n <= RAM_SIZE
    &&& d == 0xE ==> vx < NUM_KEYS
    &&& d == 0xF && lo == 0x0A ==> s.pc >= 2
    &&& d == 0xF && lo == 0x33 ==> s.i_reg + 2 < RAM_SIZE
    &&& d == 0xF && (lo == 0x55 || lo == 0x65) ==> s.i_reg + x < RAM_SIZE
}

/// Whether the two bytes of the next instruction lie inside memory.
pub open spec fn can_fetch(s: State) -> bool {
    s.pc + 1 < RAM_SIZE
}

/// Whether one whole cycle can run in state `s`.
pub open spec fn can_cycle(s: State) -> bool {
    can_fetch(s) && can_step(advance(s), fetch_word(s))
}

/// What stops the next cycle in state `s`, if anything does: an instruction
/// that lies outside memory, then an unknown instruction, then a known one
/// that would go out of bounds.
pub open spec fn fault(s: State) -> Option<Fault> {
    if !can_fetch(s) {
        Some(Fault::OutOfBounds)
    } else if !implemented(fetch_word(s)) {
        Some(Fault::BadOpcode)
    } else if !can_step(advance(s), fetch_word(s)) {
        Some(Fault::OutOfBounds)
    } else {
        None
    }
}

/// One instruction cycle: fetch the word at the program counter, move the
/// program counter past it, execute the word.
pub open spec fn cycle(s: State, rnd: u8) -> State {
    step(advance(s), fetch_word(s), rnd)
}

/// One step of both timers: each goes down by one unless it is zero.
pub open spec fn timers_ticked(s: State) -> State {
    State {
        delay_timer: if s.delay_timer > 0 { (s.delay_timer - 1) as u8 } else { 0u8 },
        sound_timer: if s.sound_timer > 0 { (s.sound_timer - 1) as u8 } else { 0u8 },
        ..s
    }
}

/// The state with `bytes` copied into memory from the start address on.
pub open spec fn loaded(s: State, bytes: Seq<u8>) -> State {
    State {
        ram: Seq::new(
            RAM_SIZE as nat,
            |a: int| if START_ADDR <= a < START_ADDR + bytes.len() { bytes[a - START_ADDR] } else { s.ram[a] },
        ),
        ..s
    }
}

} // verus!
