//! The executable machine.

use vstd::prelude::*;
use crate::font::{FONTSET, FONTSET_SIZE, GLYPH_SIZE};
use crate::model::{Fault, State};
use crate::model::{NUM_KEYS, NUM_REGS, RAM_SIZE, SCREEN_HEIGHT, SCREEN_SIZE, SCREEN_WIDTH, STACK_SIZE, START_ADDR};
use crate::model::{advance, can_cycle, can_fetch, can_step, cycle, fault, fetch_word, implemented, step};
use crate::model::{alu, d1, d2, d3, d4, first_pressed, loaded, misc, nn, nnn, timers_ticked};
use crate::model::{collides_before, draw, sprite_col, sprite_row, toggled_before};
use crate::rng::random_byte;

verus! {

/// The virtual machine: memory, registers, call stack, display, keypad and
/// timers.
pub struct Emu {
    pc: u16,
    ram: [u8; RAM_SIZE],
    screen: [bool; SCREEN_SIZE],
    v_regs: [u8; NUM_REGS],
    i_reg: u16,
    sp: u16,
    stack: [u16; STACK_SIZE],
    keys: [bool; NUM_KEYS],
    delay_timer: u8,
    sound_timer: u8,
}

impl View for Emu {
    type V = State;

    closed spec fn view(&self) -> State {
        State {
            pc: self.pc,
            ram: self.ram@,
            screen: self.screen@,
            v_regs: self.v_regs@,
            i_reg: self.i_reg,
            sp: self.sp,
            stack: self.stack@,
            keys: self.keys@,
            delay_timer: self.delay_timer,
            sound_timer: self.sound_timer,
        }
    }
}

impl Emu {
    /// The machine's invariant: that of its model.
    pub open spec fn wf(&self) -> bool {
        self@.wf()
    }

    /// A machine in its initial state.
    pub fn new() -> (r: Self)
        ensures
            r.wf(),
            r@ == State::initial(),
    {
        let mut ram = [0u8; RAM_SIZE];
        let mut i: usize = 0;
        while i < FONTSET_SIZE
            invariant
                i <= FONTSET_SIZE,
                forall|a: int| 0 <= a < i ==> ram[a] == FONTSET[a],
                forall|a: int| i <= a < RAM_SIZE ==> ram[a] == 0,
            decreases FONTSET_SIZE - i,
        {
            ram[i] = FONTSET[i];
            i += 1;
        }
        let r = Emu {
            pc: START_ADDR,
            ram,
            screen: [false; SCREEN_SIZE],
            v_regs: [0; NUM_REGS],
            i_reg: 0,
            sp: 0,
            stack: [0; STACK_SIZE],
            keys: [false; NUM_KEYS],
            delay_timer: 0,
            sound_timer: 0,
        };
        proof {
            let m = State::initial();
            assert(r@.ram =~= m.ram);
            assert(r@.screen =~= m.screen);
            assert(r@.v_regs =~= m.v_regs);
            assert(r@.stack =~= m.stack);
            assert(r@.keys =~= m.keys);
        }
        r
    }

    /// Puts the machine back into its initial state, whatever it held.
    pub fn reset(&mut self)
        ensures
            final(self).wf(),
            final(self)@ == State::initial(),
    {
        *self = Self::new();
    }

    /// Pushes `x` onto the call stack.
    pub fn push(&mut self, x: u16)
        requires
            old(self).wf(),
            old(self)@.sp < STACK_SIZE,
        ensures
            final(self).wf(),
            final(self)@ == (State {
                sp: (old(self)@.sp + 1) as u16,
                stack: old(self)@.stack.update(old(self)@.sp as int, x),
                ..old(self)@
            }),
    {
        self.stack[self.sp as usize] = x;
        self.sp += 1;
    }

    /// Pops the top of the call stack.
    pub fn pop(&mut self) -> (x: u16)
        requires
            old(self).wf(),
            old(self)@.sp > 0,
        ensures
            final(self).wf(),
            x == old(self)@.stack[old(self)@.sp - 1],
            final(self)@ == (State { sp: (old(self)@.sp - 1) as u16, ..old(self)@ }),
    {
        self.sp -= 1;
        self.stack[self.sp as usize]
    }

    /// Steps both timers once: each goes down by one and stops at zero.
    pub fn tick_timers(&mut self)
        requires
            old(self).wf(),
        ensures
            final(self).wf(),
            final(self)@ == timers_ticked(old(self)@),
            final(self)@.delay_timer <= old(self)@.delay_timer,
            final(self)@.sound_timer <= old(self)@.sound_timer,
    {
        if self.delay_timer > 0 {
            self.delay_timer -= 1;
        }
        if self.sound_timer > 0 {
            self.sound_timer -= 1;
        }
    }

    /// The display, row-major: cell `(x, y)` is at index `x + 64 * y`.
    pub fn get_display(&self) -> (d: &[bool])
        ensures
            d@ == self@.screen,
            d@.len() == SCREEN_SIZE,
    {
        self.screen.as_slice()
    }

    /// Records that key `key_index` is held down (`pressed`) or released.
    pub fn key_press(&mut self, key_index: usize, pressed: bool)
        requires
            old(self).wf(),
            key_index < NUM_KEYS,
        ensures
            final(self).wf(),
            final(self)@ == (State {
                keys: old(self)@.keys.update(key_index as int, pressed),
                ..old(self)@
            }),
    {
        self.keys[key_index] = pressed;
    }

    /// Copies `bytes` into memory from the start address on.
    pub fn load(&mut self, bytes: &[u8])
        requires
            old(self).wf(),
            START_ADDR + bytes@.len() <= RAM_SIZE,
        ensures
            final(self).wf(),
            final(self)@ == loaded(old(self)@, bytes@),
    {
        let start: usize = START_ADDR as usize;
        let mut k: usize = 0;
        while k < bytes.len()
            invariant
                k <= bytes@.len(),
                start == START_ADDR,
                START_ADDR + bytes@.len() <= RAM_SIZE,
                self.wf(),
                self@ == (State { ram: self@.ram, ..old(self)@ }),
                forall|a: int| 0 <= a < RAM_SIZE ==> self@.ram[a] == if start <= a < start + k {
                    bytes@[a - start]
                } else {
                    old(self)@.ram[a]
                },
            decreases bytes@.len() - k,
        {
            self.ram[start + k] = bytes[k];
            k += 1;
        }
        assert(self@.ram =~= loaded(old(self)@, bytes@).ram);
    }

    /// Reads the instruction word at the program counter and moves the
    /// program counter past it.
    pub fn fetch(&mut self) -> (op: u16)
        requires
            old(self).wf(),
            can_fetch(old(self)@),
        ensures
            final(self).wf(),
            op == fetch_word(old(self)@),
            final(self)@ == advance(old(self)@),
    {
        let higher_byte: u16 = self.ram[self.pc as usize] as u16;
        let lower_byte: u16 = self.ram[(self.pc + 1) as usize] as u16;
        self.pc += 2;
        assert((higher_byte << 8) == higher_byte * 256) by (bit_vector)
            requires
                higher_byte < 256,
        ;
        (higher_byte << 8) + lower_byte
    }

    /// Draws the sprite of `num_rows` rows that memory holds at the index
    /// register, with its top-left corner at `(x_coord, y_coord)`: each set
    /// bit flips a cell, coordinates wrap round the display, and the flag
    /// register says whether a cell went from on to off.
    fn draw_sprite(&mut self, x_coord: u8, y_coord: u8, num_rows: u16)
        requires
            old(self).wf(),
            num_rows < 16,
            num_rows > 0 ==> old(self)@.i_reg + num_rows <= RAM_SIZE,
        ensures
            final(self).wf(),
            final(self)@ == draw(old(self)@, x_coord as int, y_coord as int, num_rows as int),
    {
        let ghost s0 = self@;
        let ghost i = s0.i_reg as int;
        let ghost x0 = x_coord as int;
        let ghost y0 = y_coord as int;
        let mut flipped = false;
        let mut y_line: u16 = 0;
        while y_line < num_rows
            invariant
                y_line <= num_rows < 16,
                num_rows > 0 ==> i + num_rows <= RAM_SIZE,
                s0.wf(),
                i == s0.i_reg,
                x0 == x_coord,
                y0 == y_coord,
                self@ == (State { screen: self@.screen, ..s0 }),
                forall|k: int|
                    0 <= k < SCREEN_SIZE ==> self@.screen[k] == (s0.screen[k] ^ toggled_before(
                        s0.ram,
                        i,
                        x0,
                        y0,
                        y_line as int,
                        0,
                        k,
                    )),
                flipped == collides_before(s0.screen, s0.ram, i, x0, y0, y_line as int, 0),
            decreases num_rows - y_line,
        {
            let addr: u16 = self.i_reg + y_line;
            let pixels: u8 = self.ram[addr as usize];
            let mut x_line: u8 = 0;
            while x_line < 8
                invariant
                    x_line <= 8,
                    y_line < num_rows < 16,
                    i + num_rows <= RAM_SIZE,
                    s0.wf(),
                    i == s0.i_reg,
                    x0 == x_coord,
                    y0 == y_coord,
                    pixels == s0.ram[i + y_line],
                    self@ == (State { screen: self@.screen, ..s0 }),
                    forall|k: int|
                        0 <= k < SCREEN_SIZE ==> self@.screen[k] == (s0.screen[k] ^ toggled_before(
                            s0.ram,
                            i,
                            x0,
                            y0,
                            y_line as int,
                            x_line as int,
                            k,
                        )),
                    flipped == collides_before(
                        s0.screen,
                        s0.ram,
                        i,
                        x0,
                        y0,
                        y_line as int,
                        x_line as int,
                    ),
                decreases 8 - x_line,
            {
                let ghost before = self@.screen;
                let ghost r = y_line as int;
                let ghost c = x_line as int;
                let x: usize = (x_coord as usize + x_line as usize) % SCREEN_WIDTH;
                let y: usize = (y_coord as usize + y_line as usize) % SCREEN_HEIGHT;
                let idx: usize = x + SCREEN_WIDTH * y;
                proof {
                    lemma_cell_of_sprite_pixel(x0, y0, r, c);
                    assert forall|k: int|
                        0 <= k < SCREEN_SIZE && k != idx implies toggled_before(
                        s0.ram,
                        i,
                        x0,
                        y0,
                        r,
                        c + 1,
                        k,
                    ) == toggled_before(s0.ram, i, x0, y0, r, c, k) by {
                        if sprite_col(x0, k) == c && sprite_row(y0, k) == r {
                            lemma_sprite_pixel_of_cell(x0, y0, r, c, k);
                        }
                    }
                }
                if pixels & (0x80u8 >> x_line) != 0 {
                    let was_on: bool = self.screen[idx];
                    flipped = flipped || was_on;
                    self.screen[idx] = !was_on;
                    proof {
                        assert(was_on == s0.screen[idx as int]);
                        assert(toggled_before(s0.ram, i, x0, y0, r, c + 1, idx as int));
                        assert forall|k: int| 0 <= k < SCREEN_SIZE implies self@.screen[k] == (
                        s0.screen[k] ^ toggled_before(s0.ram, i, x0, y0, r, c + 1, k)) by {
                            if k != idx {
                                assert(before[k] == self@.screen[k]);
                            }
                        }
                        lemma_collision_grows(s0.screen, s0.ram, i, x0, y0, r, c, r, c + 1, idx as int);
                    }
                } else {
                    proof {
                        assert(!toggled_before(s0.ram, i, x0, y0, r, c + 1, idx as int));
                        lemma_collision_grows(s0.screen, s0.ram, i, x0, y0, r, c, r, c + 1, idx as int);
                    }
                }
                x_line += 1;
            }
            proof {
                let r = y_line as int;
                assert forall|k: int| 0 <= k < SCREEN_SIZE implies toggled_before(
                    s0.ram,
                    i,
                    x0,
                    y0,
                    r,
                    8,
                    k,
                ) == toggled_before(s0.ram, i, x0, y0, r + 1, 0, k) by {}
                lemma_collision_grows(s0.screen, s0.ram, i, x0, y0, r, 8, r + 1, 0, 0);
            }
            y_line += 1;
        }
        self.v_regs[0xF] = if flipped { 1 } else { 0 };
        proof {
            let m = draw(s0, x0, y0, num_rows as int);
            assert(self@.screen =~= m.screen);
            assert(self@.v_regs =~= m.v_regs);
        }
    }

    /// The register-to-register instruction `8XYn` on registers `x` and `y`.
    fn alu(&mut self, x: usize, y: usize, n: u16)
        requires
            old(self).wf(),
            x < NUM_REGS,
            y < NUM_REGS,
        ensures
            final(self).wf(),
            final(self)@ == alu(old(self)@, x as int, y as int, n as int),
    {
        let vx: u8 = self.v_regs[x];
        let vy: u8 = self.v_regs[y];
        match n {
            0 => {
                self.v_regs[x] = vy;
            },
            1 => {
                self.v_regs[x] = vx | vy;
            },
            2 => {
                self.v_regs[x] = vx & vy;
            },
            3 => {
                self.v_regs[x] = vx ^ vy;
            },
            4 => {
                let carry: bool = vx > 255 - vy;
                let sum: u8 = vx.wrapping_add(vy);
                assert(sum == (vx + vy) % 256);
                self.v_regs[0xF] = if carry { 1 } else { 0 };
                self.v_regs[x] = sum;
            },
            5 => {
                let borrow: bool = vx < vy;
                let diff: u8 = vx.wrapping_sub(vy);
                assert(diff == (vx - vy) % 256);
                self.v_regs[0xF] = if borrow { 0 } else { 1 };
                self.v_regs[x] = diff;
            },
            6 => {
                let lsb: u8 = vx & 1;
                assert(vx & 1 == vx % 2) by (bit_vector);
                assert(vx >> 1 == vx / 2) by (bit_vector);
                self.v_regs[x] = vx >> 1;
                self.v_regs[0xF] = lsb;
            },
            7 => {
                let borrow: bool = vy < vx;
                let diff: u8 = vy.wrapping_sub(vx);
                assert(diff == (vy - vx) % 256);
                self.v_regs[0xF] = if borrow { 0 } else { 1 };
                self.v_regs[x] = diff;
            },
            0xE => {
                let msb: u8 = (vx >> 7) & 1;
                assert((vx >> 7) & 1 == vx / 128) by (bit_vector);
                assert(vx << 1 == (vx * 2) % 256) by (bit_vector);
                self.v_regs[x] = vx << 1;
                self.v_regs[0xF] = msb;
            },
            _ => {},
        }
    }

    /// The timer, keypad and memory instruction `FXnn` with low byte `lo`
    /// on register `x`.
    fn misc(&mut self, x: usize, lo: u8)
        requires
            old(self).wf(),
            x < NUM_REGS,
            lo == 0x0A ==> old(self)@.pc >= 2,
            lo == 0x33 ==> old(self)@.i_reg + 2 < RAM_SIZE,
            lo == 0x55 || lo == 0x65 ==> old(self)@.i_reg + x < RAM_SIZE,
        ensures
            final(self).wf(),
            final(self)@ == misc(old(self)@, x as int, lo as int),
    {
        let ghost s0 = self@;
        let vx: u8 = self.v_regs[x];
        match lo {
            0x07 => {
                self.v_regs[x] = self.delay_timer;
            },
            0x0A => {
                let mut k: usize = 0;
                while k < NUM_KEYS && !self.keys[k]
                    invariant
                        k <= NUM_KEYS,
                        self@ == s0,
                        s0.wf(),
                        first_pressed(s0.keys, 0) == first_pressed(s0.keys, k as int),
                    decreases NUM_KEYS - k,
                {
                    k += 1;
                }
                if k < NUM_KEYS {
                    self.v_regs[x] = k as u8;
                } else {
                    self.pc -= 2;
                }
            },
            0x15 => {
                self.delay_timer = vx;
            },
            0x18 => {
                self.sound_timer = vx;
            },
            0x1E => {
                self.i_reg = self.i_reg.wrapping_add(vx as u16);
            },
            0x29 => {
                self.i_reg = GLYPH_SIZE * vx as u16;
            },
            0x33 => {
                let at: usize = self.i_reg as usize;
                self.ram[at] = vx / 100;
                self.ram[at + 1] = (vx / 10) % 10;
                self.ram[at + 2] = vx % 10;
            },
            0x55 => {
                let at: usize = self.i_reg as usize;
                let mut idx: usize = 0;
                while idx <= x
                    invariant
                        idx <= x + 1,
                        x < NUM_REGS,
                        at == s0.i_reg,
                        at + x < RAM_SIZE,
                        s0.wf(),
                        self@ == (State { ram: self@.ram, ..s0 }),
                        forall|a: int|
                            0 <= a < RAM_SIZE ==> self@.ram[a] == if at <= a < at + idx {
                                s0.v_regs[a - at]
                            } else {
                                s0.ram[a]
                            },
                    decreases x + 1 - idx,
                {
                    self.ram[at + idx] = self.v_regs[idx];
                    idx += 1;
                }
                assert(self@.ram =~= misc(s0, x as int, lo as int).ram);
            },
            0x65 => {
                let at: usize = self.i_reg as usize;
                let mut idx: usize = 0;
                while idx <= x
                    invariant
                        idx <= x + 1,
                        x < NUM_REGS,
                        at == s0.i_reg,
                        at + x < RAM_SIZE,
                        s0.wf(),
                        self@ == (State { v_regs: self@.v_regs, ..s0 }),
                        forall|k: int|
                            0 <= k < NUM_REGS ==> self@.v_regs[k] == if k < idx {
                                s0.ram[at + k]
                            } else {
                                s0.v_regs[k]
                            },
                    decreases x + 1 - idx,
                {
                    self.v_regs[idx] = self.ram[at + idx];
                    idx += 1;
                }
                assert(self@.v_regs =~= misc(s0, x as int, lo as int).v_regs);
            },
            _ => {},
        }
    }

    /// Executes instruction `opcode`, with `rnd` as the byte that the random
    /// instruction `CXnn` masks; no other instruction looks at `rnd`.
    pub fn execute_with(&mut self, opcode: u16, rnd: u8)
        requires
            old(self).wf(),
            can_step(old(self)@, opcode),
        ensures
            final(self).wf(),
            final(self)@ == step(old(self)@, opcode, rnd),
    {
        let ghost s0 = self@;
        let digit1: u16 = (opcode & 0xF000) >> 12;
        let digit2: u16 = (opcode & 0x0F00) >> 8;
        let digit3: u16 = (opcode & 0x00F0) >> 4;
        let digit4: u16 = opcode & 0x000F;
        let addr: u16 = opcode & 0x0FFF;
        let byte: u8 = (opcode & 0x00FF) as u8;
        proof {
            assert((opcode & 0xF000) >> 12 == opcode / 4096) by (bit_vector);
            assert((opcode & 0x0F00) >> 8 == (opcode / 256) % 16) by (bit_vector);
            assert((opcode & 0x00F0) >> 4 == (opcode / 16) % 16) by (bit_vector);
            assert(opcode & 0x000F == opcode % 16) by (bit_vector);
            assert(opcode & 0x0FFF == opcode % 4096) by (bit_vector);
            assert(opcode & 0x00FF == opcode % 256) by (bit_vector);
            assert(digit1 == d1(opcode) && digit2 == d2(opcode) && digit3 == d3(opcode) && digit4
                == d4(opcode));
            assert(addr == nnn(opcode) && byte == nn(opcode));
        }
        let x: usize = digit2 as usize;
        let y: usize = digit3 as usize;
        let vx: u8 = self.v_regs[x];
        let vy: u8 = self.v_regs[y];
        match (digit1, digit2, digit3, digit4) {
            (0, 0, 0, 0) => {},
            (0, 0, 0xE, 0) => {
                self.screen = [false; SCREEN_SIZE];
                assert(self@.screen =~= step(s0, opcode, rnd).screen);
            },
            (0, 0, 0xE, 0xE) => {
                let target: u16 = self.pop();
                self.pc = target;
            },
            (1, _, _, _) => {
                self.pc = addr;
            },
            (2, _, _, _) => {
                let back: u16 = self.pc;
                self.push(back);
                self.pc = addr;
            },
            (3, _, _, _) => {
                if vx == byte {
                    self.pc += 2;
                }
            },
            (4, _, _, _) => {
                if vx != byte {
                    self.pc += 2;
                }
            },
            (5, _, _, 0) => {
                if vx == vy {
                    self.pc += 2;
                }
            },
            (6, _, _, _) => {
                self.v_regs[x] = byte;
            },
            (7, _, _, _) => {
                self.v_regs[x] = vx.wrapping_add(byte);
            },
            (8, _, _, _) => {
                self.alu(x, y, digit4);
            },
            (9, _, _, 0) => {
                if vx != vy {
                    self.pc += 2;
                }
            },
            (0xA, _, _, _) => {
                self.i_reg = addr;
            },
            (0xB, _, _, _) => {
                self.pc = addr + self.v_regs[0] as u16;
            },
            (0xC, _, _, _) => {
                self.v_regs[x] = rnd & byte;
            },
            (0xD, _, _, _) => {
                self.draw_sprite(vx, vy, digit4);
            },
            (0xE, _, 9, 0xE) => {
                if self.keys[vx as usize] {
                    self.pc += 2;
                }
            },
            (0xE, _, 0xA, 1) => {
                if !self.keys[vx as usize] {
                    self.pc += 2;
                }
            },
            (0xF, _, _, _) => {
                self.misc(x, byte);
            },
            _ => {},
        }
    }

    /// Executes instruction `opcode`; the random instruction `CXnn` takes
    /// its byte from the random source.
    pub fn execute(&mut self, opcode: u16)
        requires
            old(self).wf(),
            can_step(old(self)@, opcode),
        ensures
            final(self).wf(),
            exists|rnd: u8| final(self)@ == #[trigger] step(old(self)@, opcode, rnd),
            d1(opcode) != 0xC ==> forall|rnd: u8|
                final(self)@ == #[trigger] step(old(self)@, opcode, rnd),
    {
        let rnd: u8 = if opcode >> 12 == 0xC {
            random_byte()
        } else {
            0
        };
        assert(opcode >> 12 == opcode / 4096) by (bit_vector);
        self.execute_with(opcode, rnd);
    }

    /// Runs one cycle with `rnd` in place of the random source: fetches the
    /// instruction at the program counter, moves the program counter past
    /// it and executes it.
    pub fn tick_with(&mut self, rnd: u8)
        requires
            old(self).wf(),
            can_cycle(old(self)@),
        ensures
            final(self).wf(),
            final(self)@ == cycle(old(self)@, rnd),
    {
        let opcode: u16 = self.fetch();
        self.execute_with(opcode, rnd);
    }

    /// Runs one cycle: fetches the instruction at the program counter, moves
    /// the program counter past it and executes it.
    pub fn tick(&mut self)
        requires
            old(self).wf(),
            can_cycle(old(self)@),
        ensures
            final(self).wf(),
            exists|rnd: u8| final(self)@ == #[trigger] cycle(old(self)@, rnd),
            d1(fetch_word(old(self)@)) != 0xC ==> forall|rnd: u8|
                final(self)@ == #[trigger] cycle(old(self)@, rnd),
    {
        let ghost s0 = self@;
        let opcode: u16 = self.fetch();
        self.execute(opcode);
        proof {
            let rnd = choose|rnd: u8| self@ == #[trigger] step(advance(s0), opcode, rnd);
            assert(self@ == cycle(s0, rnd));
            if d1(opcode) != 0xC {
                assert forall|r: u8| self@ == #[trigger] cycle(s0, r) by {
                    assert(self@ == step(advance(s0), opcode, r));
                }
            }
        }
    }

    /// Whether `opcode` could be executed if the program counter were `pc`.
    fn step_in_bounds(&self, opcode: u16, pc: u16) -> (r: bool)
        requires
            self.wf(),
        ensures
            r == can_step((State { pc, ..self@ }), opcode),
    {
        if !is_implemented(opcode) {
            return false;
        }
        let d: u16 = opcode / 4096;
        let x: usize = ((opcode / 256) % 16) as usize;
        let n: usize = (opcode % 16) as usize;
        let lo: u16 = opcode % 256;
        let i: usize = self.i_reg as usize;
        if opcode == 0x00EE {
            self.sp > 0
        } else if d == 2 {
            self.sp < 16
        } else if d == 3 || d == 4 || d == 5 || d == 9 {
            pc <= u16::MAX - 2
        } else if d == 0xD {
            n == 0 || i + n <= RAM_SIZE
        } else if d == 0xE {
            pc <= u16::MAX - 2 && (self.v_regs[x] as usize) < NUM_KEYS
        } else if d == 0xF && lo == 0x0A {
            pc >= 2
        } else if d == 0xF && lo == 0x33 {
            i + 2 < RAM_SIZE
        } else if d == 0xF && (lo == 0x55 || lo == 0x65) {
            i + x < RAM_SIZE
        } else {
            true
        }
    }

    /// Whether `opcode` can be executed in the machine's present state.
    pub fn can_execute(&self, opcode: u16) -> (r: bool)
        requires
            self.wf(),
        ensures
            r == can_step(self@, opcode),
    {
        self.step_in_bounds(opcode, self.pc)
    }

    /// What stops the next cycle, if anything does.
    pub fn next_fault(&self) -> (r: Option<Fault>)
        requires
            self.wf(),
        ensures
            r == fault(self@),
            r is None <==> can_cycle(self@),
    {
        if self.pc as usize + 1 >= RAM_SIZE {
            return Some(Fault::OutOfBounds);
        }
        let hi: u16 = self.ram[self.pc as usize] as u16;
        let lo: u16 = self.ram[self.pc as usize + 1] as u16;
        let opcode: u16 = hi * 256 + lo;
        if !is_implemented(opcode) {
            Some(Fault::BadOpcode)
        } else if !self.step_in_bounds(opcode, self.pc + 2) {
            Some(Fault::OutOfBounds)
        } else {
            None
        }
    }

    /// Runs one cycle if it can run, and says what stops it if it cannot;
    /// a machine that is stopped is left as it was.
    pub fn try_tick(&mut self) -> (r: Result<(), Fault>)
        requires
            old(self).wf(),
        ensures
            final(self).wf(),
            match r {
                Ok(_) => {
                    &&& fault(old(self)@) is None
                    &&& exists|rnd: u8| final(self)@ == #[trigger] cycle(old(self)@, rnd)
                    &&& d1(fetch_word(old(self)@)) != 0xC ==> forall|rnd: u8|
                        final(self)@ == #[trigger] cycle(old(self)@, rnd)
                },
                Err(f) => fault(old(self)@) == Some(f) && final(self)@ == old(self)@,
            },
    {
        match self.next_fault() {
            Some(f) => Err(f),
            None => {
                self.tick();
                Ok(())
            },
        }
    }

    /// Address of the next instruction.
    pub fn pc(&self) -> (r: u16)
        ensures
            r == self@.pc,
    {
        self.pc
    }

    /// Value of register `x`.
    pub fn register(&self, x: usize) -> (r: u8)
        requires
            self.wf(),
            x < NUM_REGS,
        ensures
            r == self@.v_regs[x as int],
    {
        self.v_regs[x]
    }

    /// Value of the index register.
    pub fn index(&self) -> (r: u16)
        ensures
            r == self@.i_reg,
    {
        self.i_reg
    }

    /// Number of return addresses on the call stack.
    pub fn stack_depth(&self) -> (r: u16)
        ensures
            r == self@.sp,
    {
        self.sp
    }

    /// The call stack's sixteen slots; those at `stack_depth()` and above
    /// are stale.
    pub fn stack(&self) -> (r: &[u16])
        ensures
            r@ == self@.stack,
    {
        self.stack.as_slice()
    }

    /// The whole of memory.
    pub fn memory(&self) -> (r: &[u8])
        ensures
            r@ == self@.ram,
    {
        self.ram.as_slice()
    }

    /// Whether key `key_index` is held down.
    pub fn key(&self, key_index: usize) -> (r: bool)
        requires
            self.wf(),
            key_index < NUM_KEYS,
        ensures
            r == self@.keys[key_index as int],
    {
        self.keys[key_index]
    }

    /// Value of the delay timer.
    pub fn delay_timer(&self) -> (r: u8)
        ensures
            r == self@.delay_timer,
    {
        self.delay_timer
    }

    /// Value of the sound timer; a tone sounds while it is not zero.
    pub fn sound_timer(&self) -> (r: u8)
        ensures
            r == self@.sound_timer,
    {
        self.sound_timer
    }
}

/// Two machines with the same model are the same machine, field for field.
pub proof fn lemma_same_view_same_machine(a: Emu, b: Emu)
    requires
        a@ == b@,
    ensures
        a == b,
{
    assert(a.ram =~= b.ram);
    assert(a.screen =~= b.screen);
    assert(a.v_regs =~= b.v_regs);
    assert(a.stack =~= b.stack);
    assert(a.keys =~= b.keys);
}

/// Whether `opcode` is one of the instructions the machine knows.
pub fn is_implemented(opcode: u16) -> (r: bool)
    ensures
        r == implemented(opcode),
{
    let d: u16 = opcode / 4096;
    let n: u16 = opcode % 16;
    let lo: u16 = opcode % 256;
    opcode == 0x0000 || opcode == 0x00E0 || opcode == 0x00EE || (1 <= d && d <= 4) || (d == 5 && n
        == 0) || d == 6 || d == 7 || (d == 8 && (n <= 7 || n == 0xE)) || (d == 9 && n == 0) || (0xA
        <= d && d <= 0xD) || (d == 0xE && (lo == 0x9E || lo == 0xA1)) || (d == 0xF && (lo == 0x07
        || lo == 0x0A || lo == 0x15 || lo == 0x18 || lo == 0x1E || lo == 0x29 || lo == 0x33 || lo
        == 0x55 || lo == 0x65))
}

/// When the part of a sprite before `(r2, c2)` toggles what the part before
/// `(r1, c1)` toggles, and beyond that at most cell `at`, then it collides
/// exactly if the smaller part collides or `at` is toggled while on.
proof fn lemma_collision_grows(
    screen: Seq<bool>,
    ram: Seq<u8>,
    i: int,
    x0: int,
    y0: int,
    r1: int,
    c1: int,
    r2: int,
    c2: int,
    at: int,
)
    requires
        0 <= at < screen.len(),
        toggled_before(ram, i, x0, y0, r1, c1, at) ==> toggled_before(ram, i, x0, y0, r2, c2, at),
        forall|k: int|
            0 <= k < screen.len() && k != at ==> toggled_before(ram, i, x0, y0, r2, c2, k)
                == toggled_before(ram, i, x0, y0, r1, c1, k),
    ensures
        collides_before(screen, ram, i, x0, y0, r2, c2) == (collides_before(
            screen,
            ram,
            i,
            x0,
            y0,
            r1,
            c1,
        ) || (screen[at] && toggled_before(ram, i, x0, y0, r2, c2, at))),
{
    if collides_before(screen, ram, i, x0, y0, r1, c1) {
        let k = choose|k: int|
            0 <= k < screen.len() && screen[k] && #[trigger] toggled_before(
                ram,
                i,
                x0,
                y0,
                r1,
                c1,
                k,
            );
        assert(toggled_before(ram, i, x0, y0, r2, c2, k));
    }
    if collides_before(screen, ram, i, x0, y0, r2, c2) {
        let k = choose|k: int|
            0 <= k < screen.len() && screen[k] && #[trigger] toggled_before(
                ram,
                i,
                x0,
                y0,
                r2,
                c2,
                k,
            );
        if k != at {
            assert(toggled_before(ram, i, x0, y0, r1, c1, k));
        }
    }
}

/// Sprite pixel `(c, r)` of a sprite whose top-left corner is at `(x0, y0)`
/// falls on the display cell that the draw loop computes for it.
proof fn lemma_cell_of_sprite_pixel(x0: int, y0: int, r: int, c: int)
    requires
        0 <= x0 < 256,
        0 <= y0 < 256,
        0 <= r < 16,
        0 <= c < 8,
    ensures
        sprite_col(x0, (x0 + c) % 64 + 64 * ((y0 + r) % 32)) == c,
        sprite_row(y0, (x0 + c) % 64 + 64 * ((y0 + r) % 32)) == r,
{
    let x = (x0 + c) % 64;
    let y = (y0 + r) % 32;
    let k = x + 64 * y;
    assert(k % 64 == x && k / 64 == y);
    assert((x - x0) % 64 == c);
    assert((y - y0) % 32 == r);
}

/// A display cell on which sprite pixel `(c, r)` falls is the one that the
/// draw loop computes for that pixel.
proof fn lemma_sprite_pixel_of_cell(x0: int, y0: int, r: int, c: int, k: int)
    requires
        0 <= x0 < 256,
        0 <= y0 < 256,
        0 <= r < 16,
        0 <= c < 8,
        0 <= k < SCREEN_SIZE,
        sprite_col(x0, k) == c,
        sprite_row(y0, k) == r,
    ensures
        k == (x0 + c) % 64 + 64 * ((y0 + r) % 32),
{
    let kx = k % 64;
    let ky = k / 64;
    assert(k == kx + 64 * ky);
    assert(0 <= ky < 32);
    assert((kx - x0) % 64 == c);
    assert((ky - y0) % 32 == r);
    assert(kx == (x0 + c) % 64);
    assert(ky == (y0 + r) % 32);
}

} // verus!
