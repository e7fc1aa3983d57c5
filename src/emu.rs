use vstd::prelude::*;
use crate::draw::{cell_at, collides, covered_before, covers, drawn, lemma_cell_at};
use crate::state::{
    execute_spec, step, uses_random, draw_spec, alu_spec, byte_nn, reg_x, is_lowest_pressed, load_regs, lowest_pressed, misc_spec, store_regs, FLAG_REG,
    can_fetch, fetched, fits, font, initial_state, load_spec, EmuError, EmuState, FONTSET_SIZE, NUM_KEYS, NUM_REGS,
    RAM_SIZE, SCREEN_CELLS, STACK_SIZE, START_ADDR,
};

verus! {

/// The machine: registers, memory, stack, keypad, framebuffer and timers.
pub struct Emu {
    pc: u16,
    ram: [u8; RAM_SIZE],
    screen: [bool; SCREEN_CELLS],
    v_regs: [u8; NUM_REGS],
    i_reg: u16,
    sp: u16,
    stack: [u16; STACK_SIZE],
    keys: [bool; NUM_KEYS],
    delay_timer: u8,
    sound_timer: u8,
}

impl View for Emu {
    type V = EmuState;

    closed spec fn view(&self) -> EmuState {
        EmuState {
            pc: self.pc,
            ram: self.ram@,
            screen: self.screen@,
            v: self.v_regs@,
            i: self.i_reg,
            sp: self.sp,
            stack: self.stack@,
            keys: self.keys@,
            delay: self.delay_timer,
            sound: self.sound_timer,
        }
    }
}

impl Emu {
    #[verifier::type_invariant]
    spec fn inv(&self) -> bool {
        self.sp <= STACK_SIZE
    }

    pub fn new() -> (r: Self)
        ensures
            r@ == initial_state(),
    {
        let glyphs: Vec<u8> = vec![
            0xF0, 0x90, 0x90, 0x90, 0xF0,
            0x20, 0x60, 0x20, 0x20, 0x70,
            0xF0, 0x10, 0xF0, 0x80, 0xF0,
            0xF0, 0x10, 0xF0, 0x10, 0xF0,
            0x90, 0x90, 0xF0, 0x10, 0x10,
            0xF0, 0x80, 0xF0, 0x10, 0xF0,
            0xF0, 0x80, 0xF0, 0x90, 0xF0,
            0xF0, 0x10, 0x20, 0x40, 0x40,
            0xF0, 0x90, 0xF0, 0x90, 0xF0,
            0xF0, 0x90, 0xF0, 0x10, 0xF0,
            0xF0, 0x90, 0xF0, 0x90, 0x90,
            0xE0, 0x90, 0xE0, 0x90, 0xE0,
            0xF0, 0x80, 0x80, 0x80, 0xF0,
            0xE0, 0x90, 0x90, 0x90, 0xE0,
            0xF0, 0x80, 0xF0, 0x80, 0xF0,
            0xF0, 0x80, 0xF0, 0x80, 0x80,
        ];
        assert(glyphs@ =~= font());
        let mut ram = [0u8; RAM_SIZE];
        let mut a: usize = 0;
        while a < FONTSET_SIZE
            invariant
                a <= FONTSET_SIZE,
                glyphs@ == font(),
                forall|k: int| 0 <= k < a ==> ram@[k] == font()[k],
                forall|k: int| a <= k < RAM_SIZE ==> ram@[k] == 0u8,
            decreases FONTSET_SIZE - a,
        {
            ram[a] = glyphs[a];
            a += 1;
        }
        let r = Emu {
            pc: START_ADDR,
            ram,
            screen: [false; SCREEN_CELLS],
            v_regs: [0u8; NUM_REGS],
            i_reg: 0,
            sp: 0,
            stack: [0u16; STACK_SIZE],
            keys: [false; NUM_KEYS],
            delay_timer: 0,
            sound_timer: 0,
        };
        assert(r@.ram =~= initial_state().ram);
        assert(r@.screen =~= initial_state().screen);
        assert(r@.v =~= initial_state().v);
        assert(r@.stack =~= initial_state().stack);
        assert(r@.keys =~= initial_state().keys);
        r
    }

    /// The framebuffer, row-major, 64 cells per row.
    pub fn get_display(&self) -> (r: &[bool])
        ensures
            r@ == self@.screen,
    {
        self.screen.as_slice()
    }

    /// The program counter.
    pub fn pc(&self) -> (r: u16)
        ensures
            r == self@.pc,
    {
        self.pc
    }

    /// General register `x`.
    pub fn register(&self, x: usize) -> (r: u8)
        requires
            x < NUM_REGS,
        ensures
            r == self@.v[x as int],
    {
        self.v_regs[x]
    }

    /// The index register.
    pub fn index(&self) -> (r: u16)
        ensures
            r == self@.i,
    {
        self.i_reg
    }

    /// The number of entries on the call stack.
    pub fn stack_pointer(&self) -> (r: u16)
        ensures
            r == self@.sp,
    {
        self.sp
    }

    /// The byte of memory at `addr`.
    pub fn memory(&self, addr: usize) -> (r: u8)
        requires
            addr < RAM_SIZE,
        ensures
            r == self@.ram[addr as int],
    {
        self.ram[addr]
    }

    /// The delay timer.
    pub fn delay_timer(&self) -> (r: u8)
        ensures
            r == self@.delay,
    {
        self.delay_timer
    }

    /// The sound timer.
    pub fn sound_timer(&self) -> (r: u8)
        ensures
            r == self@.sound,
    {
        self.sound_timer
    }

    /// Sets whether key `idx` is held down.
    pub fn keypress(&mut self, idx: usize, pressed: bool)
        requires
            idx < NUM_KEYS,
        ensures
            final(self)@ == (EmuState { keys: old(self)@.keys.update(idx as int, pressed), ..old(self)@ }),
    {
        proof { use_type_invariant(&*self); }
        self.keys[idx] = pressed;
    }

    /// Copies a program image to the start address. An image that does not
    /// fit is refused before any byte is written.
    pub fn load(&mut self, data: &[u8]) -> (r: Result<(), EmuError>)
        ensures
            fits(data@) ==> r is Ok && final(self)@ == (EmuState { ram: load_spec(old(self)@.ram, data@), ..old(self)@ }),
            !fits(data@) ==> r == Err::<(), EmuError>(EmuError::ProgramTooLarge) && final(self)@ == old(self)@,
    {
        proof { use_type_invariant(&*self); }
        let start = START_ADDR as usize;
        if data.len() > RAM_SIZE - start {
            return Err(EmuError::ProgramTooLarge);
        }
        let ghost ram0 = self.ram@;
        let mut k: usize = 0;
        while k < data.len()
            invariant
                start == START_ADDR,
                start + data@.len() <= RAM_SIZE,
                k <= data@.len(),
                self.ram@.len() == RAM_SIZE,
                ram0.len() == RAM_SIZE,
                old(self).sp <= STACK_SIZE,
                forall|a: int| 0 <= a < RAM_SIZE ==> self.ram@[a] == (
                    if start <= a < start + k { data@[a - start] } else { ram0[a] }),
                self.pc == old(self).pc,
                self.screen == old(self).screen,
                self.v_regs == old(self).v_regs,
                self.i_reg == old(self).i_reg,
                self.sp == old(self).sp,
                self.stack == old(self).stack,
                self.keys == old(self).keys,
                self.delay_timer == old(self).delay_timer,
                self.sound_timer == old(self).sound_timer,
            decreases data@.len() - k,
        {
            self.ram[start + k] = data[k];
            k += 1;
        }
        assert(self@.ram =~= load_spec(ram0, data@));
        Ok(())
    }

    /// Counts both timers down by one toward zero. Returns whether the sound
    /// timer ran out on this call, which is when a beep is due.
    pub fn tick_timers(&mut self) -> (beep: bool)
        ensures
            beep == (old(self)@.sound == 1),
            final(self)@ == (EmuState {
                delay: if old(self)@.delay > 0 { (old(self)@.delay - 1) as u8 } else { 0 },
                sound: if old(self)@.sound > 0 { (old(self)@.sound - 1) as u8 } else { 0 },
                ..old(self)@
            }),
    {
        proof { use_type_invariant(&*self); }
        if self.delay_timer > 0 {
            self.delay_timer -= 1;
        }
        let beep = self.sound_timer == 1;
        if self.sound_timer > 0 {
            self.sound_timer -= 1;
        }
        beep
    }

    /// Reads the instruction word at the program counter and moves past it.
    fn fetch(&mut self) -> (r: Result<u16, EmuError>)
        ensures
            can_fetch(old(self)@) ==> r == Ok::<u16, EmuError>(fetched(old(self)@))
                && final(self)@ == (EmuState { pc: (old(self)@.pc + 2) as u16, ..old(self)@ }),
            !can_fetch(old(self)@) ==> r == Err::<u16, EmuError>(EmuError::OutOfBounds)
                && final(self)@ == old(self)@,
    {
        proof { use_type_invariant(&*self); }
        let pc = self.pc as usize;
        if pc + 1 >= RAM_SIZE {
            return Err(EmuError::OutOfBounds);
        }
        let hi = self.ram[pc] as u16;
        let lo = self.ram[pc + 1] as u16;
        let op: u16 = hi * 256 + lo;
        self.pc += 2;
        Ok(op)
    }

    /// Pushes a return address onto the call stack.
    fn push(&mut self, val: u16) -> (r: Result<(), EmuError>)
        ensures
            old(self)@.sp < STACK_SIZE ==> r is Ok && final(self)@ == (EmuState {
                stack: old(self)@.stack.update(old(self)@.sp as int, val),
                sp: (old(self)@.sp + 1) as u16,
                ..old(self)@
            }),
            old(self)@.sp >= STACK_SIZE ==> r == Err::<(), EmuError>(EmuError::StackOverflow)
                && final(self)@ == old(self)@,
    {
        proof { use_type_invariant(&*self); }
        if self.sp as usize >= STACK_SIZE {
            return Err(EmuError::StackOverflow);
        }
        self.stack[self.sp as usize] = val;
        self.sp += 1;
        Ok(())
    }

    /// Pops a return address off the call stack.
    fn pop(&mut self) -> (r: Result<u16, EmuError>)
        ensures
            old(self)@.sp > 0 ==> r == Ok::<u16, EmuError>(old(self)@.stack[old(self)@.sp - 1])
                && final(self)@ == (EmuState { sp: (old(self)@.sp - 1) as u16, ..old(self)@ }),
            old(self)@.sp == 0 ==> r == Err::<u16, EmuError>(EmuError::StackUnderflow)
                && final(self)@ == old(self)@,
    {
        proof { use_type_invariant(&*self); }
        if self.sp == 0 {
            return Err(EmuError::StackUnderflow);
        }
        self.sp -= 1;
        Ok(self.stack[self.sp as usize])
    }

    /// Executes a register-to-register instruction 8XYn.
    fn execute_alu(&mut self, op: u16) -> (r: Result<(), EmuError>)
        ensures
            (final(self)@, r) == alu_spec(old(self)@, op),
    {
        proof { use_type_invariant(&*self); }
        assert(((op >> 8) & 0xF) < 16 && ((op >> 4) & 0xF) < 16) by (bit_vector);
        let x = ((op >> 8) & 0xF) as usize;
        let vx = self.v_regs[x];
        let vy = self.v_regs[((op >> 4) & 0xF) as usize];
        let n = op & 0xF;
        if n == 0 {
            self.v_regs[x] = vy;
        } else if n == 1 {
            self.v_regs[x] = vx | vy;
        } else if n == 2 {
            self.v_regs[x] = vx & vy;
        } else if n == 3 {
            self.v_regs[x] = vx ^ vy;
        } else if n == 4 {
            let sum: u16 = vx as u16 + vy as u16;
            self.v_regs[x] = (sum % 256) as u8;
            self.v_regs[FLAG_REG] = if sum > 255 { 1 } else { 0 };
        } else if n == 5 {
            self.v_regs[x] = ((vx as u16 + 256 - vy as u16) % 256) as u8;
            self.v_regs[FLAG_REG] = if vx < vy { 0 } else { 1 };
        } else if n == 6 {
            self.v_regs[x] = vx / 2;
            self.v_regs[FLAG_REG] = vx % 2;
        } else if n == 7 {
            self.v_regs[x] = ((vy as u16 + 256 - vx as u16) % 256) as u8;
            self.v_regs[FLAG_REG] = if vy < vx { 0 } else { 1 };
        } else if n == 0xE {
            self.v_regs[x] = ((vx as u16 * 2) % 256) as u8;
            self.v_regs[FLAG_REG] = vx / 128;
        } else {
            return Err(EmuError::UnsupportedInstruction(op));
        }
        Ok(())
    }

    /// Executes an instruction FXnn: timers, keypad wait, index register and
    /// register transfers to and from memory.
    fn execute_misc(&mut self, op: u16) -> (r: Result<(), EmuError>)
        requires
            old(self).pc >= 2,
        ensures
            (final(self)@, r) == misc_spec(old(self)@, op),
    {
        proof { use_type_invariant(&*self); }
        assert(((op >> 8) & 0xF) < 16) by (bit_vector);
        let x = ((op >> 8) & 0xF) as usize;
        let vx = self.v_regs[x];
        let nn = (op & 0xFF) as u8;
        if nn == 0x07 {
            self.v_regs[x] = self.delay_timer;
        } else if nn == 0x0A {
            let mut k: usize = 0;
            while k < NUM_KEYS
                invariant
                    k <= NUM_KEYS,
                    forall|j: int| 0 <= j < k ==> !#[trigger] self.keys@[j],
                    self.pc == old(self).pc,
                    self.pc >= 2,
                    self.sp <= STACK_SIZE,
                    self@ == old(self)@,
                    x < NUM_REGS,
                    x as int == reg_x(op),
                    nn == byte_nn(op),
                    nn == 0x0A,
                decreases NUM_KEYS - k,
            {
                if self.keys[k] {
                    assert(is_lowest_pressed(self.keys@, k as int));
                    assert(lowest_pressed(self.keys@) == k) by {
                        let m = lowest_pressed(self.keys@);
                        assert(is_lowest_pressed(self.keys@, m));
                        if m < k {
                        } else if m > k {
                            assert(!self.keys@[k as int]);
                        }
                    }
                    self.v_regs[x] = k as u8;
                    return Ok(());
                }
                k += 1;
            }
            self.pc -= 2;
        } else if nn == 0x15 {
            self.delay_timer = vx;
        } else if nn == 0x18 {
            self.sound_timer = vx;
        } else if nn == 0x1E {
            self.i_reg = ((self.i_reg as u32 + vx as u32) % 0x10000) as u16;
        } else if nn == 0x29 {
            self.i_reg = vx as u16 * 5;
        } else if nn == 0x33 {
            let i = self.i_reg as usize;
            if i + 2 >= RAM_SIZE {
                return Err(EmuError::OutOfBounds);
            }
            self.ram[i] = vx / 100;
            self.ram[i + 1] = (vx / 10) % 10;
            self.ram[i + 2] = vx % 10;
        } else if nn == 0x55 {
            let i = self.i_reg as usize;
            if i + x >= RAM_SIZE {
                return Err(EmuError::OutOfBounds);
            }
            let ghost s0 = self@;
            let mut k: usize = 0;
            while k <= x
                invariant
                    x < NUM_REGS,
                    i == s0.i,
                    i + x < RAM_SIZE,
                    k <= x + 1,
                    self.ram@.len() == RAM_SIZE,
                    forall|a: int| 0 <= a < RAM_SIZE ==> #[trigger] self.ram@[a] == (
                        if i <= a < i + k { s0.v[a - i] } else { s0.ram[a] }),
                    self@ == (EmuState { ram: self.ram@, ..s0 }),
                    s0.sp <= STACK_SIZE,
                    s0.ram.len() == RAM_SIZE,
                    s0.v.len() == NUM_REGS,
                decreases x + 1 - k,
            {
                self.ram[i + k] = self.v_regs[k];
                k += 1;
            }
            assert(self.ram@ =~= store_regs(s0.ram, s0.v, i as int, x as int));
        } else if nn == 0x65 {
            let i = self.i_reg as usize;
            if i + x >= RAM_SIZE {
                return Err(EmuError::OutOfBounds);
            }
            let ghost s0 = self@;
            let mut k: usize = 0;
            while k <= x
                invariant
                    x < NUM_REGS,
                    i == s0.i,
                    i + x < RAM_SIZE,
                    k <= x + 1,
                    self.v_regs@.len() == NUM_REGS,
                    forall|r: int| 0 <= r < NUM_REGS ==> #[trigger] self.v_regs@[r] == (
                        if r < k { s0.ram[i + r] } else { s0.v[r] }),
                    self@ == (EmuState { v: self.v_regs@, ..s0 }),
                    s0.sp <= STACK_SIZE,
                    s0.ram.len() == RAM_SIZE,
                    s0.v.len() == NUM_REGS,
                decreases x + 1 - k,
            {
                self.v_regs[k] = self.ram[i + k];
                k += 1;
            }
            assert(self.v_regs@ =~= load_regs(s0.v, s0.ram, i as int, x as int));
        } else {
            return Err(EmuError::UnsupportedInstruction(op));
        }
        Ok(())
    }

    /// Executes the draw instruction DXYN.
    fn execute_draw(&mut self, op: u16) -> (r: Result<(), EmuError>)
        ensures
            (final(self)@, r) == draw_spec(old(self)@, op),
    {
        proof { use_type_invariant(&*self); }
        assert(((op >> 8) & 0xF) < 16 && ((op >> 4) & 0xF) < 16 && (op & 0xF) < 16) by (bit_vector);
        let x0 = self.v_regs[((op >> 8) & 0xF) as usize];
        let y0 = self.v_regs[((op >> 4) & 0xF) as usize];
        let height = op & 0xF;
        let i = self.i_reg as usize;
        if i + height as usize > RAM_SIZE {
            return Err(EmuError::OutOfBounds);
        }
        let ghost s0 = self@;
        let ghost h = height as int;
        let ghost rows = s0.ram.subrange(i as int, i + h);
        let mut flipped = false;
        let mut row: u16 = 0;
        while row < height
            invariant
                row <= height < 16,
                i + height <= RAM_SIZE,
                h == height as int,
                i == s0.i,
                rows == s0.ram.subrange(i as int, i + h),
                s0.screen.len() == SCREEN_CELLS,
                s0.ram.len() == RAM_SIZE,
                s0.sp <= STACK_SIZE,
                self.screen@.len() == SCREEN_CELLS,
                self@ == (EmuState { screen: self.screen@, ..s0 }),
                forall|c: int| 0 <= c < SCREEN_CELLS ==> #[trigger] self.screen@[c] == (s0.screen[c]
                    != covered_before(rows, h, x0, y0, c, row as int, 0)),
                flipped == exists|c: int| 0 <= c < SCREEN_CELLS && #[trigger] s0.screen[c]
                    && covered_before(rows, h, x0, y0, c, row as int, 0),
            decreases height - row,
        {
            let pixels = self.ram[i + row as usize];
            let mut col: u16 = 0;
            while col < 8
                invariant
                    row < height < 16,
                    col <= 8,
                    i + height <= RAM_SIZE,
                    h == height as int,
                    pixels == rows[row as int],
                    s0.screen.len() == SCREEN_CELLS,
                    s0.sp <= STACK_SIZE,
                    self.screen@.len() == SCREEN_CELLS,
                    self@ == (EmuState { screen: self.screen@, ..s0 }),
                    forall|c: int| 0 <= c < SCREEN_CELLS ==> #[trigger] self.screen@[c] == (s0.screen[c]
                        != covered_before(rows, h, x0, y0, c, row as int, col as int)),
                    flipped == exists|c: int| 0 <= c < SCREEN_CELLS && #[trigger] s0.screen[c]
                        && covered_before(rows, h, x0, y0, c, row as int, col as int),
                decreases 8 - col,
            {
                let ghost cell = cell_at(x0, y0, row as int, col as int);
                proof { lemma_cell_at(x0, y0, row as int, col as int); }
                let hit = pixels & (0x80u8 >> (col as u8)) != 0;
                assert(hit == covers(rows, h, x0, y0, cell));
                assert forall|c: int| 0 <= c < SCREEN_CELLS && c != cell implies
                    covered_before(rows, h, x0, y0, c, row as int, col + 1)
                        == covered_before(rows, h, x0, y0, c, row as int, col as int) by {}
                if hit {
                    let idx = (x0 as usize + col as usize) % 64 + 64 * ((y0 as usize + row as usize) % 32);
                    assert(idx == cell);
                    let was = self.screen[idx];
                    assert(was == s0.screen[cell]);
                    let ghost before_flip = flipped;
                    flipped = flipped || was;
                    self.screen[idx] = !was;
                    assert(flipped == exists|c: int| 0 <= c < SCREEN_CELLS && #[trigger] s0.screen[c]
                        && covered_before(rows, h, x0, y0, c, row as int, col + 1)) by {
                        if was {
                            assert(covered_before(rows, h, x0, y0, cell, row as int, col + 1));
                        }
                        if before_flip {
                            let w = choose|c: int| 0 <= c < SCREEN_CELLS && #[trigger] s0.screen[c]
                                && covered_before(rows, h, x0, y0, c, row as int, col as int);
                            assert(covered_before(rows, h, x0, y0, w, row as int, col + 1));
                        }
                    }
                } else {
                    assert(flipped == exists|c: int| 0 <= c < SCREEN_CELLS && #[trigger] s0.screen[c]
                        && covered_before(rows, h, x0, y0, c, row as int, col + 1)) by {
                        if flipped {
                            let w = choose|c: int| 0 <= c < SCREEN_CELLS && #[trigger] s0.screen[c]
                                && covered_before(rows, h, x0, y0, c, row as int, col as int);
                            assert(covered_before(rows, h, x0, y0, w, row as int, col + 1));
                        }
                    }
                }
                col += 1;
            }
            assert forall|c: int| 0 <= c < SCREEN_CELLS implies
                covered_before(rows, h, x0, y0, c, row as int, 8)
                    == covered_before(rows, h, x0, y0, c, row + 1, 0) by {}
            row += 1;
        }
        assert forall|c: int| 0 <= c < SCREEN_CELLS implies
            covered_before(rows, h, x0, y0, c, h, 0) == covers(rows, h, x0, y0, c) by {}
        assert(self.screen@ =~= drawn(s0.screen, rows, h, x0, y0));
        assert(flipped == collides(s0.screen, rows, h, x0, y0));
        self.v_regs[FLAG_REG] = if flipped { 1 } else { 0 };
        Ok(())
    }

    /// Executes one instruction word that has already been fetched, with
    /// `rnd` as the random byte of the random instruction.
    fn execute(&mut self, op: u16, rnd: u8) -> (r: Result<(), EmuError>)
        requires
            2 <= old(self).pc <= RAM_SIZE,
        ensures
            (final(self)@, r) == execute_spec(old(self)@, op, rnd),
    {
        proof { use_type_invariant(&*self); }
        assert(((op >> 8) & 0xF) < 16 && ((op >> 4) & 0xF) < 16) by (bit_vector);
        assert(op >> 12 < 16 && op & 0xFFF <= 0xFFF) by (bit_vector);
        let kind = op >> 12;
        let x = ((op >> 8) & 0xF) as usize;
        let vx = self.v_regs[x];
        let vy = self.v_regs[((op >> 4) & 0xF) as usize];
        let nn = (op & 0xFF) as u8;
        let nnn = op & 0xFFF;
        if op == 0x0000 {
        } else if op == 0x00E0 {
            self.screen = [false; SCREEN_CELLS];
            assert(self.screen@ =~= Seq::new(SCREEN_CELLS as nat, |c: int| false));
        } else if op == 0x00EE {
            let ret = self.pop()?;
            self.pc = ret;
        } else if kind == 1 {
            self.pc = nnn;
        } else if kind == 2 {
            self.push(self.pc)?;
            self.pc = nnn;
        } else if kind == 3 {
            if vx == nn {
                self.pc += 2;
            }
        } else if kind == 4 {
            if vx != nn {
                self.pc += 2;
            }
        } else if kind == 5 && op & 0xF == 0 {
            if vx == vy {
                self.pc += 2;
            }
        } else if kind == 6 {
            self.v_regs[x] = nn;
        } else if kind == 7 {
            self.v_regs[x] = ((vx as u16 + nn as u16) % 256) as u8;
        } else if kind == 8 {
            return self.execute_alu(op);
        } else if kind == 9 && op & 0xF == 0 {
            if vx != vy {
                self.pc += 2;
            }
        } else if kind == 0xA {
            self.i_reg = nnn;
        } else if kind == 0xB {
            self.pc = self.v_regs[0] as u16 + nnn;
        } else if kind == 0xC {
            self.v_regs[x] = rnd & nn;
        } else if kind == 0xD {
            return self.execute_draw(op);
        } else if kind == 0xE && (nn == 0x9E || nn == 0xA1) {
            if vx as usize >= NUM_KEYS {
                return Err(EmuError::OutOfBounds);
            }
            let pressed = self.keys[vx as usize];
            if (nn == 0x9E && pressed) || (nn == 0xA1 && !pressed) {
                self.pc += 2;
            }
        } else if kind == 0xF {
            return self.execute_misc(op);
        } else {
            return Err(EmuError::UnsupportedInstruction(op));
        }
        Ok(())
    }

    /// Runs one fetch-decode-execute cycle, with `rnd` as the byte that the
    /// random instruction combines with its mask. On an error the machine is
    /// left as it was after the fetch (or untouched, when the fetch failed).
    pub fn tick_with(&mut self, rnd: u8) -> (r: Result<(), EmuError>)
        ensures
            (final(self)@, r) == step(old(self)@, rnd),
    {
        let op = self.fetch()?;
        self.execute(op, rnd)
    }

    /// Runs one fetch-decode-execute cycle, drawing a random byte from the
    /// thread-local generator when the instruction is the random one.
    pub fn tick(&mut self) -> (r: Result<(), EmuError>)
        ensures
            exists|rnd: u8| (final(self)@, r) == step(old(self)@, rnd),
            !(can_fetch(old(self)@) && uses_random(fetched(old(self)@)))
                ==> (final(self)@, r) == step(old(self)@, 0),
    {
        let op = match self.fetch() {
            Ok(op) => op,
            Err(e) => {
                assert((self@, Err::<(), EmuError>(e)) == step(old(self)@, 0));
                return Err(e);
            },
        };
        let rnd = if op >> 12 == 0xC { random_byte() } else { 0 };
        let r = self.execute(op, rnd);
        assert((self@, r) == step(old(self)@, rnd));
        r
    }
}

/// Relies on rand::random::<u8>: a byte from the thread-local generator.
/// Nothing is known of its value.
#[verifier::external_body]
fn random_byte() -> (r: u8) {
    rand::random::<u8>()
}

} // verus!
