use vstd::prelude::*;
use crate::draw::{collides, drawn};

verus! {

/// Width of the framebuffer in cells.
pub const SCREEN_WIDTH: usize = 64;

/// Height of the framebuffer in cells.
pub const SCREEN_HEIGHT: usize = 32;

/// Number of framebuffer cells, stored row-major.
pub const SCREEN_CELLS: usize = 2048;

/// Bytes of memory.
pub const RAM_SIZE: usize = 4096;

/// General registers; the last one is the flag register.
pub const NUM_REGS: usize = 16;

/// Entries of the call stack.
pub const STACK_SIZE: usize = 16;

/// Keys of the keypad.
pub const NUM_KEYS: usize = 16;

/// Where programs are loaded and where execution starts.
pub const START_ADDR: u16 = 0x200;

/// Bytes taken by the built-in font (16 glyphs of 5 bytes).
pub const FONTSET_SIZE: usize = 80;

/// Index of the flag register.
pub const FLAG_REG: usize = 15;

/// Errors reported by the machine instead of corrupting its state.
#[derive(Debug, Clone, Copy, PartialEq, Eq, Structural)]
pub enum EmuError {
    /// A program image larger than the memory above the start address.
    ProgramTooLarge,
    /// An instruction word that matches no instruction of the set.
    UnsupportedInstruction(u16),
    /// A call with all sixteen stack entries in use.
    StackOverflow,
    /// A return with an empty stack.
    StackUnderflow,
    /// A memory or keypad access outside its fixed bounds.
    OutOfBounds,
}

/// The abstract state of the machine.
pub struct EmuState {
    pub pc: u16,
    pub ram: Seq<u8>,
    pub screen: Seq<bool>,
    pub v: Seq<u8>,
    pub i: u16,
    pub sp: u16,
    pub stack: Seq<u16>,
    pub keys: Seq<bool>,
    pub delay: u8,
    pub sound: u8,
}

impl EmuState {
    /// Every sequence has its fixed size and the stack pointer is in range.
    pub open spec fn wf(self) -> bool {
        &&& self.ram.len() == RAM_SIZE
        &&& self.screen.len() == SCREEN_CELLS
        &&& self.v.len() == NUM_REGS
        &&& self.stack.len() == STACK_SIZE
        &&& self.keys.len() == NUM_KEYS
        &&& self.sp <= STACK_SIZE
    }
}

/// The glyphs of the hexadecimal digits 0 to F, five rows each.
pub open spec fn font() -> Seq<u8> {
    seq![
        0xF0u8, 0x90, 0x90, 0x90, 0xF0,
        0x20, 0x60, 0x20, 0x20, 0x70,
        0xF0, 0x10, 0xF0, 0x80, 0xF0,
        0xF0, 0x10, 0xF0, 0x10, 0xF0,
        0x90, 0x90, 0xF0, 0x10, 0x10,
        0xF0, 0x80, 0xF0, 0x10, 0xF0,
        0xF0, 0x80, 0xF0, 0x90, 0xF0,
        0xF0, 0x10, 0x20, 0x40, 0x40,
        0xF0, 0x90, 0xF0, 0x90, 0xF0,
        0xF0, 0x90, 0xF0, 0x10, 0xF0,
        0xF0, 0x90, 0xF0, 0x90, 0x90,
        0xE0, 0x90, 0xE0, 0x90, 0xE0,
        0xF0, 0x80, 0x80, 0x80, 0xF0,
        0xE0, 0x90, 0x90, 0x90, 0xE0,
        0xF0, 0x80, 0xF0, 0x80, 0xF0,
        0xF0, 0x80, 0xF0, 0x80, 0x80,
    ]
}

/// The state of a freshly built machine: font at address 0, everything
/// else zero, execution at the start address.
pub open spec fn initial_state() -> EmuState {
    EmuState {
        pc: START_ADDR,
        ram: Seq::new(RAM_SIZE as nat, |a: int| if a < FONTSET_SIZE { font()[a] } else { 0u8 }),
        screen: Seq::new(SCREEN_CELLS as nat, |c: int| false),
        v: Seq::new(NUM_REGS as nat, |r: int| 0u8),
        i: 0,
        sp: 0,
        stack: Seq::new(STACK_SIZE as nat, |k: int| 0u16),
        keys: Seq::new(NUM_KEYS as nat, |k: int| false),
        delay: 0,
        sound: 0,
    }
}

/// Memory after copying `data` to the start address, if it fits.
pub open spec fn load_spec(ram: Seq<u8>, data: Seq<u8>) -> Seq<u8> {
    Seq::new(
        ram.len(),
        |a: int|
            if START_ADDR <= a < START_ADDR + data.len() {
                data[a - START_ADDR]
            } else {
                ram[a]
            },
    )
}

/// Whether a program image fits between the start address and the end of memory.
pub open spec fn fits(data: Seq<u8>) -> bool {
    START_ADDR + data.len() <= RAM_SIZE
}

/// Register named by the second nibble of an instruction word.
pub open spec fn reg_x(op: u16) -> int {
    ((op >> 8) & 0xF) as int
}

/// Register named by the third nibble of an instruction word.
pub open spec fn reg_y(op: u16) -> int {
    ((op >> 4) & 0xF) as int
}

/// Low byte of an instruction word.
pub open spec fn byte_nn(op: u16) -> u8 {
    (op & 0xFF) as u8
}

/// Low twelve bits of an instruction word.
pub open spec fn addr_nnn(op: u16) -> u16 {
    op & 0xFFF
}

/// Outcome of an instruction that succeeded.
pub open spec fn done(s: EmuState) -> (EmuState, Result<(), EmuError>) {
    (s, Ok(()))
}

/// Outcome of an instruction that failed and left the machine as it was.
pub open spec fn fail(s: EmuState, e: EmuError) -> (EmuState, Result<(), EmuError>) {
    (s, Err(e))
}

/// The program counter after an instruction that skips the next one when `cond` holds.
pub open spec fn skip_if(s: EmuState, cond: bool) -> EmuState {
    if cond {
        EmuState { pc: (s.pc + 2) as u16, ..s }
    } else {
        s
    }
}

/// Writes register `x`.
pub open spec fn set_reg(s: EmuState, x: int, val: u8) -> EmuState {
    EmuState { v: s.v.update(x, val), ..s }
}

/// Writes register `x`, then the flag register.
pub open spec fn set_reg_flag(s: EmuState, x: int, val: u8, flag: u8) -> EmuState {
    EmuState { v: s.v.update(x, val).update(FLAG_REG as int, flag), ..s }
}

/// Whether some key is held down.
pub open spec fn any_pressed(keys: Seq<bool>) -> bool {
    exists|k: int| 0 <= k < keys.len() && #[trigger] keys[k]
}

/// Whether `k` is the lowest key held down.
pub open spec fn is_lowest_pressed(keys: Seq<bool>, k: int) -> bool {
    &&& 0 <= k < keys.len()
    &&& keys[k]
    &&& forall|j: int| 0 <= j < k ==> !#[trigger] keys[j]
}

/// The lowest key held down.
pub open spec fn lowest_pressed(keys: Seq<bool>) -> int {
    choose|k: int| is_lowest_pressed(keys, k)
}

/// Memory with registers `0..=x` written from address `i` on.
pub open spec fn store_regs(ram: Seq<u8>, v: Seq<u8>, i: int, x: int) -> Seq<u8> {
    Seq::new(ram.len(), |a: int| if i <= a <= i + x { v[a - i] } else { ram[a] })
}

/// Registers with `0..=x` read from memory at address `i` on.
pub open spec fn load_regs(v: Seq<u8>, ram: Seq<u8>, i: int, x: int) -> Seq<u8> {
    Seq::new(v.len(), |r: int| if r <= x { ram[i + r] } else { v[r] })
}

/// The register-to-register instructions of the form 8XYn.
pub open spec fn alu_spec(s: EmuState, op: u16) -> (EmuState, Result<(), EmuError>) {
    let x = reg_x(op);
    let vx = s.v[x];
    let vy = s.v[reg_y(op)];
    let n = op & 0xF;
    if n == 0 {
        done(set_reg(s, x, vy))
    } else if n == 1 {
        done(set_reg(s, x, vx | vy))
    } else if n == 2 {
        done(set_reg(s, x, vx & vy))
    } else if n == 3 {
        done(set_reg(s, x, vx ^ vy))
    } else if n == 4 {
        done(set_reg_flag(s, x, ((vx + vy) % 256) as u8, if vx + vy > 255 { 1 } else { 0 }))
    } else if n == 5 {
        done(set_reg_flag(s, x, ((vx - vy + 256) % 256) as u8, if vx < vy { 0 } else { 1 }))
    } else if n == 6 {
        done(set_reg_flag(s, x, vx / 2, vx % 2))
    } else if n == 7 {
        done(set_reg_flag(s, x, ((vy - vx + 256) % 256) as u8, if vy < vx { 0 } else { 1 }))
    } else if n == 0xE {
        done(set_reg_flag(s, x, ((vx * 2) % 256) as u8, vx / 128))
    } else {
        fail(s, EmuError::UnsupportedInstruction(op))
    }
}

/// The draw instruction DXYN.
pub open spec fn draw_spec(s: EmuState, op: u16) -> (EmuState, Result<(), EmuError>) {
    let height = (op & 0xF) as int;
    let x0 = s.v[reg_x(op)];
    let y0 = s.v[reg_y(op)];
    if s.i + height > RAM_SIZE {
        fail(s, EmuError::OutOfBounds)
    } else {
        let rows = s.ram.subrange(s.i as int, s.i + height);
        done(
            EmuState {
                screen: drawn(s.screen, rows, height, x0, y0),
                v: s.v.update(
                    FLAG_REG as int,
                    if collides(s.screen, rows, height, x0, y0) { 1u8 } else { 0u8 },
                ),
                ..s
            },
        )
    }
}

/// The instructions of the form FXnn.
pub open spec fn misc_spec(s: EmuState, op: u16) -> (EmuState, Result<(), EmuError>) {
    let x = reg_x(op);
    let vx = s.v[x];
    let nn = byte_nn(op);
    if nn == 0x07 {
        done(set_reg(s, x, s.delay))
    } else if nn == 0x0A {
        if any_pressed(s.keys) {
            done(set_reg(s, x, lowest_pressed(s.keys) as u8))
        } else {
            done(EmuState { pc: (s.pc - 2) as u16, ..s })
        }
    } else if nn == 0x15 {
        done(EmuState { delay: vx, ..s })
    } else if nn == 0x18 {
        done(EmuState { sound: vx, ..s })
    } else if nn == 0x1E {
        done(EmuState { i: ((s.i + vx) % 0x10000) as u16, ..s })
    } else if nn == 0x29 {
        done(EmuState { i: (vx * 5) as u16, ..s })
    } else if nn == 0x33 {
        if s.i + 2 >= RAM_SIZE {
            fail(s, EmuError::OutOfBounds)
        } else {
            done(
                EmuState {
                    ram: s.ram.update(s.i as int, vx / 100).update(s.i + 1, (vx / 10) % 10).update(
                        s.i + 2,
                        vx % 10,
                    ),
                    ..s
                },
            )
        }
    } else if nn == 0x55 {
        if s.i + x >= RAM_SIZE {
            fail(s, EmuError::OutOfBounds)
        } else {
            done(EmuState { ram: store_regs(s.ram, s.v, s.i as int, x), ..s })
        }
    } else if nn == 0x65 {
        if s.i + x >= RAM_SIZE {
            fail(s, EmuError::OutOfBounds)
        } else {
            done(EmuState { v: load_regs(s.v, s.ram, s.i as int, x), ..s })
        }
    } else {
        fail(s, EmuError::UnsupportedInstruction(op))
    }
}

/// The effect of executing instruction word `op`, after it has been
/// fetched, where `rnd` is the random byte the random instruction uses.
pub open spec fn execute_spec(s: EmuState, op: u16, rnd: u8) -> (EmuState, Result<(), EmuError>) {
    let kind = op >> 12;
    let x = reg_x(op);
    let vx = s.v[x];
    let vy = s.v[reg_y(op)];
    let nn = byte_nn(op);
    let nnn = addr_nnn(op);
    if op == 0x0000 {
        done(s)
    } else if op == 0x00E0 {
        done(EmuState { screen: Seq::new(SCREEN_CELLS as nat, |c: int| false), ..s })
    } else if op == 0x00EE {
        if s.sp == 0 {
            fail(s, EmuError::StackUnderflow)
        } else {
            done(EmuState { pc: s.stack[s.sp - 1], sp: (s.sp - 1) as u16, ..s })
        }
    } else if kind == 1 {
        done(EmuState { pc: nnn, ..s })
    } else if kind == 2 {
        if s.sp >= STACK_SIZE {
            fail(s, EmuError::StackOverflow)
        } else {
            done(EmuState { stack: s.stack.update(s.sp as int, s.pc), sp: (s.sp + 1) as u16, pc: nnn, ..s })
        }
    } else if kind == 3 {
        done(skip_if(s, vx == nn))
    } else if kind == 4 {
        done(skip_if(s, vx != nn))
    } else if kind == 5 && op & 0xF == 0 {
        done(skip_if(s, vx == vy))
    } else if kind == 6 {
        done(set_reg(s, x, nn))
    } else if kind == 7 {
        done(set_reg(s, x, ((vx + nn) % 256) as u8))
    } else if kind == 8 {
        alu_spec(s, op)
    } else if kind == 9 && op & 0xF == 0 {
        done(skip_if(s, vx != vy))
    } else if kind == 0xA {
        done(EmuState { i: nnn, ..s })
    } else if kind == 0xB {
        done(EmuState { pc: (s.v[0] + nnn) as u16, ..s })
    } else if kind == 0xC {
        done(set_reg(s, x, rnd & nn))
    } else if kind == 0xD {
        draw_spec(s, op)
    } else if kind == 0xE && (nn == 0x9E || nn == 0xA1) {
        if vx >= NUM_KEYS {
            fail(s, EmuError::OutOfBounds)
        } else if nn == 0x9E {
            done(skip_if(s, s.keys[vx as int]))
        } else {
            done(skip_if(s, !s.keys[vx as int]))
        }
    } else if kind == 0xF {
        misc_spec(s, op)
    } else {
        fail(s, EmuError::UnsupportedInstruction(op))
    }
}

/// Whether the instruction word at the program counter lies in memory.
pub open spec fn can_fetch(s: EmuState) -> bool {
    s.pc + 1 < RAM_SIZE
}

/// The instruction word at the program counter, high byte first.
pub open spec fn fetched(s: EmuState) -> u16 {
    (s.ram[s.pc as int] * 256 + s.ram[s.pc + 1]) as u16
}

/// One fetch-decode-execute cycle: the word at the program counter is
/// read, the program counter moves past it, and the word is executed.
pub open spec fn step(s: EmuState, rnd: u8) -> (EmuState, Result<(), EmuError>) {
    if !can_fetch(s) {
        fail(s, EmuError::OutOfBounds)
    } else {
        execute_spec(EmuState { pc: (s.pc + 2) as u16, ..s }, fetched(s), rnd)
    }
}

/// Whether an instruction word uses the random byte.
pub open spec fn uses_random(op: u16) -> bool {
    op >> 12 == 0xC
}

} // verus!
