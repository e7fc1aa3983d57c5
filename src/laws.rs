use vstd::prelude::*;
use vstd::arithmetic::div_mod::lemma_fundamental_div_mod_converse;
use crate::draw::{cell_at, collides, covers, drawn, lemma_cell_at, row_bit};
use crate::state::{
    any_pressed, byte_nn, can_fetch, execute_spec, fetched, font, initial_state,
    is_lowest_pressed, lowest_pressed, reg_x, reg_y, step, EmuError, EmuState, FLAG_REG,
    FONTSET_SIZE, NUM_REGS, RAM_SIZE, SCREEN_CELLS, SCREEN_HEIGHT, SCREEN_WIDTH, STACK_SIZE,
};

verus! {

/// After `VX := NN`, register X holds exactly NN and no other register changes.
pub proof fn lemma_set_register_reads_back(s: EmuState, op: u16, rnd: u8)
    requires
        s.wf(),
        op >> 12 == 6,
    ensures
        execute_spec(s, op, rnd).1 is Ok,
        execute_spec(s, op, rnd).0.v[reg_x(op)] == byte_nn(op),
        forall|r: int| 0 <= r < NUM_REGS && r != reg_x(op) ==> execute_spec(s, op, rnd).0.v[r] == s.v[r],
{
    assert(op != 0 && op != 0x00E0 && op != 0x00EE) by (bit_vector) requires op >> 12 == 6;
    assert(((op >> 8) & 0xF) < 16) by (bit_vector);
}

/// Register-to-register arithmetic wraps modulo 256 and the flag register
/// reports carry, inverted borrow or the bit shifted out. The flag is written
/// last, so it wins when X is the flag register itself; operands are read
/// before either write. No register other than X and the flag changes.
pub proof fn lemma_alu_wraps_and_flags(s: EmuState, op: u16, rnd: u8)
    requires
        s.wf(),
        op >> 12 == 8,
        op & 0xF <= 7 || op & 0xF == 0xE,
    ensures
        ({
            let t = execute_spec(s, op, rnd).0;
            let x = reg_x(op);
            let a = s.v[x];
            let b = s.v[reg_y(op)];
            let n = op & 0xF;
            let xw = x != FLAG_REG;
            &&& execute_spec(s, op, rnd).1 is Ok
            &&& forall|r: int| 0 <= r < NUM_REGS && r != x && r != FLAG_REG ==> t.v[r] == s.v[r]
            &&& n == 0 ==> t.v[x] == b
            &&& n == 1 ==> t.v[x] == a | b
            &&& n == 2 ==> t.v[x] == a & b
            &&& n == 3 ==> t.v[x] == a ^ b
            &&& n == 4 ==> t.v[FLAG_REG as int] == (if a + b >= 256 { 1u8 } else { 0u8 })
                && (xw ==> t.v[x] == (a + b) % 256)
            &&& n == 5 ==> t.v[FLAG_REG as int] == (if a < b { 0u8 } else { 1u8 })
                && (xw ==> t.v[x] == (a - b) % 256)
            &&& n == 6 ==> t.v[FLAG_REG as int] == a % 2 && (xw ==> t.v[x] == a / 2)
            &&& n == 7 ==> t.v[FLAG_REG as int] == (if b < a { 0u8 } else { 1u8 })
                && (xw ==> t.v[x] == (b - a) % 256)
            &&& n == 0xE ==> t.v[FLAG_REG as int] == a / 128 && (xw ==> t.v[x] == (a * 2) % 256)
        }),
{
    assert(op != 0 && op != 0x00E0 && op != 0x00EE) by (bit_vector) requires op >> 12 == 8;
    assert(((op >> 8) & 0xF) < 16 && ((op >> 4) & 0xF) < 16) by (bit_vector);
    let a = s.v[reg_x(op)];
    let b = s.v[reg_y(op)];
    assert((a - b + 256) % 256 == (a - b) % 256);
    assert((b - a + 256) % 256 == (b - a) % 256);
}

/// The clear instruction leaves an all-false display of exactly 64 x 32 cells.
pub proof fn lemma_clear_blanks_display(s: EmuState, rnd: u8)
    requires
        s.wf(),
    ensures
        execute_spec(s, 0x00E0, rnd).1 is Ok,
        execute_spec(s, 0x00E0, rnd).0.screen.len() == SCREEN_WIDTH * SCREEN_HEIGHT,
        forall|c: int|
            0 <= c < SCREEN_WIDTH * SCREEN_HEIGHT ==> !#[trigger] execute_spec(s, 0x00E0, rnd).0.screen[c],
{
}

/// A call immediately followed by a return resumes at the instruction
/// after the call, with the stack pointer back where it was.
pub proof fn lemma_call_then_return(s: EmuState, target: u16, rnd: u8)
    requires
        s.wf(),
        can_fetch(s),
        fetched(s) == 0x2000 + target,
        target < 0x1000,
        s.sp < STACK_SIZE,
        target + 1 < RAM_SIZE,
        s.ram[target as int] == 0x00,
        s.ram[target + 1] == 0xEE,
    ensures
        step(s, rnd).1 is Ok,
        step(s, rnd).0.pc == target,
        step(step(s, rnd).0, rnd).1 is Ok,
        step(step(s, rnd).0, rnd).0.pc == s.pc + 2,
        step(step(s, rnd).0, rnd).0.sp == s.sp,
{
    let op = fetched(s);
    assert(op >> 12 == 2 && op & 0xFFF == target) by (bit_vector)
        requires op == 0x2000 + target, target < 0x1000;
    assert(op != 0 && op != 0x00E0 && op != 0x00EE) by (bit_vector) requires op >> 12 == 2;
    let s1 = step(s, rnd).0;
    assert(fetched(s1) == 0x00EE);
}

/// A call succeeds exactly when a stack entry is free: sixteen nested calls
/// fit, and one more is refused with a stack overflow that changes nothing.
pub proof fn lemma_call_needs_free_stack(s: EmuState, op: u16, rnd: u8)
    requires
        s.wf(),
        op >> 12 == 2,
    ensures
        execute_spec(s, op, rnd).1 is Ok <==> s.sp < STACK_SIZE,
        s.sp < STACK_SIZE ==> execute_spec(s, op, rnd).0.sp == s.sp + 1,
        s.sp == STACK_SIZE ==> execute_spec(s, op, rnd) == (s, Err::<(), EmuError>(EmuError::StackOverflow)),
{
    assert(op != 0 && op != 0x00E0 && op != 0x00EE) by (bit_vector) requires op >> 12 == 2;
}

/// Sprite rows that a draw instruction reads.
pub open spec fn sprite_rows(s: EmuState, op: u16) -> Seq<u8> {
    s.ram.subrange(s.i as int, s.i + (op & 0xF))
}

/// A draw sets the flag register to 1 exactly when it flips a cell that was
/// set, and to 0 when the display was clear.
pub proof fn lemma_draw_collision_flag(s: EmuState, op: u16, rnd: u8)
    requires
        s.wf(),
        op >> 12 == 0xD,
        s.i + (op & 0xF) <= RAM_SIZE,
    ensures
        execute_spec(s, op, rnd).1 is Ok,
        execute_spec(s, op, rnd).0.v[FLAG_REG as int] == 1 <==> exists|c: int|
            0 <= c < SCREEN_CELLS && #[trigger] s.screen[c]
                && covers(sprite_rows(s, op), (op & 0xF) as int, s.v[reg_x(op)], s.v[reg_y(op)], c),
        (forall|c: int| 0 <= c < SCREEN_CELLS ==> !#[trigger] s.screen[c])
            ==> execute_spec(s, op, rnd).0.v[FLAG_REG as int] == 0,
{
    assert(op != 0 && op != 0x00E0 && op != 0x00EE) by (bit_vector) requires op >> 12 == 0xD;
}

/// Drawing the same sprite twice at the same place gives back the display
/// it started from. When the cells it covers started clear, the second draw
/// reports a collision exactly when the sprite has a set bit.
pub proof fn lemma_draw_twice_restores(s: EmuState, op: u16, rnd: u8)
    requires
        s.wf(),
        op >> 12 == 0xD,
        s.i + (op & 0xF) <= RAM_SIZE,
        reg_x(op) != FLAG_REG,
        reg_y(op) != FLAG_REG,
    ensures
        ({
            let t1 = execute_spec(s, op, rnd).0;
            let t2 = execute_spec(t1, op, rnd).0;
            let rows = sprite_rows(s, op);
            let h = (op & 0xF) as int;
            let x0 = s.v[reg_x(op)];
            let y0 = s.v[reg_y(op)];
            &&& execute_spec(t1, op, rnd).1 is Ok
            &&& t2.screen == s.screen
            &&& (forall|c: int| 0 <= c < SCREEN_CELLS && covers(rows, h, x0, y0, c) ==> !s.screen[c])
                ==> (t2.v[FLAG_REG as int] == 1 <==> exists|c: int|
                    0 <= c < SCREEN_CELLS && #[trigger] covers(rows, h, x0, y0, c))
        }),
{
    assert(op != 0 && op != 0x00E0 && op != 0x00EE) by (bit_vector) requires op >> 12 == 0xD;
    assert(((op >> 8) & 0xF) < 16 && ((op >> 4) & 0xF) < 16) by (bit_vector);
    let t1 = execute_spec(s, op, rnd).0;
    let rows = sprite_rows(s, op);
    let h = (op & 0xF) as int;
    let x0 = s.v[reg_x(op)];
    let y0 = s.v[reg_y(op)];
    assert(t1.v[reg_x(op)] == x0 && t1.v[reg_y(op)] == y0);
    assert(sprite_rows(t1, op) == rows);
    assert(drawn(t1.screen, rows, h, x0, y0) =~= s.screen);
    if forall|c: int| 0 <= c < SCREEN_CELLS && covers(rows, h, x0, y0, c) ==> !s.screen[c] {
        if exists|c: int| 0 <= c < SCREEN_CELLS && #[trigger] covers(rows, h, x0, y0, c) {
            let w = choose|c: int| 0 <= c < SCREEN_CELLS && #[trigger] covers(rows, h, x0, y0, c);
            assert(t1.screen[w]);
            assert(collides(t1.screen, rows, h, x0, y0));
        }
    }
}

/// Each set bit of the sprite flips the cell at its position, wrapped
/// around both edges; a sprite whose left edge is in the last column
/// continues in columns 0 to 6.
pub proof fn lemma_draw_wraps(s: EmuState, op: u16, rnd: u8, row: int, col: int)
    requires
        s.wf(),
        op >> 12 == 0xD,
        s.i + (op & 0xF) <= RAM_SIZE,
        0 <= row < (op & 0xF),
        0 <= col < 8,
    ensures
        ({
            let t = execute_spec(s, op, rnd).0;
            let x0 = s.v[reg_x(op)];
            let y0 = s.v[reg_y(op)];
            let c = cell_at(x0, y0, row, col);
            &&& 0 <= c < SCREEN_CELLS
            &&& c % 64 == (x0 + col) % 64
            &&& c / 64 == (y0 + row) % 32
            &&& t.screen[c] == (s.screen[c] != row_bit(s.ram[s.i + row], col))
            &&& x0 == 63 && col >= 1 ==> c % 64 == col - 1
        }),
{
    assert(op != 0 && op != 0x00E0 && op != 0x00EE) by (bit_vector) requires op >> 12 == 0xD;
    assert(((op >> 8) & 0xF) < 16 && ((op >> 4) & 0xF) < 16 && (op & 0xF) < 16) by (bit_vector);
    let x0 = s.v[reg_x(op)];
    let y0 = s.v[reg_y(op)];
    lemma_cell_at(x0, y0, row, col);
    let cx = (x0 + col) % 64;
    let cy = (y0 + row) % 32;
    lemma_fundamental_div_mod_converse(cell_at(x0, y0, row, col), 64, cy, cx);
}

/// With no key held down, the key-wait instruction leaves the whole machine
/// as it was, so that it runs again on the next step; with keys held down it
/// stores the lowest of them in X and moves on.
pub proof fn lemma_key_wait_polls(s: EmuState, rnd: u8)
    requires
        s.wf(),
        can_fetch(s),
        fetched(s) >> 12 == 0xF,
        byte_nn(fetched(s)) == 0x0A,
    ensures
        !any_pressed(s.keys) ==> step(s, rnd) == (s, Ok::<(), EmuError>(())),
        any_pressed(s.keys) ==> ({
            let t = step(s, rnd).0;
            &&& step(s, rnd).1 is Ok
            &&& t.pc == s.pc + 2
            &&& is_lowest_pressed(s.keys, t.v[reg_x(fetched(s))] as int)
            &&& forall|r: int| 0 <= r < NUM_REGS && r != reg_x(fetched(s)) ==> t.v[r] == s.v[r]
        }),
{
    let op = fetched(s);
    assert(op != 0 && op != 0x00E0 && op != 0x00EE) by (bit_vector) requires op >> 12 == 0xF;
    assert(((op >> 8) & 0xF) < 16) by (bit_vector);
    if any_pressed(s.keys) {
        let k = choose|k: int| 0 <= k < s.keys.len() && #[trigger] s.keys[k];
        lemma_lowest_pressed_exists(s.keys, k);
    } else {
        let t = step(s, rnd).0;
        assert(t == s);
    }
}

/// When some key is held down there is a lowest one.
proof fn lemma_lowest_pressed_exists(keys: Seq<bool>, k: int)
    requires
        0 <= k < keys.len(),
        keys[k],
    ensures
        is_lowest_pressed(keys, lowest_pressed(keys)),
    decreases k,
{
    if exists|j: int| 0 <= j < k && #[trigger] keys[j] {
        let j = choose|j: int| 0 <= j < k && #[trigger] keys[j];
        lemma_lowest_pressed_exists(keys, j);
    } else {
        assert(is_lowest_pressed(keys, k));
    }
}

/// The font instruction points the index register at glyph VX, five bytes
/// per glyph from address 0; on a fresh machine those five bytes are the
/// glyph of that hexadecimal digit.
pub proof fn lemma_font_address(s: EmuState, op: u16, rnd: u8)
    requires
        s.wf(),
        op >> 12 == 0xF,
        byte_nn(op) == 0x29,
    ensures
        execute_spec(s, op, rnd).1 is Ok,
        execute_spec(s, op, rnd).0.i == 5 * s.v[reg_x(op)],
        s.v[reg_x(op)] < 16 ==> forall|j: int| 0 <= j < 5
            ==> initial_state().ram[5 * s.v[reg_x(op)] + j] == #[trigger] font()[5 * s.v[reg_x(op)] + j],
{
    assert(op != 0 && op != 0x00E0 && op != 0x00EE) by (bit_vector) requires op >> 12 == 0xF;
    assert(((op >> 8) & 0xF) < 16) by (bit_vector);
}

/// Storing registers 0..=X to memory and loading them back restores them,
/// whatever the registers held in between.
pub proof fn lemma_store_load_round_trip(s: EmuState, store: u16, mid: EmuState, load: u16, rnd: u8)
    requires
        s.wf(),
        mid.wf(),
        store >> 12 == 0xF,
        byte_nn(store) == 0x55,
        load >> 12 == 0xF,
        byte_nn(load) == 0x65,
        reg_x(load) == reg_x(store),
        s.i + reg_x(store) < RAM_SIZE,
        mid.ram == execute_spec(s, store, rnd).0.ram,
        mid.i == s.i,
    ensures
        execute_spec(s, store, rnd).1 is Ok,
        execute_spec(mid, load, rnd).1 is Ok,
        forall|r: int| 0 <= r <= reg_x(store) ==> #[trigger] execute_spec(mid, load, rnd).0.v[r] == s.v[r],
{
    assert(store != 0 && store != 0x00E0 && store != 0x00EE) by (bit_vector) requires store >> 12 == 0xF;
    assert(load != 0 && load != 0x00E0 && load != 0x00EE) by (bit_vector) requires load >> 12 == 0xF;
    assert(((store >> 8) & 0xF) < 16) by (bit_vector);
}

} // verus!
