use vstd::prelude::*;
use crate::decode::{decode_spec, Instr, ProgramCounter};
use crate::machine::{draw, draw_row, draw_rows, exec_spec, halt_of, lowest_held, sprite_bit, step_spec, Halt, Machine, MEMORY_SIZE, SCREEN_SIZE, START_ADDRESS};

verus! {

/// An address where execution can go on: even, at or above the program
/// area's start, with room for a two-byte fetch.
pub open spec fn in_program_area(pc: int) -> bool {
    &&& pc % 2 == 0
    &&& START_ADDRESS <= pc <= MEMORY_SIZE - 2
}

/// The absolute address that a control-transfer instruction goes to.
pub open spec fn jump_target(m: Machine, ins: Instr) -> Option<int> {
    match ins {
        Instr::Jp { addr } => Some(addr as int),
        Instr::Call { addr } => Some(addr as int),
        Instr::JpV0 { addr } => Some(m.reg(0) + addr),
        Instr::Ret => Some(m.stack[m.sp - 1] as int),
        _ => None,
    }
}

/// A successful step that executes an instruction keeps the program counter
/// even and inside the program area, provided the instruction at the program
/// counter either falls through (with room left for a skip) or jumps to such
/// an address.
pub proof fn law_pc_stays_in_program_area(m: Machine, keys: Seq<bool>, rnd: u8)
    requires
        m.wf(),
        !m.waiting,
        in_program_area(m.pc as int),
        m.pc + 4 <= MEMORY_SIZE - 2,
        decode_spec(m.opcode()) matches Some(ins) && (jump_target(m, ins) matches Some(t) ==> in_program_area(t)),
    ensures
        step_spec(m, keys, rnd) matches Ok(s) ==> in_program_area(s.0.pc as int),
{
    let ins = decode_spec(m.opcode())->Some_0;
    let e = exec_spec(m.tick(), ins, keys, rnd);
    lemma_action_of(m.tick(), ins, keys, rnd);
    assert(jump_target(m.tick(), ins) == jump_target(m, ins));
    if halt_of(m, ins) is None {
        assert(step_spec(m, keys, rnd) == Ok::<(Machine, bool), Halt>((e.0.advance(e.1), e.2)));
        assert(in_program_area(e.0.advance(e.1).pc as int));
    }
}

/// No instruction writes the program counter itself; a jump goes to the
/// instruction's target.
proof fn lemma_action_of(m: Machine, ins: Instr, keys: Seq<bool>, rnd: u8)
    ensures
        exec_spec(m, ins, keys, rnd).0.pc == m.pc,
        exec_spec(m, ins, keys, rnd).1 matches ProgramCounter::Jump(t) ==> jump_target(m, ins) == Some(t as int),
        jump_target(m, ins) is None ==> !(exec_spec(m, ins, keys, rnd).1 is Jump),
{
    reveal(exec_spec);
    match ins {
        Instr::Drw { x, y, n } => {},
        Instr::Store { x } => {},
        Instr::Load { x } => {},
        _ => {},
    }
}

/// `7xkk` leaves `(Vx + kk) mod 256` in `Vx` and every other register as it was.
pub proof fn law_add_immediate_wraps(m: Machine, keys: Seq<bool>, rnd: u8, x: u8, kk: u8)
    requires
        m.wf(),
        !m.waiting,
        m.pc + 1 < MEMORY_SIZE,
        x < 16,
        m.opcode() == 0x7000 + x * 256 + kk,
    ensures
        step_spec(m, keys, rnd) matches Ok(s)
            && s.0.registers == m.registers.update(x as int, ((m.reg(x) + kk) % 256) as u8),
{
    reveal(exec_spec);
    let op = m.opcode();
    assert(op / 4096 == 7 && (op / 256) % 16 == x && op % 256 == kk) by (nonlinear_arith)
        requires op == 0x7000 + x * 256 + kk, x < 16, kk < 256;
}

/// `8xy4` sets the flag register to 1 exactly when `Vx + Vy > 255`, and
/// (unless `x` is the flag register itself) leaves the sum's low eight bits in `Vx`.
pub proof fn law_add_registers_carry(m: Machine, keys: Seq<bool>, rnd: u8, x: u8, y: u8)
    requires
        m.wf(),
        !m.waiting,
        m.pc + 1 < MEMORY_SIZE,
        x < 16,
        y < 16,
        m.opcode() == 0x8004 + x * 256 + y * 16,
    ensures
        step_spec(m, keys, rnd) matches Ok(s) && {
            &&& s.0.registers[15] == (if m.reg(x) + m.reg(y) > 255 { 1u8 } else { 0u8 })
            &&& x != 15 ==> s.0.registers[x as int] == ((m.reg(x) + m.reg(y)) % 256) as u8
        },
{
    reveal(exec_spec);
    let op = m.opcode();
    assert(op / 4096 == 8 && (op / 256) % 16 == x && (op / 16) % 16 == y && op % 16 == 4) by (nonlinear_arith)
        requires op == 0x8004 + x * 256 + y * 16, x < 16, y < 16;
}

/// `00E0` reports a changed framebuffer and leaves every pixel 0.
pub proof fn law_clear_screen(m: Machine, keys: Seq<bool>, rnd: u8)
    requires
        m.wf(),
        !m.waiting,
        m.pc + 1 < MEMORY_SIZE,
        m.opcode() == 0x00E0,
    ensures
        step_spec(m, keys, rnd) matches Ok(s) && s.1 && forall|p: int| 0 <= p < SCREEN_SIZE ==> s.0.video[p] == 0,
{
    reveal(exec_spec);
}

/// `Fx0A` moves the program counter past itself and enters the key wait for
/// register `x`, assigning no register yet.
pub proof fn law_wait_key_enters(m: Machine, keys: Seq<bool>, rnd: u8, x: u8)
    requires
        m.wf(),
        !m.waiting,
        m.pc + 1 < MEMORY_SIZE,
        x < 16,
        m.opcode() == 0xF00A + x * 256,
    ensures
        step_spec(m, keys, rnd) matches Ok(s) && {
            &&& s.0.waiting
            &&& s.0.wait_reg == x
            &&& s.0.pc == m.pc + 2
            &&& s.0.registers == m.registers
        },
{
    reveal(exec_spec);
    let op = m.opcode();
    assert(op / 4096 == 15 && (op / 256) % 16 == x && op % 256 == 0x0A) by (nonlinear_arith)
        requires op == 0xF00A + x * 256, x < 16;
}

/// While waiting with no key held, a step changes nothing: no register, no
/// timer, no fetch.
pub proof fn law_wait_without_key(m: Machine, keys: Seq<bool>, rnd: u8)
    requires
        m.wf(),
        m.waiting,
        forall|k: int| 0 <= k < keys.len() ==> !keys[k],
    ensures
        step_spec(m, keys, rnd) == Ok::<(Machine, bool), Halt>((m, false)),
{
}

/// While waiting, the first step with a key held stores the lowest such key
/// index in the waiting register and ends the wait, leaving the timers and the
/// program counter alone.
pub proof fn law_wait_takes_lowest_key(m: Machine, keys: Seq<bool>, rnd: u8, k: int)
    requires
        m.wf(),
        m.waiting,
        lowest_held(keys, k),
        keys.len() == 16,
    ensures
        step_spec(m, keys, rnd) matches Ok(s) && {
            &&& !s.0.waiting
            &&& s.0.registers == m.registers.update(m.wait_reg as int, k as u8)
            &&& s.0.delay_timer == m.delay_timer
            &&& s.0.sound_timer == m.sound_timer
            &&& s.0.pc == m.pc
        },
{
    assert forall|j: int| lowest_held(keys, j) implies j == k by {
        if j < k {
            assert(!keys[j]);
        } else if j > k {
            assert(!keys[k]);
        }
    }
}

/// How far pixel `p` lies below the sprite origin row `vy`, wrapping.
pub open spec fn row_offset(p: int, vy: u8) -> int {
    (p / 64 - vy) % 32
}

/// How far pixel `p` lies right of the sprite origin column `vx`, wrapping.
pub open spec fn col_offset(p: int, vx: u8) -> int {
    (p % 64 - vx) % 64
}

/// The sprite bit that an `n`-row draw at (`vx`, `vy`) XORs into pixel `p`
/// (0 where the sprite does not reach).
pub open spec fn sprite_cover(memory: Seq<u8>, i: int, vx: u8, vy: u8, n: nat, p: int) -> u8 {
    if row_offset(p, vy) < n && col_offset(p, vx) < 8 {
        sprite_bit(memory[i + row_offset(p, vy)], col_offset(p, vx))
    } else {
        0
    }
}

proof fn lemma_xor_facts(a: u8, c: u8)
    ensures
        a ^ 0 == a,
        (a ^ c) ^ c == a,
        a <= 1 && c <= 1 ==> a ^ c <= 1,
        c <= 1 ==> c & 1 == c,
        a <= 1 ==> (a & 1 == 1 <==> a == 1),
{
    assert(a ^ 0 == a) by (bit_vector);
    assert((a ^ c) ^ c == a) by (bit_vector);
    assert(a <= 1 && c <= 1 ==> a ^ c <= 1) by (bit_vector);
    assert(c <= 1 ==> c & 1 == c) by (bit_vector);
    assert(a <= 1 ==> (a & 1 == 1 <==> a == 1)) by (bit_vector);
}

proof fn lemma_or_and_bits(f: u8, c: u8, a: u8)
    requires
        f <= 1,
        c <= 1,
        a <= 1,
    ensures
        f | (c & a) <= 1,
        (f | (c & a) == 1) <==> (f == 1 || (c == 1 && a == 1)),
{
    assert(f <= 1 && c <= 1 && a <= 1 ==> f | (c & a) <= 1) by (bit_vector);
    assert(f <= 1 && c <= 1 && a <= 1 ==> ((f | (c & a) == 1) <==> (f == 1 || (c == 1 && a == 1)))) by (bit_vector);
}

proof fn lemma_sprite_bit_small(s: u8, b: int)
    ensures
        sprite_bit(s, b) <= 1,
{
    let sh = (7 - b) as u8;
    assert((s >> sh) & 1 <= 1) by (bit_vector);
}

/// Pixel `py * 64 + (vx + b) % 64` is the one pixel of row `py` at column
/// offset `b`.
proof fn lemma_col_position(py: int, vx: u8, b: int, p: int)
    requires
        0 <= py < 32,
        0 <= b < 64,
        0 <= p < 2048,
    ensures
        (py * 64 + (vx + b) % 64) / 64 == py,
        col_offset(py * 64 + (vx + b) % 64, vx) == b,
        (p / 64 == py && col_offset(p, vx) == b) <==> p == py * 64 + (vx + b) % 64,
{
    let q = py * 64 + (vx + b) % 64;
    assert(q / 64 == py && q % 64 == (vx + b) % 64) by (nonlinear_arith)
        requires q == py * 64 + (vx + b) % 64, 0 <= (vx + b) % 64 < 64;
    assert(((vx + b) % 64 - vx) % 64 == b) by (nonlinear_arith)
        requires 0 <= b < 64, vx >= 0;
    if p / 64 == py && col_offset(p, vx) == b {
        assert(p % 64 == (vx + b) % 64) by (nonlinear_arith)
            requires (p % 64 - vx) % 64 == b, 0 <= p % 64 < 64, vx >= 0, 0 <= b < 64;
        assert(p == (p / 64) * 64 + p % 64) by (nonlinear_arith);
    }
}

/// Row `py` is the one at row offset `r` from `vy`.
proof fn lemma_row_position(vy: u8, r: int, p: int)
    requires
        0 <= r < 32,
        0 <= p < 2048,
    ensures
        (p / 64 == (vy + r) % 32) <==> row_offset(p, vy) == r,
        0 <= (vy + r) % 32 < 32,
{
    assert(0 <= p / 64 < 32) by (nonlinear_arith)
        requires 0 <= p < 2048;
    let t = p / 64;
    assert((t == (vy + r) % 32) <==> ((t - vy) % 32 == r)) by (nonlinear_arith)
        requires 0 <= t < 32, 0 <= r < 32, vy >= 0;
}

/// Closed form of drawing the first `b` bits of one row.
proof fn lemma_draw_row(video: Seq<u8>, flag: u8, sprite: u8, vx: u8, py: int, b: nat)
    requires
        video.len() == 2048,
        forall|p: int| 0 <= p < 2048 ==> #[trigger] video[p] <= 1,
        flag <= 1,
        0 <= py < 32,
        b <= 8,
    ensures
        draw_row(video, flag, sprite, vx, py, b).0.len() == 2048,
        forall|p: int| 0 <= p < 2048 ==> #[trigger] draw_row(video, flag, sprite, vx, py, b).0[p] == (
            if p / 64 == py && col_offset(p, vx) < b {
                video[p] ^ sprite_bit(sprite, col_offset(p, vx))
            } else {
                video[p]
            }),
        forall|p: int| 0 <= p < 2048 ==> #[trigger] draw_row(video, flag, sprite, vx, py, b).0[p] <= 1,
        draw_row(video, flag, sprite, vx, py, b).1 <= 1,
        (draw_row(video, flag, sprite, vx, py, b).1 == 1) <==> (flag == 1 || exists|p: int|
            0 <= p < 2048 && p / 64 == py && col_offset(p, vx) < b
                && sprite_bit(sprite, col_offset(p, vx)) == 1 && #[trigger] video[p] == 1),
    decreases b,
{
    if b > 0 {
        let bb = (b - 1) as int;
        lemma_draw_row(video, flag, sprite, vx, py, (b - 1) as nat);
        let prev = draw_row(video, flag, sprite, vx, py, (b - 1) as nat);
        let q = py * 64 + (vx + bb) % 64;
        lemma_col_position(py, vx, bb, 0);
        let color = sprite_bit(sprite, bb);
        lemma_sprite_bit_small(sprite, bb);
        lemma_xor_facts(prev.0[q], color);
        lemma_or_and_bits(prev.1, color, prev.0[q]);
        let cur = draw_row(video, flag, sprite, vx, py, b);
        assert(cur.0 == prev.0.update(q, prev.0[q] ^ color));
        assert forall|p: int| 0 <= p < 2048 implies #[trigger] cur.0[p] == (
            if p / 64 == py && col_offset(p, vx) < b {
                video[p] ^ sprite_bit(sprite, col_offset(p, vx))
            } else {
                video[p]
            }) && cur.0[p] <= 1 by {
            lemma_col_position(py, vx, bb, p);
            lemma_xor_facts(video[p], sprite_bit(sprite, col_offset(p, vx)));
            lemma_sprite_bit_small(sprite, col_offset(p, vx));
        }
        if cur.1 == 1 && flag != 1 {
            if prev.1 != 1 {
                assert(color == 1 && prev.0[q] == 1);
                lemma_col_position(py, vx, bb, q);
                assert(video[q] == 1);
            }
        }
        if flag != 1 && exists|p: int|
            0 <= p < 2048 && p / 64 == py && col_offset(p, vx) < b
                && sprite_bit(sprite, col_offset(p, vx)) == 1 && #[trigger] video[p] == 1 {
            let p = choose|p: int|
                0 <= p < 2048 && p / 64 == py && col_offset(p, vx) < b
                    && sprite_bit(sprite, col_offset(p, vx)) == 1 && #[trigger] video[p] == 1;
            lemma_col_position(py, vx, bb, p);
            if col_offset(p, vx) == bb {
                assert(prev.0[q] == video[q]);
            }
        }
    }
}

/// Closed form of drawing the first `r` rows of a sprite.
proof fn lemma_draw_rows(video: Seq<u8>, flag: u8, memory: Seq<u8>, i: int, vx: u8, vy: u8, r: nat)
    requires
        video.len() == 2048,
        forall|p: int| 0 <= p < 2048 ==> #[trigger] video[p] <= 1,
        flag <= 1,
        r <= 16,
    ensures
        draw_rows(video, flag, memory, i, vx, vy, r).0.len() == 2048,
        forall|p: int| 0 <= p < 2048 ==> #[trigger] draw_rows(video, flag, memory, i, vx, vy, r).0[p]
            == video[p] ^ sprite_cover(memory, i, vx, vy, r, p),
        forall|p: int| 0 <= p < 2048 ==> #[trigger] draw_rows(video, flag, memory, i, vx, vy, r).0[p] <= 1,
        draw_rows(video, flag, memory, i, vx, vy, r).1 <= 1,
        (draw_rows(video, flag, memory, i, vx, vy, r).1 == 1) <==> (flag == 1 || exists|p: int|
            0 <= p < 2048 && sprite_cover(memory, i, vx, vy, r, p) == 1 && #[trigger] video[p] == 1),
    decreases r,
{
    if r == 0 {
        assert forall|p: int| 0 <= p < 2048 implies #[trigger] video[p] == video[p] ^ sprite_cover(memory, i, vx, vy, 0, p) by {
            lemma_xor_facts(video[p], 0);
        }
    } else {
        let rr = (r - 1) as int;
        lemma_draw_rows(video, flag, memory, i, vx, vy, (r - 1) as nat);
        let prev = draw_rows(video, flag, memory, i, vx, vy, (r - 1) as nat);
        let py = (vy + rr) % 32;
        let sprite = memory[i + rr];
        lemma_row_position(vy, rr, 0);
        lemma_draw_row(prev.0, prev.1, sprite, vx, py, 8);
        let cur = draw_rows(video, flag, memory, i, vx, vy, r);
        assert(cur == draw_row(prev.0, prev.1, sprite, vx, py, 8));
        assert forall|p: int| 0 <= p < 2048 implies #[trigger] cur.0[p]
            == video[p] ^ sprite_cover(memory, i, vx, vy, r, p) by {
            lemma_row_position(vy, rr, p);
            lemma_xor_facts(video[p], sprite_cover(memory, i, vx, vy, r, p));
            lemma_xor_facts(video[p], sprite_cover(memory, i, vx, vy, (r - 1) as nat, p));
        }
        if cur.1 == 1 && flag != 1 {
            if prev.1 != 1 {
                let p = choose|p: int|
                    0 <= p < 2048 && p / 64 == py && col_offset(p, vx) < 8
                        && sprite_bit(sprite, col_offset(p, vx)) == 1 && #[trigger] prev.0[p] == 1;
                lemma_row_position(vy, rr, p);
                lemma_xor_facts(video[p], 0);
                assert(sprite_cover(memory, i, vx, vy, (r - 1) as nat, p) == 0);
                assert(video[p] == 1);
                assert(sprite_cover(memory, i, vx, vy, r, p) == 1);
            } else {
                let p = choose|p: int|
                    0 <= p < 2048 && sprite_cover(memory, i, vx, vy, (r - 1) as nat, p) == 1 && #[trigger] video[p] == 1;
                lemma_row_position(vy, rr, p);
                assert(sprite_cover(memory, i, vx, vy, r, p) == 1);
            }
        }
        if flag != 1 && exists|p: int|
            0 <= p < 2048 && sprite_cover(memory, i, vx, vy, r, p) == 1 && #[trigger] video[p] == 1 {
            let p = choose|p: int|
                0 <= p < 2048 && sprite_cover(memory, i, vx, vy, r, p) == 1 && #[trigger] video[p] == 1;
            lemma_row_position(vy, rr, p);
            if row_offset(p, vy) == rr {
                assert(sprite_cover(memory, i, vx, vy, (r - 1) as nat, p) == 0);
                lemma_xor_facts(video[p], 0);
                assert(prev.0[p] == 1);
            } else {
                assert(sprite_cover(memory, i, vx, vy, (r - 1) as nat, p) == 1);
            }
        }
    }
}

/// Drawing the same sprite twice at the same place restores every pixel, and
/// the second draw reports a collision exactly when the first left some pixel
/// of the sprite lit (in particular wherever the first draw turned one on).
pub proof fn law_draw_twice_restores(video: Seq<u8>, memory: Seq<u8>, i: int, vx: u8, vy: u8, n: nat)
    requires
        video.len() == SCREEN_SIZE,
        forall|p: int| 0 <= p < SCREEN_SIZE ==> #[trigger] video[p] <= 1,
        n <= 15,
    ensures
        draw(draw(video, memory, i, vx, vy, n).0, memory, i, vx, vy, n).0 == video,
        (draw(draw(video, memory, i, vx, vy, n).0, memory, i, vx, vy, n).1 == 1) <==> exists|p: int|
            0 <= p < SCREEN_SIZE && sprite_cover(memory, i, vx, vy, n, p) == 1
                && #[trigger] draw(video, memory, i, vx, vy, n).0[p] == 1,
        forall|p: int| 0 <= p < SCREEN_SIZE && sprite_cover(memory, i, vx, vy, n, p) == 1 && video[p] == 0
            ==> #[trigger] draw(video, memory, i, vx, vy, n).0[p] == 1
                && draw(draw(video, memory, i, vx, vy, n).0, memory, i, vx, vy, n).1 == 1,
{
    let d1 = draw(video, memory, i, vx, vy, n);
    lemma_draw_rows(video, 0, memory, i, vx, vy, n);
    lemma_draw_rows(d1.0, 0, memory, i, vx, vy, n);
    let d2 = draw(d1.0, memory, i, vx, vy, n);
    assert forall|p: int| 0 <= p < 2048 implies #[trigger] d2.0[p] == video[p] by {
        lemma_xor_facts(video[p], sprite_cover(memory, i, vx, vy, n, p));
    }
    assert(d2.0 =~= video);
    assert forall|p: int| 0 <= p < SCREEN_SIZE && sprite_cover(memory, i, vx, vy, n, p) == 1 && video[p] == 0
        implies #[trigger] d1.0[p] == 1 && d2.1 == 1 by {
        lemma_xor_facts(video[p], 1);
        assert(0u8 ^ 1u8 == 1u8) by (bit_vector);
    }
}

} // verus!
