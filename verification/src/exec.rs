//! The fetch-decode-execute step: the semantics of every instruction as a
//! specification over [`CpuView`], and the verified executable step that
//! meets it.
//!
//! Conventions the specification fixes where descriptions of the machine
//! leave a choice:
//! - Sprites wrap at the screen edges: drawing starts at
//!   `(V[x] mod 64, V[y] mod 32)` and pixels past an edge continue on the
//!   opposite side.
//! - A sprite, BCD or bulk register access that would read or write past
//!   the 4096-byte memory is a [`Fault::MemoryOutOfBounds`]; memory
//!   addresses never wrap silently. Only computed accesses count: a
//!   zero-row sprite reads no byte and cannot fault, whatever I holds.
//! - The bulk register dump and load (`Fx55`, `Fx65`) leave the index
//!   register unchanged.
//! - Key-test and key-wait instructions read key `V[x] mod 16`.
//! - The key wait (`Fx0A`) polls: while no key is down the step returns
//!   without moving the program counter or anything else; when keys are
//!   down it stores the lowest pressed key code.
//! - A faulting step leaves the machine state exactly as it was.

use vstd::prelude::*;

use crate::cpu::Cpu;
use crate::cpu::CpuView;
use crate::cpu::Fault;
use crate::decode::decode;
use crate::decode::decode_op;
use crate::decode::Instr;

verus! {

/// A pixel after an XOR with a set sprite bit: 0 becomes 1, 1 becomes 0.
pub open spec fn flip(b: u8) -> u8 {
    if b == 0 {
        1u8
    } else {
        0u8
    }
}

/// The weight of sprite column `c`: bit 7 of a sprite byte is its leftmost
/// pixel.
pub open spec fn col_weight(c: int) -> int {
    if c == 0 {
        128
    } else if c == 1 {
        64
    } else if c == 2 {
        32
    } else if c == 3 {
        16
    } else if c == 4 {
        8
    } else if c == 5 {
        4
    } else if c == 6 {
        2
    } else {
        1
    }
}

/// Whether sprite byte `byte` has its pixel set in column `c` (0 = leftmost).
pub open spec fn bit_set(byte: u8, c: int) -> bool {
    (byte as int / col_weight(c)) % 2 == 1
}

/// The distance from `b` up to `a` around a ring of size `m`, for
/// `a` and `b` in `[0, m)`.
pub open spec fn wrap_sub(a: int, b: int, m: int) -> int {
    if a >= b {
        a - b
    } else {
        a + m - b
    }
}

/// `a + d` around a ring of size `m`, for `a` and `d` in `[0, m)`.
pub open spec fn wrap_add(a: int, d: int, m: int) -> int {
    if a + d < m {
        a + d
    } else {
        a + d - m
    }
}

/// Whether the n-row sprite at `mem[i..]`, drawn with wraparound at origin
/// `(x0, y0)`, has a set bit over frame-buffer cell `p`.
pub open spec fn sprite_hits(mem: Seq<u8>, i: int, x0: int, y0: int, n: int, p: int) -> bool {
    let c = wrap_sub(p % 64, x0, 64);
    let r = wrap_sub(p / 64, y0, 32);
    c < 8 && r < n && bit_set(mem[i + r], c)
}

/// The frame buffer after the sprite is XOR-composited in: every cell
/// under a set sprite bit flips, every other cell stays.
pub open spec fn draw_gfx(gfx: Seq<u8>, mem: Seq<u8>, i: int, x0: int, y0: int, n: int) -> Seq<u8> {
    Seq::new(2048, |p: int| if sprite_hits(mem, i, x0, y0, n, p) { flip(gfx[p]) } else { gfx[p] })
}

/// Whether the draw turns any pixel from set to unset: a set sprite bit
/// lands on a cell that already holds 1.
pub open spec fn draw_collision(gfx: Seq<u8>, mem: Seq<u8>, i: int, x0: int, y0: int, n: int) -> bool {
    exists|p: int| 0 <= p < 2048 && sprite_hits(mem, i, x0, y0, n, p) && gfx[p] == 1
}

/// The lowest pressed key code at or above `k`, or 16 when none is pressed.
pub open spec fn first_pressed_key_from(keys: Seq<u8>, k: int) -> int
    decreases 16 - k,
{
    if k < 0 || k >= 16 {
        16
    } else if keys[k] != 0 {
        k
    } else {
        first_pressed_key_from(keys, k + 1)
    }
}

/// The lowest pressed key code, or 16 when no key is pressed.
pub open spec fn first_pressed_key(keys: Seq<u8>) -> int {
    first_pressed_key_from(keys, 0)
}

/// What executing one decoded instruction does to the machine state, or
/// the fault it reports. `rnd` is the byte the random source supplied for
/// this step; only `Cxnn` reads it.
pub open spec fn exec_instr(s: CpuView, instr: Instr, rnd: u8) -> Result<CpuView, Fault> {
    let pc2 = (s.pc + 2) as u16;
    let pc4 = (s.pc + 4) as u16;
    match instr {
        Instr::Cls => Ok(CpuView { gfx: Seq::new(2048, |p: int| 0u8), draw_flag: true, pc: pc2, ..s }),
        Instr::Ret => if s.sp == 0 {
            Err(Fault::StackUnderflow)
        } else {
            Ok(CpuView { pc: s.stack[s.sp - 1], sp: (s.sp - 1) as u16, ..s })
        },
        Instr::Jump(nnn) => Ok(CpuView { pc: nnn, ..s }),
        Instr::Call(nnn) => if s.sp >= 16 {
            Err(Fault::StackOverflow)
        } else {
            Ok(CpuView { stack: s.stack.update(s.sp as int, pc2), sp: (s.sp + 1) as u16, pc: nnn, ..s })
        },
        Instr::SkipEqImm(x, nn) => Ok(
            CpuView { pc: if s.v[x as int] == nn { pc4 } else { pc2 }, ..s },
        ),
        Instr::SkipNeImm(x, nn) => Ok(
            CpuView { pc: if s.v[x as int] != nn { pc4 } else { pc2 }, ..s },
        ),
        Instr::SkipEqReg(x, y) => Ok(
            CpuView { pc: if s.v[x as int] == s.v[y as int] { pc4 } else { pc2 }, ..s },
        ),
        Instr::LoadImm(x, nn) => Ok(CpuView { v: s.v.update(x as int, nn), pc: pc2, ..s }),
        Instr::AddImm(x, nn) => Ok(
            CpuView { v: s.v.update(x as int, ((s.v[x as int] + nn) % 256) as u8), pc: pc2, ..s },
        ),
        Instr::Move(x, y) => Ok(CpuView { v: s.v.update(x as int, s.v[y as int]), pc: pc2, ..s }),
        Instr::Or(x, y) => Ok(
            CpuView { v: s.v.update(x as int, s.v[x as int] | s.v[y as int]), pc: pc2, ..s },
        ),
        Instr::And(x, y) => Ok(
            CpuView { v: s.v.update(x as int, s.v[x as int] & s.v[y as int]), pc: pc2, ..s },
        ),
        Instr::Xor(x, y) => Ok(
            CpuView { v: s.v.update(x as int, s.v[x as int] ^ s.v[y as int]), pc: pc2, ..s },
        ),
        Instr::Add(x, y) => {
            let sum = s.v[x as int] + s.v[y as int];
            Ok(CpuView {
                v: s.v.update(x as int, (sum % 256) as u8).update(
                    15,
                    if sum > 255 { 1u8 } else { 0u8 },
                ),
                pc: pc2,
                ..s
            })
        },
        Instr::Sub(x, y) => {
            let vx = s.v[x as int];
            let vy = s.v[y as int];
            Ok(CpuView {
                v: s.v.update(x as int, ((vx - vy + 256) % 256) as u8).update(
                    15,
                    if vx >= vy { 1u8 } else { 0u8 },
                ),
                pc: pc2,
                ..s
            })
        },
        Instr::ShiftRight(x) => {
            let vx = s.v[x as int];
            Ok(CpuView {
                v: s.v.update(x as int, (vx / 2) as u8).update(15, (vx % 2) as u8),
                pc: pc2,
                ..s
            })
        },
        Instr::SubNeg(x, y) => {
            let vx = s.v[x as int];
            let vy = s.v[y as int];
            Ok(CpuView {
                v: s.v.update(x as int, ((vy - vx + 256) % 256) as u8).update(
                    15,
                    if vy >= vx { 1u8 } else { 0u8 },
                ),
                pc: pc2,
                ..s
            })
        },
        Instr::ShiftLeft(x) => {
            let vx = s.v[x as int];
            Ok(CpuView {
                v: s.v.update(x as int, ((vx * 2) % 256) as u8).update(15, (vx / 128) as u8),
                pc: pc2,
                ..s
            })
        },
        Instr::SkipNeReg(x, y) => Ok(
            CpuView { pc: if s.v[x as int] != s.v[y as int] { pc4 } else { pc2 }, ..s },
        ),
        Instr::LoadIndex(nnn) => Ok(CpuView { i: nnn, pc: pc2, ..s }),
        Instr::JumpPlusV0(nnn) => Ok(CpuView { pc: (nnn + s.v[0]) as u16, ..s }),
        Instr::Random(x, nn) => Ok(CpuView { v: s.v.update(x as int, rnd & nn), pc: pc2, ..s }),
        Instr::Draw(x, y, n) => {
            if n > 0 && s.i + n > 4096 {
                Err(Fault::MemoryOutOfBounds)
            } else {
                let x0 = s.v[x as int] as int % 64;
                let y0 = s.v[y as int] as int % 32;
                let hit = draw_collision(s.gfx, s.memory, s.i as int, x0, y0, n as int);
                Ok(CpuView {
                    gfx: draw_gfx(s.gfx, s.memory, s.i as int, x0, y0, n as int),
                    v: s.v.update(15, if hit { 1u8 } else { 0u8 }),
                    draw_flag: true,
                    pc: pc2,
                    ..s
                })
            }
        },
        Instr::SkipKeyPressed(x) => Ok(
            CpuView { pc: if s.keys[s.v[x as int] as int % 16] != 0 { pc4 } else { pc2 }, ..s },
        ),
        Instr::SkipKeyNotPressed(x) => Ok(
            CpuView { pc: if s.keys[s.v[x as int] as int % 16] == 0 { pc4 } else { pc2 }, ..s },
        ),
        Instr::ReadDelay(x) => Ok(CpuView { v: s.v.update(x as int, s.delay_timer), pc: pc2, ..s }),
        Instr::WaitKey(x) => {
            let k = first_pressed_key(s.keys);
            if k < 16 {
                Ok(CpuView { v: s.v.update(x as int, k as u8), pc: pc2, ..s })
            } else {
                Ok(s)
            }
        },
        Instr::SetDelay(x) => Ok(CpuView { delay_timer: s.v[x as int], pc: pc2, ..s }),
        Instr::SetSound(x) => Ok(CpuView { sound_timer: s.v[x as int], pc: pc2, ..s }),
        Instr::AddIndex(x) => Ok(
            CpuView { i: ((s.i + s.v[x as int]) % 0x10000) as u16, pc: pc2, ..s },
        ),
        Instr::FontIndex(x) => Ok(CpuView { i: (s.v[x as int] * 5) as u16, pc: pc2, ..s }),
        Instr::StoreBcd(x) => {
            if s.i + 3 > 4096 {
                Err(Fault::MemoryOutOfBounds)
            } else {
                let vx = s.v[x as int];
                Ok(CpuView {
                    memory: s.memory.update(s.i as int, (vx / 100) as u8).update(
                        s.i + 1,
                        ((vx / 10) % 10) as u8,
                    ).update(s.i + 2, (vx % 10) as u8),
                    pc: pc2,
                    ..s
                })
            }
        },
        Instr::StoreRegs(x) => {
            if s.i + x + 1 > 4096 {
                Err(Fault::MemoryOutOfBounds)
            } else {
                Ok(CpuView {
                    memory: Seq::new(
                        4096,
                        |k: int| if s.i <= k <= s.i + x { s.v[k - s.i] } else { s.memory[k] },
                    ),
                    pc: pc2,
                    ..s
                })
            }
        },
        Instr::LoadRegs(x) => {
            if s.i + x + 1 > 4096 {
                Err(Fault::MemoryOutOfBounds)
            } else {
                Ok(CpuView {
                    v: Seq::new(
                        16,
                        |k: int| if 0 <= k <= x { s.memory[s.i + k] } else { s.v[k] },
                    ),
                    pc: pc2,
                    ..s
                })
            }
        },
    }
}

/// Like [`sprite_hits`], but only counting the sprite bits the drawing
/// loop has already composited: the rows before `row`, and within `row`
/// the columns before `col`.
spec fn sprite_hits_before(
    mem: Seq<u8>,
    i: int,
    x0: int,
    y0: int,
    n: int,
    row: int,
    col: int,
    p: int,
) -> bool {
    let c = wrap_sub(p % 64, x0, 64);
    let r = wrap_sub(p / 64, y0, 32);
    c < 8 && r < n && (r < row || (r == row && c < col)) && bit_set(mem[i + r], c)
}

/// A sprite row and column land on exactly one frame-buffer cell: the one
/// the wrapped forward map gives.
proof fn lemma_hit_cell(x0: int, y0: int, col: int, row: int, p: int)
    requires
        0 <= x0 < 64,
        0 <= y0 < 32,
        0 <= col < 8,
        0 <= row < 32,
        0 <= p < 2048,
        wrap_sub(p % 64, x0, 64) == col,
        wrap_sub(p / 64, y0, 32) == row,
    ensures
        p == wrap_add(y0, row, 32) * 64 + wrap_add(x0, col, 64),
{
    let cx = p % 64;
    let cy = p / 64;
    assert(0 <= cx < 64);
    assert(p == 64 * cy + cx);
    assert(0 <= cy < 32);
    assert(cx == wrap_add(x0, col, 64));
    assert(cy == wrap_add(y0, row, 32));
}

/// The row-major index of a cell decomposes back into its coordinates.
proof fn lemma_cell_coords(cy: int, cx: int)
    requires
        0 <= cx < 64,
        0 <= cy < 32,
    ensures
        (cy * 64 + cx) % 64 == cx,
        (cy * 64 + cx) / 64 == cy,
{
    vstd::arithmetic::div_mod::lemma_fundamental_div_mod_converse_mod(cy * 64 + cx, 64, cy, cx);
    vstd::arithmetic::div_mod::lemma_fundamental_div_mod_converse_div(cy * 64 + cx, 64, cy, cx);
}

/// Whether sprite byte `byte` has its pixel set in column `col`, exactly
/// as [`bit_set`] says.
fn bit_at(byte: u8, col: u8) -> (b: bool)
    requires
        col < 8,
    ensures
        b == bit_set(byte, col as int),
{
    let w: u8 = if col == 0 {
        128
    } else if col == 1 {
        64
    } else if col == 2 {
        32
    } else if col == 3 {
        16
    } else if col == 4 {
        8
    } else if col == 5 {
        4
    } else if col == 6 {
        2
    } else {
        1
    };
    (byte / w) % 2 == 1
}

/// XOR-composite the n-row sprite at `memory[i..]` into the frame buffer
/// at origin `(x0, y0)`, wrapping at the screen edges; report whether any
/// pixel flipped from set to unset.
fn draw_sprite(gfx: &mut Vec<u8>, memory: &Vec<u8>, i: usize, x0: u8, y0: u8, n: u8) -> (hit: bool)
    requires
        old(gfx)@.len() == 2048,
        forall|p: int| 0 <= p < 2048 ==> old(gfx)@[p] == 0 || old(gfx)@[p] == 1,
        memory@.len() == 4096,
        x0 < 64,
        y0 < 32,
        n < 16,
        n > 0 ==> i + n <= 4096,
    ensures
        final(gfx)@ == draw_gfx(old(gfx)@, memory@, i as int, x0 as int, y0 as int, n as int),
        hit == draw_collision(old(gfx)@, memory@, i as int, x0 as int, y0 as int, n as int),
        forall|p: int| 0 <= p < 2048 ==> final(gfx)@[p] == 0 || final(gfx)@[p] == 1,
{
    let ghost g0 = old(gfx)@;
    let ghost m = memory@;
    let ghost ii = i as int;
    let mut hit: bool = false;
    let mut row: u8 = 0;
    while row < n
        invariant
            gfx@.len() == 2048,
            forall|p: int| 0 <= p < 2048 ==> g0[p] == 0 || g0[p] == 1,
            m.len() == 4096,
            m == memory@,
            ii == i as int,
            x0 < 64,
            y0 < 32,
            n < 16,
            n > 0 ==> i + n <= 4096,
            row <= n,
            forall|p: int|
                0 <= p < 2048 ==> gfx@[p] == (if sprite_hits_before(
                    m,
                    ii,
                    x0 as int,
                    y0 as int,
                    n as int,
                    row as int,
                    0,
                    p,
                ) {
                    flip(g0[p])
                } else {
                    g0[p]
                }),
            hit == exists|p: int|
                0 <= p < 2048 && sprite_hits_before(
                    m,
                    ii,
                    x0 as int,
                    y0 as int,
                    n as int,
                    row as int,
                    0,
                    p,
                ) && g0[p] == 1,
        decreases n - row,
    {
        let byte = memory[i + row as usize];
        let cy: u8 = if y0 + row < 32 {
            y0 + row
        } else {
            y0 + row - 32
        };
        let mut col: u8 = 0;
        while col < 8
            invariant
                gfx@.len() == 2048,
                forall|p: int| 0 <= p < 2048 ==> g0[p] == 0 || g0[p] == 1,
                m.len() == 4096,
                m == memory@,
                ii == i as int,
                x0 < 64,
                y0 < 32,
                n < 16,
                n > 0 ==> i + n <= 4096,
                row < n,
                col <= 8,
                byte == m[ii + row],
                cy as int == wrap_add(y0 as int, row as int, 32),
                forall|p: int|
                    0 <= p < 2048 ==> gfx@[p] == (if sprite_hits_before(
                        m,
                        ii,
                        x0 as int,
                        y0 as int,
                        n as int,
                        row as int,
                        col as int,
                        p,
                    ) {
                        flip(g0[p])
                    } else {
                        g0[p]
                    }),
                hit == exists|p: int|
                    0 <= p < 2048 && sprite_hits_before(
                        m,
                        ii,
                        x0 as int,
                        y0 as int,
                        n as int,
                        row as int,
                        col as int,
                        p,
                    ) && g0[p] == 1,
            decreases 8 - col,
        {
            let ghost xx = x0 as int;
            let ghost yy = y0 as int;
            let ghost nn = n as int;
            let ghost rr = row as int;
            let ghost cc = col as int;
            if bit_at(byte, col) {
                let cx: u8 = if x0 + col < 64 {
                    x0 + col
                } else {
                    x0 + col - 64
                };
                let idx: usize = cy as usize * 64 + cx as usize;
                proof {
                    lemma_cell_coords(cy as int, cx as int);
                    assert(idx < 2048);
                    assert(wrap_sub(idx as int % 64, xx, 64) == cc);
                    assert(wrap_sub(idx as int / 64, yy, 32) == rr);
                    assert(!sprite_hits_before(m, ii, xx, yy, nn, rr, cc, idx as int));
                    assert(gfx@[idx as int] == g0[idx as int]);
                    assert forall|p: int|
                        0 <= p < 2048 && p != idx as int implies sprite_hits_before(
                        m,
                        ii,
                        xx,
                        yy,
                        nn,
                        rr,
                        cc + 1,
                        p,
                    ) == sprite_hits_before(m, ii, xx, yy, nn, rr, cc, p) by {
                        if wrap_sub(p % 64, xx, 64) == cc && wrap_sub(p / 64, yy, 32) == rr {
                            lemma_hit_cell(xx, yy, cc, rr, p);
                        }
                    }
                    assert(sprite_hits_before(m, ii, xx, yy, nn, rr, cc + 1, idx as int));
                }
                let cur = gfx[idx];
                if cur == 1 {
                    hit = true;
                    proof {
                        assert(sprite_hits_before(m, ii, xx, yy, nn, rr, cc + 1, idx as int)
                            && g0[idx as int] == 1);
                    }
                }
                gfx.set(idx, if cur == 0 { 1 } else { 0 });
                proof {
                    assert forall|p: int| 0 <= p < 2048 implies gfx@[p] == (if sprite_hits_before(
                        m,
                        ii,
                        xx,
                        yy,
                        nn,
                        rr,
                        cc + 1,
                        p,
                    ) {
                        flip(g0[p])
                    } else {
                        g0[p]
                    }) by {}
                    if !hit {
                        assert forall|p: int|
                            0 <= p < 2048 && sprite_hits_before(m, ii, xx, yy, nn, rr, cc + 1, p)
                                implies g0[p] != 1 by {}
                    }
                }
            } else {
                proof {
                    assert forall|p: int| 0 <= p < 2048 implies sprite_hits_before(
                        m,
                        ii,
                        xx,
                        yy,
                        nn,
                        rr,
                        cc + 1,
                        p,
                    ) == sprite_hits_before(m, ii, xx, yy, nn, rr, cc, p) by {}
                }
            }
            col = col + 1;
        }
        row = row + 1;
        proof {
            assert forall|p: int| 0 <= p < 2048 implies sprite_hits_before(
                m,
                ii,
                x0 as int,
                y0 as int,
                n as int,
                row as int,
                0,
                p,
            ) == sprite_hits_before(
                m,
                ii,
                x0 as int,
                y0 as int,
                n as int,
                row as int - 1,
                8,
                p,
            ) by {}
        }
    }
    proof {
        let xx = x0 as int;
        let yy = y0 as int;
        let nn = n as int;
        assert forall|p: int| 0 <= p < 2048 implies sprite_hits_before(
            m,
            ii,
            xx,
            yy,
            nn,
            nn,
            0,
            p,
        ) == sprite_hits(m, ii, xx, yy, nn, p) by {}
        assert(gfx@ =~= draw_gfx(g0, m, ii, xx, yy, nn));
        if hit {
            let p = choose|p: int|
                0 <= p < 2048 && sprite_hits_before(m, ii, xx, yy, nn, nn, 0, p) && g0[p] == 1;
            assert(0 <= p < 2048 && sprite_hits(m, ii, xx, yy, nn, p) && g0[p] == 1);
        }
        if draw_collision(g0, m, ii, xx, yy, nn) {
            let p = choose|p: int|
                0 <= p < 2048 && sprite_hits(m, ii, xx, yy, nn, p) && g0[p] == 1;
            assert(sprite_hits_before(m, ii, xx, yy, nn, nn, 0, p) && g0[p] == 1);
        }
    }
    hit
}

/// The lowest pressed key code, or 16 when no key is pressed, exactly as
/// [`first_pressed_key`] says.
fn first_pressed_key_exec(keys: &Vec<u8>) -> (r: usize)
    requires
        keys@.len() == 16,
    ensures
        r as int == first_pressed_key(keys@),
{
    let mut k: usize = 0;
    while k < 16
        invariant
            keys@.len() == 16,
            k <= 16,
            first_pressed_key(keys@) == first_pressed_key_from(keys@, k as int),
        decreases 16 - k,
    {
        if keys[k] != 0 {
            return k;
        }
        k = k + 1;
    }
    16
}

/// Copy `v[0..=x]` into `memory[i..]`, leaving every other byte as it was.
fn store_regs(memory: &mut Vec<u8>, v: &Vec<u8>, i: usize, x: usize)
    requires
        old(memory)@.len() == 4096,
        v@.len() == 16,
        x < 16,
        i + x + 1 <= 4096,
    ensures
        final(memory)@ == Seq::new(
            4096,
            |k: int| if i <= k <= i + x { v@[k - i] } else { old(memory)@[k] },
        ),
{
    let mut k: usize = 0;
    while k <= x
        invariant
            memory@.len() == 4096,
            v@.len() == 16,
            x < 16,
            i + x + 1 <= 4096,
            k <= x + 1,
            forall|p: int| 0 <= p < 4096 && !(i <= p < i + k) ==> memory@[p] == old(memory)@[p],
            forall|p: int| 0 <= p < k ==> memory@[i + p] == v@[p],
        decreases x + 1 - k,
    {
        memory.set(i + k, v[k]);
        k = k + 1;
    }
    proof {
        assert(memory@ =~= Seq::new(
            4096,
            |k: int| if i <= k <= i + x { v@[k - i] } else { old(memory)@[k] },
        ));
    }
}

/// Fill `v[0..=x]` from `memory[i..]`, leaving the higher registers as
/// they were.
fn load_regs(v: &mut Vec<u8>, memory: &Vec<u8>, i: usize, x: usize)
    requires
        old(v)@.len() == 16,
        memory@.len() == 4096,
        x < 16,
        i + x + 1 <= 4096,
    ensures
        final(v)@ == Seq::new(
            16,
            |k: int| if 0 <= k <= x { memory@[i + k] } else { old(v)@[k] },
        ),
{
    let mut k: usize = 0;
    while k <= x
        invariant
            v@.len() == 16,
            memory@.len() == 4096,
            x < 16,
            i + x + 1 <= 4096,
            k <= x + 1,
            forall|p: int| 0 <= p < 16 && !(p < k) ==> v@[p] == old(v)@[p],
            forall|p: int| 0 <= p < k ==> v@[p] == memory@[i + p],
        decreases x + 1 - k,
    {
        v.set(k, memory[i + k]);
        k = k + 1;
    }
    proof {
        assert(v@ =~= Seq::new(
            16,
            |k: int| if 0 <= k <= x { memory@[i + k] } else { old(v)@[k] },
        ));
    }
}

/// The opcode two consecutive memory bytes at the program counter spell,
/// big-endian.
pub open spec fn fetched_op(s: CpuView) -> u16 {
    (s.memory[s.pc as int] * 256 + s.memory[s.pc as int + 1]) as u16
}

/// What one whole interpreter step does: fetch (faulting when the program
/// counter runs past memory), decode (faulting on an unknown opcode), then
/// execute as [`exec_instr`] says.
pub open spec fn spec_step(s: CpuView, rnd: u8) -> Result<CpuView, Fault> {
    if s.pc as int + 1 >= 4096 {
        Err(Fault::MemoryOutOfBounds)
    } else {
        match decode(fetched_op(s)) {
            Option::None => Err(Fault::DecodeFault),
            Option::Some(instr) => exec_instr(s, instr, rnd),
        }
    }
}

/// How the machine state after a step relates to the state before it:
/// on success the new state is exactly what [`spec_step`] says, on a fault
/// the reported fault is exactly the one [`spec_step`] says and nothing
/// moved.
pub open spec fn step_post(pre: CpuView, post: CpuView, r: Result<(), Fault>, rnd: u8) -> bool {
    match r {
        Result::Ok(()) => spec_step(pre, rnd) == Ok::<CpuView, Fault>(post),
        Result::Err(e) => spec_step(pre, rnd) == Err::<CpuView, Fault>(e) && post == pre,
    }
}

/// Relies on rand::random: one byte drawn from the thread-local generator.
/// Nothing is assumed of its value.
#[verifier::external_body]
fn random_byte() -> u8 {
    rand::random::<u8>()
}

impl Cpu {
    /// Execute exactly one instruction with `rnd` standing in for the
    /// random source: fetch at the program counter, decode, execute.
    ///
    /// Exactly [`spec_step`] happens: on success the new state is what it
    /// says for this `rnd`; on a fault the reported kind is what it says
    /// and the machine state is untouched. Only `Cxnn` reads `rnd`, so
    /// this function is the whole interpreter as a deterministic function
    /// of the state and that byte.
    pub fn step_with(&mut self, rnd: u8) -> (r: Result<(), Fault>)
        requires
            old(self)@.wf(),
        ensures
            final(self)@.wf(),
            step_post(old(self)@, final(self)@, r, rnd),
    {
        if self.pc >= 4095 {
            return Err(Fault::MemoryOutOfBounds);
        }
        let pc = self.pc as usize;
        let op: u16 = (self.memory[pc] as u16) * 256 + (self.memory[pc + 1] as u16);
        proof {
            assert(op == fetched_op(old(self)@));
        }
        let instr = match decode_op(op) {
            Option::None => {
                return Err(Fault::DecodeFault);
            },
            Option::Some(instr) => instr,
        };
        match instr {
            Instr::Cls => {
                self.gfx = crate::cpu::zeroed_bytes(2048);
                self.draw_flag = true;
                self.pc = self.pc + 2;
                proof {
                    assert(self@ =~= exec_instr(old(self)@, instr, rnd)->Ok_0);
                }
            },
            Instr::Ret => {
                if self.sp == 0 {
                    return Err(Fault::StackUnderflow);
                }
                self.sp = self.sp - 1;
                self.pc = self.stack[self.sp as usize];
                proof {
                    assert(self@ =~= exec_instr(old(self)@, instr, rnd)->Ok_0);
                }
            },
            Instr::Jump(nnn) => {
                self.pc = nnn;
                proof {
                    assert(self@ =~= exec_instr(old(self)@, instr, rnd)->Ok_0);
                }
            },
            Instr::Call(nnn) => {
                if self.sp >= 16 {
                    return Err(Fault::StackOverflow);
                }
                let ret_addr: u16 = self.pc + 2;
                self.stack.set(self.sp as usize, ret_addr);
                self.sp = self.sp + 1;
                self.pc = nnn;
                proof {
                    assert(self@ =~= exec_instr(old(self)@, instr, rnd)->Ok_0);
                }
            },
            Instr::SkipEqImm(x, nn) => {
                if self.v[x as usize] == nn {
                    self.pc = self.pc + 4;
                } else {
                    self.pc = self.pc + 2;
                }
                proof {
                    assert(self@ =~= exec_instr(old(self)@, instr, rnd)->Ok_0);
                }
            },
            Instr::SkipNeImm(x, nn) => {
                if self.v[x as usize] != nn {
                    self.pc = self.pc + 4;
                } else {
                    self.pc = self.pc + 2;
                }
                proof {
                    assert(self@ =~= exec_instr(old(self)@, instr, rnd)->Ok_0);
                }
            },
            Instr::SkipEqReg(x, y) => {
                if self.v[x as usize] == self.v[y as usize] {
                    self.pc = self.pc + 4;
                } else {
                    self.pc = self.pc + 2;
                }
                proof {
                    assert(self@ =~= exec_instr(old(self)@, instr, rnd)->Ok_0);
                }
            },
            Instr::LoadImm(x, nn) => {
                self.v.set(x as usize, nn);
                self.pc = self.pc + 2;
                proof {
                    assert(self@ =~= exec_instr(old(self)@, instr, rnd)->Ok_0);
                }
            },
            Instr::AddImm(x, nn) => {
                let sum: u16 = self.v[x as usize] as u16 + nn as u16;
                self.v.set(x as usize, (sum % 256) as u8);
                self.pc = self.pc + 2;
                proof {
                    assert(self@ =~= exec_instr(old(self)@, instr, rnd)->Ok_0);
                }
            },
            Instr::Move(x, y) => {
                let vy = self.v[y as usize];
                self.v.set(x as usize, vy);
                self.pc = self.pc + 2;
                proof {
                    assert(self@ =~= exec_instr(old(self)@, instr, rnd)->Ok_0);
                }
            },
            Instr::Or(x, y) => {
                let vx = self.v[x as usize];
                let vy = self.v[y as usize];
                self.v.set(x as usize, vx | vy);
                self.pc = self.pc + 2;
                proof {
                    assert(self@ =~= exec_instr(old(self)@, instr, rnd)->Ok_0);
                }
            },
            Instr::And(x, y) => {
                let vx = self.v[x as usize];
                let vy = self.v[y as usize];
                self.v.set(x as usize, vx & vy);
                self.pc = self.pc + 2;
                proof {
                    assert(self@ =~= exec_instr(old(self)@, instr, rnd)->Ok_0);
                }
            },
            Instr::Xor(x, y) => {
                let vx = self.v[x as usize];
                let vy = self.v[y as usize];
                self.v.set(x as usize, vx ^ vy);
                self.pc = self.pc + 2;
                proof {
                    assert(self@ =~= exec_instr(old(self)@, instr, rnd)->Ok_0);
                }
            },
            Instr::Add(x, y) => {
                let sum: u16 = self.v[x as usize] as u16 + self.v[y as usize] as u16;
                self.v.set(x as usize, (sum % 256) as u8);
                self.v.set(15, if sum > 255 { 1 } else { 0 });
                self.pc = self.pc + 2;
                proof {
                    assert(self@ =~= exec_instr(old(self)@, instr, rnd)->Ok_0);
                }
            },
            Instr::Sub(x, y) => {
                let vx = self.v[x as usize];
                let vy = self.v[y as usize];
                self.v.set(x as usize, ((vx as u16 + 256 - vy as u16) % 256) as u8);
                self.v.set(15, if vx >= vy { 1 } else { 0 });
                self.pc = self.pc + 2;
                proof {
                    assert(self@ =~= exec_instr(old(self)@, instr, rnd)->Ok_0);
                }
            },
            Instr::ShiftRight(x) => {
                let vx = self.v[x as usize];
                self.v.set(x as usize, vx / 2);
                self.v.set(15, vx % 2);
                self.pc = self.pc + 2;
                proof {
                    assert(self@ =~= exec_instr(old(self)@, instr, rnd)->Ok_0);
                }
            },
            Instr::SubNeg(x, y) => {
                let vx = self.v[x as usize];
                let vy = self.v[y as usize];
                self.v.set(x as usize, ((vy as u16 + 256 - vx as u16) % 256) as u8);
                self.v.set(15, if vy >= vx { 1 } else { 0 });
                self.pc = self.pc + 2;
                proof {
                    assert(self@ =~= exec_instr(old(self)@, instr, rnd)->Ok_0);
                }
            },
            Instr::ShiftLeft(x) => {
                let vx = self.v[x as usize];
                self.v.set(x as usize, ((vx as u16 * 2) % 256) as u8);
                self.v.set(15, vx / 128);
                self.pc = self.pc + 2;
                proof {
                    assert(self@ =~= exec_instr(old(self)@, instr, rnd)->Ok_0);
                }
            },
            Instr::SkipNeReg(x, y) => {
                if self.v[x as usize] != self.v[y as usize] {
                    self.pc = self.pc + 4;
                } else {
                    self.pc = self.pc + 2;
                }
                proof {
                    assert(self@ =~= exec_instr(old(self)@, instr, rnd)->Ok_0);
                }
            },
            Instr::LoadIndex(nnn) => {
                self.i = nnn;
                self.pc = self.pc + 2;
                proof {
                    assert(self@ =~= exec_instr(old(self)@, instr, rnd)->Ok_0);
                }
            },
            Instr::JumpPlusV0(nnn) => {
                self.pc = nnn + self.v[0] as u16;
                proof {
                    assert(self@ =~= exec_instr(old(self)@, instr, rnd)->Ok_0);
                }
            },
            Instr::Random(x, nn) => {
                self.v.set(x as usize, rnd & nn);
                self.pc = self.pc + 2;
                proof {
                    assert(self@ =~= exec_instr(old(self)@, instr, rnd)->Ok_0);
                }
            },
            Instr::Draw(x, y, n) => {
                if n > 0 && self.i as usize + n as usize > 4096 {
                    return Err(Fault::MemoryOutOfBounds);
                }
                let x0: u8 = self.v[x as usize] % 64;
                let y0: u8 = self.v[y as usize] % 32;
                let hit = draw_sprite(&mut self.gfx, &self.memory, self.i as usize, x0, y0, n);
                self.v.set(15, if hit { 1 } else { 0 });
                self.draw_flag = true;
                self.pc = self.pc + 2;
                proof {
                    assert(self@ =~= exec_instr(old(self)@, instr, rnd)->Ok_0);
                }
            },
            Instr::SkipKeyPressed(x) => {
                let key = (self.v[x as usize] % 16) as usize;
                if self.keys[key] != 0 {
                    self.pc = self.pc + 4;
                } else {
                    self.pc = self.pc + 2;
                }
                proof {
                    assert(self@ =~= exec_instr(old(self)@, instr, rnd)->Ok_0);
                }
            },
            Instr::SkipKeyNotPressed(x) => {
                let key = (self.v[x as usize] % 16) as usize;
                if self.keys[key] == 0 {
                    self.pc = self.pc + 4;
                } else {
                    self.pc = self.pc + 2;
                }
                proof {
                    assert(self@ =~= exec_instr(old(self)@, instr, rnd)->Ok_0);
                }
            },
            Instr::ReadDelay(x) => {
                let t = self.delay_timer;
                self.v.set(x as usize, t);
                self.pc = self.pc + 2;
                proof {
                    assert(self@ =~= exec_instr(old(self)@, instr, rnd)->Ok_0);
                }
            },
            Instr::WaitKey(x) => {
                let k = first_pressed_key_exec(&self.keys);
                if k < 16 {
                    self.v.set(x as usize, k as u8);
                    self.pc = self.pc + 2;
                }
                proof {
                    assert(self@ =~= exec_instr(old(self)@, instr, rnd)->Ok_0);
                }
            },
            Instr::SetDelay(x) => {
                self.delay_timer = self.v[x as usize];
                self.pc = self.pc + 2;
                proof {
                    assert(self@ =~= exec_instr(old(self)@, instr, rnd)->Ok_0);
                }
            },
            Instr::SetSound(x) => {
                self.sound_timer = self.v[x as usize];
                self.pc = self.pc + 2;
                proof {
                    assert(self@ =~= exec_instr(old(self)@, instr, rnd)->Ok_0);
                }
            },
            Instr::AddIndex(x) => {
                let sum: u32 = self.i as u32 + self.v[x as usize] as u32;
                self.i = (sum % 0x10000) as u16;
                self.pc = self.pc + 2;
                proof {
                    assert(self@ =~= exec_instr(old(self)@, instr, rnd)->Ok_0);
                }
            },
            Instr::FontIndex(x) => {
                self.i = self.v[x as usize] as u16 * 5;
                self.pc = self.pc + 2;
                proof {
                    assert(self@ =~= exec_instr(old(self)@, instr, rnd)->Ok_0);
                }
            },
            Instr::StoreBcd(x) => {
                if self.i as usize + 3 > 4096 {
                    return Err(Fault::MemoryOutOfBounds);
                }
                let vx = self.v[x as usize];
                let ii = self.i as usize;
                self.memory.set(ii, vx / 100);
                self.memory.set(ii + 1, (vx / 10) % 10);
                self.memory.set(ii + 2, vx % 10);
                self.pc = self.pc + 2;
                proof {
                    assert(self@ =~= exec_instr(old(self)@, instr, rnd)->Ok_0);
                }
            },
            Instr::StoreRegs(x) => {
                if self.i as usize + x as usize + 1 > 4096 {
                    return Err(Fault::MemoryOutOfBounds);
                }
                store_regs(&mut self.memory, &self.v, self.i as usize, x as usize);
                self.pc = self.pc + 2;
                proof {
                    assert(self@ =~= exec_instr(old(self)@, instr, rnd)->Ok_0);
                }
            },
            Instr::LoadRegs(x) => {
                if self.i as usize + x as usize + 1 > 4096 {
                    return Err(Fault::MemoryOutOfBounds);
                }
                load_regs(&mut self.v, &self.memory, self.i as usize, x as usize);
                self.pc = self.pc + 2;
                proof {
                    assert(self@ =~= exec_instr(old(self)@, instr, rnd)->Ok_0);
                }
            },
        }
        Ok(())
    }

    /// Execute exactly one instruction, drawing the byte a `Cxnn`
    /// instruction masks from the process-wide random source.
    ///
    /// Some byte exists for which the step behaved exactly as
    /// [`spec_step`] says; every instruction but `Cxnn` ignores it, so for
    /// them the outcome is fully determined by the state alone.
    pub fn step(&mut self) -> (r: Result<(), Fault>)
        requires
            old(self)@.wf(),
        ensures
            final(self)@.wf(),
            exists|rnd: u8| step_post(old(self)@, final(self)@, r, rnd),
    {
        let rnd = random_byte();
        let r = self.step_with(rnd);
        proof {
            assert(step_post(old(self)@, self@, r, rnd));
        }
        r
    }
}

} // verus!
