//! Laws of the instruction set: properties that relate several
//! instructions or several executions, stated over the same specification
//! functions the step contracts use, and proved once and for all.

use vstd::prelude::*;

use crate::cpu::loaded_memory;
use crate::cpu::CpuView;
use crate::cpu::Fault;
use crate::decode::Instr;
use crate::exec::exec_instr;
use crate::exec::fetched_op;
use crate::exec::flip;
use crate::exec::spec_step;
use crate::exec::sprite_hits;

verus! {

/// Byte addition wraps: `7xnn` never faults, whatever the operands, and
/// stores `(V[x] + nn) mod 256` — with `V[x] = 250` and `nn = 10` that is
/// 4, not a fault.
pub proof fn lemma_add_imm_wraps(s: CpuView, x: u8, nn: u8, rnd: u8)
    requires
        s.wf(),
        x < 16,
    ensures
        exec_instr(s, Instr::AddImm(x, nn), rnd) is Ok,
        exec_instr(s, Instr::AddImm(x, nn), rnd)->Ok_0.v[x as int] == (s.v[x as int] + nn) % 256,
{
}

/// `00EE` immediately after `2nnn` returns the program counter to the
/// instruction following the call, and leaves registers, memory, frame
/// buffer, index register, timers, keys, stack pointer and the live part
/// of the stack as they were.
pub proof fn lemma_call_then_ret(s: CpuView, nnn: u16, rnd1: u8, rnd2: u8)
    requires
        s.wf(),
        s.sp < 16,
    ensures
        exec_instr(s, Instr::Call(nnn), rnd1) is Ok,
        ({
            let s1 = exec_instr(s, Instr::Call(nnn), rnd1)->Ok_0;
            &&& exec_instr(s1, Instr::Ret, rnd2) is Ok
            &&& ({
                let s2 = exec_instr(s1, Instr::Ret, rnd2)->Ok_0;
                &&& s2.pc == (s.pc + 2) as u16
                &&& s2.v == s.v
                &&& s2.memory == s.memory
                &&& s2.gfx == s.gfx
                &&& s2.i == s.i
                &&& s2.sp == s.sp
                &&& s2.delay_timer == s.delay_timer
                &&& s2.sound_timer == s.sound_timer
                &&& s2.keys == s.keys
                &&& s2.draw_flag == s.draw_flag
                &&& forall|k: int| 0 <= k < s.sp ==> s2.stack[k] == s.stack[k]
            })
        }),
{
}

/// XOR compositing is an involution: drawing the same sprite twice at the
/// same position restores every frame-buffer cell, and the second draw
/// reports a collision in VF exactly when the first draw set some pixel
/// that had been clear. Stated for `x` and `y` other than 15, since VF
/// itself is overwritten by the first draw's collision flag.
pub proof fn lemma_draw_twice_restores(s: CpuView, x: u8, y: u8, n: u8, rnd1: u8, rnd2: u8)
    requires
        s.wf(),
        x < 16,
        y < 16,
        n < 16,
        x != 15,
        y != 15,
        n > 0 ==> s.i + n <= 4096,
    ensures
        exec_instr(s, Instr::Draw(x, y, n), rnd1) is Ok,
        ({
            let x0 = s.v[x as int] as int % 64;
            let y0 = s.v[y as int] as int % 32;
            let s1 = exec_instr(s, Instr::Draw(x, y, n), rnd1)->Ok_0;
            &&& exec_instr(s1, Instr::Draw(x, y, n), rnd2) is Ok
            &&& ({
                let s2 = exec_instr(s1, Instr::Draw(x, y, n), rnd2)->Ok_0;
                &&& s2.gfx =~= s.gfx
                &&& (s2.v[15] == 1 <==> exists|p: int|
                    0 <= p < 2048 && sprite_hits(s.memory, s.i as int, x0, y0, n as int, p)
                        && s.gfx[p] == 0)
            })
        }),
{
    let x0 = s.v[x as int] as int % 64;
    let y0 = s.v[y as int] as int % 32;
    let s1 = exec_instr(s, Instr::Draw(x, y, n), rnd1)->Ok_0;
    assert(s1.v[x as int] == s.v[x as int]);
    assert(s1.v[y as int] == s.v[y as int]);
    let s2 = exec_instr(s1, Instr::Draw(x, y, n), rnd2)->Ok_0;
    assert forall|p: int| 0 <= p < 2048 implies s2.gfx[p] == s.gfx[p] by {
        if sprite_hits(s.memory, s.i as int, x0, y0, n as int, p) {
            assert(s1.gfx[p] == flip(s.gfx[p]));
            assert(s2.gfx[p] == flip(flip(s.gfx[p])));
        }
    }
    assert(s2.gfx =~= s.gfx);
    if exists|p: int|
        0 <= p < 2048 && sprite_hits(s.memory, s.i as int, x0, y0, n as int, p) && s.gfx[p]
            == 0 {
        let p = choose|p: int|
            0 <= p < 2048 && sprite_hits(s.memory, s.i as int, x0, y0, n as int, p) && s.gfx[p]
                == 0;
        assert(s1.gfx[p] == 1);
    }
    if s2.v[15] == 1 {
        let p = choose|p: int|
            0 <= p < 2048 && sprite_hits(s1.memory, s1.i as int, x0, y0, n as int, p)
                && s1.gfx[p] == 1;
        assert(s.gfx[p] == 0);
    }
}

/// `8xy4` sets VF to 1 exactly when `V[x] + V[y]` exceeds 255, and stores
/// `(V[x] + V[y]) mod 256`. The flag is written last, so for `x = 15` the
/// flag is what remains in V[x]; the stored-sum clause therefore speaks of
/// the other fifteen registers.
pub proof fn lemma_add_carry(s: CpuView, x: u8, y: u8, rnd: u8)
    requires
        s.wf(),
        x < 16,
        y < 16,
    ensures
        exec_instr(s, Instr::Add(x, y), rnd) is Ok,
        ({
            let s1 = exec_instr(s, Instr::Add(x, y), rnd)->Ok_0;
            &&& (s1.v[15] == 1 <==> s.v[x as int] + s.v[y as int] > 255)
            &&& (s1.v[15] == 1 || s1.v[15] == 0)
            &&& (x != 15 ==> s1.v[x as int] == (s.v[x as int] + s.v[y as int]) % 256)
        }),
{
}

/// Dumping `V[0..=x]` to memory with `Fx55` and then loading from the
/// same address with `Fx65` recovers every register value, for every x.
pub proof fn lemma_store_load_round_trip(s: CpuView, x: u8, rnd1: u8, rnd2: u8)
    requires
        s.wf(),
        x < 16,
        s.i + x + 1 <= 4096,
    ensures
        exec_instr(s, Instr::StoreRegs(x), rnd1) is Ok,
        ({
            let s1 = exec_instr(s, Instr::StoreRegs(x), rnd1)->Ok_0;
            &&& exec_instr(s1, Instr::LoadRegs(x), rnd2) is Ok
            &&& exec_instr(s1, Instr::LoadRegs(x), rnd2)->Ok_0.v =~= s.v
        }),
{
    let s1 = exec_instr(s, Instr::StoreRegs(x), rnd1)->Ok_0;
    let s2 = exec_instr(s1, Instr::LoadRegs(x), rnd2)->Ok_0;
    assert forall|k: int| 0 <= k < 16 implies s2.v[k] == s.v[k] by {
        if k <= x {
            assert(s1.memory[s.i + k] == s.v[k]);
        }
    }
}

/// A six-instruction demonstration image: clear the screen, point the
/// index register at the glyph table, set V1 and V2 to 5, draw two rows of
/// glyph 0 at (5, 5), and jump back to the start.
pub open spec fn draw_loop_program() -> Seq<u8> {
    seq![0x00u8, 0xE0, 0xA0, 0x00, 0x61, 0x05, 0x62, 0x05, 0xD1, 0x22, 0x12, 0x00]
}

/// The inductive invariant of a machine running [`draw_loop_program`]:
/// the image sits at 0x200, the program counter stands on one of its six
/// instructions, and from the moment the second instruction has set it
/// until the jump, the index register points at the glyph table.
pub open spec fn draw_loop_inv(s: CpuView) -> bool {
    &&& s.wf()
    &&& forall|k: int| 0 <= k < 12 ==> s.memory[0x200 + k] == draw_loop_program()[k]
    &&& (s.pc == 0x200 || s.pc == 0x202 || ((s.pc == 0x204 || s.pc == 0x206 || s.pc == 0x208)
        && s.i == 0) || s.pc == 0x20A)
}

/// A freshly initialized machine with [`draw_loop_program`] loaded at
/// 0x200 satisfies the invariant.
pub proof fn lemma_draw_loop_start()
    ensures
        draw_loop_inv(
            CpuView {
                memory: loaded_memory(CpuView::initial().memory, draw_loop_program()),
                ..CpuView::initial()
            },
        ),
{
}

/// Running [`draw_loop_program`] keeps the program counter inside the
/// image forever: from any state of the invariant, one step never faults,
/// re-establishes the invariant, and leaves the program counter within
/// the program's twelve bytes — so by induction that holds for any number
/// of steps.
pub proof fn lemma_draw_loop_stays_in_bounds(s: CpuView, rnd: u8)
    requires
        draw_loop_inv(s),
    ensures
        spec_step(s, rnd) is Ok,
        draw_loop_inv(spec_step(s, rnd)->Ok_0),
        0x200 <= spec_step(s, rnd)->Ok_0.pc < 0x200 + 12,
{
    let prog = draw_loop_program();
    assert(s.memory[s.pc as int] == prog[s.pc - 0x200]);
    assert(s.memory[s.pc as int + 1] == prog[s.pc + 1 - 0x200]);
    let s1 = spec_step(s, rnd)->Ok_0;
    if s.pc == 0x200 {
        assert(fetched_op(s) == 0x00E0);
    } else if s.pc == 0x202 {
        assert(fetched_op(s) == 0xA000);
    } else if s.pc == 0x204 {
        assert(fetched_op(s) == 0x6105);
    } else if s.pc == 0x206 {
        assert(fetched_op(s) == 0x6205);
    } else if s.pc == 0x208 {
        assert(fetched_op(s) == 0xD122);
    } else {
        assert(fetched_op(s) == 0x1200);
    }
    assert forall|p: int| 0 <= p < 2048 implies s1.gfx[p] == 0 || s1.gfx[p] == 1 by {}
    assert forall|k: int| 0 <= k < 12 implies s1.memory[0x200 + k] == prog[k] by {}
}

/// Stack discipline: a call with all sixteen slots in use reports
/// StackOverflow — so the seventeenth of nested calls fails — a call with
/// a free slot deepens the stack by one, and a return on an empty stack
/// reports StackUnderflow.
pub proof fn lemma_stack_discipline(s: CpuView, nnn: u16, rnd: u8)
    requires
        s.wf(),
    ensures
        s.sp == 16 ==> exec_instr(s, Instr::Call(nnn), rnd) == Err::<CpuView, Fault>(
            Fault::StackOverflow,
        ),
        s.sp < 16 ==> exec_instr(s, Instr::Call(nnn), rnd) is Ok && exec_instr(
            s,
            Instr::Call(nnn),
            rnd,
        )->Ok_0.sp == s.sp + 1,
        s.sp == 0 ==> exec_instr(s, Instr::Ret, rnd) == Err::<CpuView, Fault>(
            Fault::StackUnderflow,
        ),
{
}

} // verus!
