//! Behavioural theorems about the instruction set, stated and proved over
//! the machine model that every engine method's contract speaks of.

use vstd::prelude::*;

use crate::model::{
    draw_bit, draw_collision, first_pressed_from, op_kk, op_nnn, op_x, op_y, spec_add_byte,
    spec_add_reg, spec_call, spec_cls, spec_cycle, spec_decode, spec_drw, spec_fetch, spec_ret,
    spec_shr, spec_wait_key, wrap_add2, wrap_back2, Model, Op,
};
use crate::Chip8Error;

verus! {

/// Adding an immediate byte into a register wraps modulo 256, touches no
/// other register, and in particular never sets the flag register when the
/// destination is another register.
pub proof fn lemma_add_byte(m: Model)
    requires
        m.wf(),
    ensures
        spec_add_byte(m).regs[op_x(m.opcode)] == ((m.regs[op_x(m.opcode)] + op_kk(m.opcode))
            % 0x100) as u8,
        forall|i: int|
            0 <= i < 16 && i != op_x(m.opcode) ==> spec_add_byte(m).regs[i] == m.regs[i],
        op_x(m.opcode) != 15 ==> spec_add_byte(m).regs[15] == m.regs[15],
        spec_add_byte(m) == (Model { regs: spec_add_byte(m).regs, ..m }),
{
}

/// The register-register add sets the flag register to 1 exactly when the
/// mathematical sum exceeds 255, and the destination takes the sum modulo
/// 256.
pub proof fn lemma_add_reg_carry(m: Model)
    requires
        m.wf(),
        op_x(m.opcode) != 15,
    ensures
        spec_add_reg(m).regs[15] == 1 <==> m.regs[op_x(m.opcode)] + m.regs[op_y(m.opcode)] > 255,
        spec_add_reg(m).regs[15] == 0 <==> m.regs[op_x(m.opcode)] + m.regs[op_y(m.opcode)] <= 255,
        spec_add_reg(m).regs[op_x(m.opcode)] == ((m.regs[op_x(m.opcode)] + m.regs[op_y(m.opcode)])
            % 0x100) as u8,
{
}

/// The right shift sets the flag register to the pre-shift low bit of the
/// source and halves the destination.
pub proof fn lemma_shr_flag(m: Model)
    requires
        m.wf(),
        op_x(m.opcode) != 15,
    ensures
        spec_shr(m).regs[15] == m.regs[op_x(m.opcode)] % 2,
        spec_shr(m).regs[op_x(m.opcode)] == m.regs[op_x(m.opcode)] / 2,
{
}

/// After a clear screen, a draw finds nothing to collide with, so the flag
/// register reads 0; drawing the same sprite again immediately collides
/// exactly when the sprite toggles at least one cell — on a sprite with any
/// set bit, the flag is set on the second draw only.
pub proof fn lemma_cls_draw_twice(m: Model)
    requires
        m.wf(),
        op_x(m.opcode) != 15,
        op_y(m.opcode) != 15,
    ensures
        ({
            let m1 = spec_drw(spec_cls(m));
            let m2 = spec_drw(m1);
            &&& m1.regs[15] == 0
            &&& (m2.regs[15] == 1 <==> exists|cell: int| 0 <= cell < 2048 && draw_bit(m1, cell))
        }),
{
    let m0 = spec_cls(m);
    let m1 = spec_drw(m0);
    let m2 = spec_drw(m1);
    assert(forall|cell: int| 0 <= cell < 2048 ==> !m0.fb[cell]);
    assert(!draw_collision(m0)) by {
        if draw_collision(m0) {
            let w = choose|cell: int| 0 <= cell < 2048 && m0.fb[cell] && draw_bit(m0, cell);
            assert(!m0.fb[w]);
        }
    }
    assert(m1.regs[15] == 0);
    assert forall|cell: int| draw_bit(m1, cell) == draw_bit(m0, cell) by {
        assert(m1.regs[op_x(m1.opcode)] == m0.regs[op_x(m0.opcode)]);
        assert(m1.regs[op_y(m1.opcode)] == m0.regs[op_y(m0.opcode)]);
    }
    assert(forall|cell: int| 0 <= cell < 2048 ==> m1.fb[cell] == draw_bit(m0, cell));
    assert(draw_collision(m1) <==> exists|cell: int| 0 <= cell < 2048 && draw_bit(m1, cell)) by {
        if draw_collision(m1) {
            let w = choose|cell: int| 0 <= cell < 2048 && m1.fb[cell] && draw_bit(m1, cell);
            assert(0 <= w < 2048 && draw_bit(m1, w));
        }
        if exists|cell: int| 0 <= cell < 2048 && draw_bit(m1, cell) {
            let w = choose|cell: int| 0 <= cell < 2048 && draw_bit(m1, cell);
            assert(m1.fb[w] && draw_bit(m1, w));
        }
    }
    assert(m2.regs[15] == if draw_collision(m1) {
        1u8
    } else {
        0u8
    });
}

/// A call followed by a return round-trips the program counter: the call
/// jumps to its target, and the return restores the exact pre-call program
/// counter and stack pointer.
pub proof fn lemma_call_ret_pc(m: Model)
    requires
        m.wf(),
        m.sp < 16,
    ensures
        ({
            let (m1, rc) = spec_call(m);
            let (m2, rr) = spec_ret(m1);
            &&& rc == Ok::<(), Chip8Error>(())
            &&& m1.pc == op_nnn(m.opcode)
            &&& rr == Ok::<(), Chip8Error>(())
            &&& m2.pc == m.pc
            &&& m2.sp == m.sp
        }),
{
}

/// With no key pressed, every pressed-key search comes up empty.
proof fn first_pressed_none(keys: Seq<bool>, i: int)
    requires
        forall|k: int| 0 <= k < 16 ==> !keys[k],
    ensures
        first_pressed_from(keys, i) == 16,
    decreases 16 - i,
{
    if 0 <= i < 16 {
        first_pressed_none(keys, i + 1);
    }
}

/// Stepping the program counter forward one instruction and back again
/// lands on the starting value, wraparound included.
proof fn lemma_wrap_roundtrip(pc: u16)
    ensures
        wrap_back2(wrap_add2(pc)) == pc,
{
    if pc <= 0xFFFD {
        assert((pc as int + 2) % 0x10000 == pc as int + 2) by (nonlinear_arith)
            requires
                pc <= 0xFFFD,
        ;
    } else {
        assert((pc as int + 2) % 0x10000 == pc as int + 2 - 0x10000) by (nonlinear_arith)
            requires
                0xFFFD < pc < 0x10000,
        ;
    }
}

/// Wait-for-key is idempotent absent input: when no key is pressed and the
/// fetched word is the wait instruction, a full cycle succeeds, leaves the
/// program counter exactly where it was, and changes no register, memory
/// byte, or pixel.
pub proof fn lemma_wait_key_no_advance(m: Model, rb: u8)
    requires
        m.wf(),
        forall|k: int| 0 <= k < 16 ==> !m.keys[k],
        spec_decode(spec_fetch(m).opcode) == Some(Op::WaitKey),
    ensures
        spec_cycle(m, rb).1 == Ok::<(), Chip8Error>(()),
        spec_cycle(m, rb).0.pc == m.pc,
        spec_cycle(m, rb).0.regs == m.regs,
        spec_cycle(m, rb).0.mem == m.mem,
        spec_cycle(m, rb).0.fb == m.fb,
        spec_cycle(m, rb).0.sp == m.sp,
        spec_cycle(m, rb).0.stack == m.stack,
        spec_cycle(m, rb).0.keys == m.keys,
        spec_cycle(m, rb).0.index == m.index,
{
    let mf = spec_fetch(m);
    first_pressed_none(m.keys, 0);
    assert(spec_wait_key(mf).pc == wrap_back2(wrap_add2(m.pc)));
    lemma_wrap_roundtrip(m.pc);
}

/// Only the random instruction reads the drawn byte: whenever the fetched
/// word decodes to anything else, the cycle's outcome is the same whichever
/// byte the generator produced.
pub proof fn lemma_cycle_deterministic(m: Model, r1: u8, r2: u8)
    requires
        spec_decode(spec_fetch(m).opcode) != Some(Op::Rnd),
    ensures
        spec_cycle(m, r1) == spec_cycle(m, r2),
{
}

} // verus!
