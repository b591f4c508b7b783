//! The mathematical model of the machine: a ghost copy of the CPU state over
//! `Seq`, and one specification function per instruction giving its exact
//! state transition. The execution engine in `chip` is proved against these.

use vstd::prelude::*;

use crate::Chip8Error;

verus! {

/// Ghost image of the whole machine state.
#[verifier::ext_equal]
pub ghost struct Model {
    /// The 16 general-purpose 8-bit registers; register 0xF is the flag
    /// register, implicitly overwritten by arithmetic, shift and draw
    /// instructions.
    pub regs: Seq<u8>,
    /// 4096 bytes of addressable memory.
    pub mem: Seq<u8>,
    /// The 16-bit index register addressing memory for sprite/data
    /// instructions.
    pub index: u16,
    /// The program counter.
    pub pc: u16,
    /// The 16 call-stack slots; only the first `sp` hold live return
    /// addresses.
    pub stack: Seq<u16>,
    /// The stack pointer, between 0 and 16.
    pub sp: u8,
    /// The delay timer, decremented once per cycle while positive.
    pub delay: u8,
    /// The sound timer, decremented once per cycle while positive.
    pub sound: u8,
    /// The 16 "is pressed" keypad flags.
    pub keys: Seq<bool>,
    /// The 64 x 32 framebuffer, row-major: cell `y * 64 + x` is the pixel at
    /// column `x` of row `y`.
    pub fb: Seq<bool>,
    /// The most recently fetched instruction word.
    pub opcode: u16,
}

impl Model {
    /// Well-formedness: every array has its fixed length and the stack
    /// pointer stays within the stack's capacity.
    pub open spec fn wf(self) -> bool {
        &&& self.regs.len() == 16
        &&& self.mem.len() == 4096
        &&& self.stack.len() == 16
        &&& self.sp <= 16
        &&& self.keys.len() == 16
        &&& self.fb.len() == 2048
    }
}

/// The `x` field of an instruction word: bits 8..12, a register number.
pub open spec fn op_x(w: u16) -> int {
    ((w as int) / 0x100) % 0x10
}

/// The `y` field of an instruction word: bits 4..8, a register number.
pub open spec fn op_y(w: u16) -> int {
    ((w as int) / 0x10) % 0x10
}

/// The `n` field of an instruction word: the low nibble.
pub open spec fn op_n(w: u16) -> int {
    (w as int) % 0x10
}

/// The `kk` field of an instruction word: the low byte.
pub open spec fn op_kk(w: u16) -> u8 {
    ((w as int) % 0x100) as u8
}

/// The `nnn` field of an instruction word: the low 12 bits, an address.
pub open spec fn op_nnn(w: u16) -> u16 {
    ((w as int) % 0x1000) as u16
}

/// The opcode family: the top 4 bits of the instruction word.
pub open spec fn op_family(w: u16) -> int {
    (w as int) / 0x1000
}

/// 16-bit wraparound increment of the program counter by one instruction.
pub open spec fn wrap_add2(pc: u16) -> u16 {
    (((pc as int) + 2) % 0x10000) as u16
}

/// 16-bit wraparound decrement of the program counter by one instruction.
pub open spec fn wrap_back2(pc: u16) -> u16 {
    if pc >= 2 {
        (pc - 2) as u16
    } else {
        (pc + 0xFFFE) as u16
    }
}

/// 16-bit wraparound addition, for the index register.
pub open spec fn wrap_add16(a: u16, b: u16) -> u16 {
    (((a as int) + (b as int)) % 0x10000) as u16
}

/// The model with one register replaced.
pub open spec fn with_reg(m: Model, i: int, v: u8) -> Model {
    Model { regs: m.regs.update(i, v), ..m }
}

/// The model with the program counter replaced.
pub open spec fn with_pc(m: Model, pc: u16) -> Model {
    Model { pc, ..m }
}

/// The built-in font: 16 glyphs of 5 bytes, one per hexadecimal digit.
pub open spec fn fontset() -> Seq<u8> {
    seq![
        0xF0u8, 0x90, 0x90, 0x90, 0xF0, // 0
        0x20, 0x60, 0x20, 0x20, 0x70, // 1
        0xF0, 0x10, 0xF0, 0x80, 0xF0, // 2
        0xF0, 0x10, 0xF0, 0x10, 0xF0, // 3
        0x90, 0x90, 0xF0, 0x10, 0x10, // 4
        0xF0, 0x80, 0xF0, 0x10, 0xF0, // 5
        0xF0, 0x80, 0xF0, 0x90, 0xF0, // 6
        0xF0, 0x10, 0x20, 0x40, 0x40, // 7
        0xF0, 0x90, 0xF0, 0x90, 0xF0, // 8
        0xF0, 0x90, 0xF0, 0x10, 0xF0, // 9
        0xF0, 0x90, 0xF0, 0x90, 0x90, // A
        0xE0, 0x90, 0xE0, 0x90, 0xE0, // B
        0xF0, 0x80, 0x80, 0x80, 0xF0, // C
        0xE0, 0x90, 0x90, 0x90, 0xE0, // D
        0xF0, 0x80, 0xF0, 0x80, 0xF0, // E
        0xF0, 0x80, 0xF0, 0x80, 0x80, // F
    ]
}

/// The machine state right after construction or reset: everything zeroed,
/// the font seeded at its fixed address, the program counter at the program
/// origin.
pub open spec fn initial() -> Model {
    Model {
        regs: Seq::new(16, |i: int| 0u8),
        mem: Seq::new(4096, |i: int| if 0 <= i < 80 { fontset()[i] } else { 0u8 }),
        index: 0,
        pc: 0x200,
        stack: Seq::new(16, |i: int| 0u16),
        sp: 0,
        delay: 0,
        sound: 0,
        keys: Seq::new(16, |i: int| false),
        fb: Seq::new(2048, |i: int| false),
        opcode: 0,
    }
}

/// The memory contents after a program image is copied in at the origin.
pub open spec fn loaded_mem(mem: Seq<u8>, rom: Seq<u8>) -> Seq<u8> {
    Seq::new(4096, |i: int| if 0x200 <= i < 0x200 + rom.len() { rom[i - 0x200] } else { mem[i] })
}

/// Clear screen: every framebuffer cell off.
pub open spec fn spec_cls(m: Model) -> Model {
    Model { fb: Seq::new(2048, |i: int| false), ..m }
}

/// Return from subroutine: pop the return address into the program counter;
/// a fault if the stack is already empty.
pub open spec fn spec_ret(m: Model) -> (Model, Result<(), Chip8Error>) {
    if m.sp == 0 {
        (m, Err(Chip8Error::StackUnderflow))
    } else {
        (Model { sp: (m.sp - 1) as u8, pc: m.stack[m.sp - 1], ..m }, Ok(()))
    }
}

/// Absolute jump to the instruction's 12-bit address.
pub open spec fn spec_jp(m: Model) -> Model {
    with_pc(m, op_nnn(m.opcode))
}

/// Call subroutine: push the current program counter and jump; a fault if
/// the stack is already full.
pub open spec fn spec_call(m: Model) -> (Model, Result<(), Chip8Error>) {
    if m.sp >= 16 {
        (m, Err(Chip8Error::StackOverflow))
    } else {
        (
            Model {
                stack: m.stack.update(m.sp as int, m.pc),
                sp: (m.sp + 1) as u8,
                pc: op_nnn(m.opcode),
                ..m
            },
            Ok(()),
        )
    }
}

/// Skip the next instruction if register `x` equals the immediate byte.
pub open spec fn spec_se_byte(m: Model) -> Model {
    if m.regs[op_x(m.opcode)] == op_kk(m.opcode) {
        with_pc(m, wrap_add2(m.pc))
    } else {
        m
    }
}

/// Skip the next instruction if register `x` differs from the immediate byte.
pub open spec fn spec_sne_byte(m: Model) -> Model {
    if m.regs[op_x(m.opcode)] != op_kk(m.opcode) {
        with_pc(m, wrap_add2(m.pc))
    } else {
        m
    }
}

/// Skip the next instruction if registers `x` and `y` are equal.
pub open spec fn spec_se_reg(m: Model) -> Model {
    if m.regs[op_x(m.opcode)] == m.regs[op_y(m.opcode)] {
        with_pc(m, wrap_add2(m.pc))
    } else {
        m
    }
}

/// Skip the next instruction if registers `x` and `y` differ.
pub open spec fn spec_sne_reg(m: Model) -> Model {
    if m.regs[op_x(m.opcode)] != m.regs[op_y(m.opcode)] {
        with_pc(m, wrap_add2(m.pc))
    } else {
        m
    }
}

/// Load the immediate byte into register `x`; no flags touched.
pub open spec fn spec_ld_byte(m: Model) -> Model {
    with_reg(m, op_x(m.opcode), op_kk(m.opcode))
}

/// Add the immediate byte into register `x`, wrapping modulo 256; the flag
/// register is not touched.
pub open spec fn spec_add_byte(m: Model) -> Model {
    with_reg(
        m,
        op_x(m.opcode),
        ((m.regs[op_x(m.opcode)] as int + op_kk(m.opcode) as int) % 0x100) as u8,
    )
}

/// Copy register `y` into register `x`; no flags touched.
pub open spec fn spec_ld_reg(m: Model) -> Model {
    with_reg(m, op_x(m.opcode), m.regs[op_y(m.opcode)])
}

/// Bitwise OR of registers `x` and `y` into `x`.
pub open spec fn spec_or(m: Model) -> Model {
    with_reg(m, op_x(m.opcode), m.regs[op_x(m.opcode)] | m.regs[op_y(m.opcode)])
}

/// Bitwise AND of registers `x` and `y` into `x`.
pub open spec fn spec_and(m: Model) -> Model {
    with_reg(m, op_x(m.opcode), m.regs[op_x(m.opcode)] & m.regs[op_y(m.opcode)])
}

/// Bitwise XOR of registers `x` and `y` into `x`.
pub open spec fn spec_xor(m: Model) -> Model {
    with_reg(m, op_x(m.opcode), m.regs[op_x(m.opcode)] ^ m.regs[op_y(m.opcode)])
}

/// Register-register add: the flag register records whether the 9-bit sum
/// exceeds 255, the destination takes the sum modulo 256. Both values are
/// computed from the pre-instruction registers; when the destination is the
/// flag register itself, the sum wins.
pub open spec fn spec_add_reg(m: Model) -> Model {
    let sum = m.regs[op_x(m.opcode)] as int + m.regs[op_y(m.opcode)] as int;
    let flag: u8 = if sum > 255 { 1 } else { 0 };
    Model { regs: m.regs.update(15, flag).update(op_x(m.opcode), (sum % 0x100) as u8), ..m }
}

/// Subtract `y` from `x`: the flag register records `x > y` (no borrow), the
/// destination takes the difference modulo 256.
pub open spec fn spec_sub(m: Model) -> Model {
    let vx = m.regs[op_x(m.opcode)] as int;
    let vy = m.regs[op_y(m.opcode)] as int;
    let flag: u8 = if vx > vy { 1 } else { 0 };
    Model { regs: m.regs.update(15, flag).update(op_x(m.opcode), ((vx - vy + 0x100) % 0x100) as u8), ..m }
}

/// Subtract `x` from `y` into `x`: the flag register records `y > x`.
pub open spec fn spec_subn(m: Model) -> Model {
    let vx = m.regs[op_x(m.opcode)] as int;
    let vy = m.regs[op_y(m.opcode)] as int;
    let flag: u8 = if vy > vx { 1 } else { 0 };
    Model { regs: m.regs.update(15, flag).update(op_x(m.opcode), ((vy - vx + 0x100) % 0x100) as u8), ..m }
}

/// Shift register `x` right by one: the flag register takes the bit shifted
/// out (the pre-shift low bit).
pub open spec fn spec_shr(m: Model) -> Model {
    let vx = m.regs[op_x(m.opcode)];
    let flag: u8 = (vx % 2) as u8;
    Model { regs: m.regs.update(15, flag).update(op_x(m.opcode), (vx / 2) as u8), ..m }
}

/// Shift register `x` left by one, truncated to 8 bits: the flag register
/// takes the bit shifted out (the pre-shift high bit).
pub open spec fn spec_shl(m: Model) -> Model {
    let vx = m.regs[op_x(m.opcode)];
    let flag: u8 = (vx / 0x80) as u8;
    Model { regs: m.regs.update(15, flag).update(op_x(m.opcode), ((vx as int * 2) % 0x100) as u8), ..m }
}

/// Load the instruction's 12-bit address into the index register.
pub open spec fn spec_ld_index(m: Model) -> Model {
    Model { index: op_nnn(m.opcode), ..m }
}

/// Jump to the 12-bit address offset by register 0.
pub open spec fn spec_jp_v0(m: Model) -> Model {
    with_pc(m, (m.regs[0] as int + op_nnn(m.opcode) as int) as u16)
}

/// Random byte masked by the immediate: register `x` takes `r & kk`, where
/// `r` is the byte the generator produced.
pub open spec fn spec_rnd(m: Model, r: u8) -> Model {
    with_reg(m, op_x(m.opcode), r & op_kk(m.opcode))
}

/// Skip the next instruction if the key named by register `x` (taken modulo
/// 16) is pressed.
pub open spec fn spec_skp(m: Model) -> Model {
    if m.keys[(m.regs[op_x(m.opcode)] as int) % 16] {
        with_pc(m, wrap_add2(m.pc))
    } else {
        m
    }
}

/// Skip the next instruction if the key named by register `x` (taken modulo
/// 16) is not pressed.
pub open spec fn spec_sknp(m: Model) -> Model {
    if !m.keys[(m.regs[op_x(m.opcode)] as int) % 16] {
        with_pc(m, wrap_add2(m.pc))
    } else {
        m
    }
}

/// Copy the delay timer into register `x`.
pub open spec fn spec_ld_from_dt(m: Model) -> Model {
    with_reg(m, op_x(m.opcode), m.delay)
}

/// The lowest pressed key index at or above `i`, or 16 if none is pressed.
pub open spec fn first_pressed_from(keys: Seq<bool>, i: int) -> int
    decreases 16 - i,
{
    if i < 0 || i >= 16 {
        16
    } else if keys[i] {
        i
    } else {
        first_pressed_from(keys, i + 1)
    }
}

/// Wait for a key: if some key is pressed, register `x` takes the lowest
/// pressed index; otherwise the program counter steps back one instruction,
/// so the instruction is re-executed next cycle.
pub open spec fn spec_wait_key(m: Model) -> Model {
    let k = first_pressed_from(m.keys, 0);
    if k < 16 {
        with_reg(m, op_x(m.opcode), k as u8)
    } else {
        with_pc(m, wrap_back2(m.pc))
    }
}

/// Set the delay timer from register `x`.
pub open spec fn spec_set_dt(m: Model) -> Model {
    Model { delay: m.regs[op_x(m.opcode)], ..m }
}

/// Set the sound timer from register `x`.
pub open spec fn spec_set_st(m: Model) -> Model {
    Model { sound: m.regs[op_x(m.opcode)], ..m }
}

/// Add register `x` into the index register, with 16-bit wraparound.
pub open spec fn spec_add_index(m: Model) -> Model {
    Model { index: wrap_add16(m.index, m.regs[op_x(m.opcode)] as u16), ..m }
}

/// Point the index register at the font glyph for the digit in register `x`.
pub open spec fn spec_ld_font(m: Model) -> Model {
    Model { index: (5 * m.regs[op_x(m.opcode)] as int) as u16, ..m }
}

/// Store the three decimal digits of register `x` at the index register:
/// hundreds first, addresses taken modulo the memory size.
pub open spec fn spec_bcd(m: Model) -> Model {
    let v = m.regs[op_x(m.opcode)] as int;
    let base = m.index as int;
    Model {
        mem: m.mem
            .update(base % 4096, (v / 100) as u8)
            .update((base + 1) % 4096, ((v / 10) % 10) as u8)
            .update((base + 2) % 4096, (v % 10) as u8),
        ..m
    }
}

/// Memory after registers `0..=k` are dumped at the index register,
/// addresses taken modulo the memory size.
pub open spec fn stored_mem(mem: Seq<u8>, regs: Seq<u8>, base: int, k: int) -> Seq<u8>
    decreases k + 1,
{
    if k < 0 {
        mem
    } else {
        stored_mem(mem, regs, base, k - 1).update((base + k) % 4096, regs[k])
    }
}

/// Register dump: copy registers `0..=x` into memory at the index register.
pub open spec fn spec_store_regs(m: Model) -> Model {
    Model { mem: stored_mem(m.mem, m.regs, m.index as int, op_x(m.opcode)), ..m }
}

/// Registers after `0..=k` are refilled from memory at `base`, addresses
/// taken modulo the memory size.
pub open spec fn loaded_regs(regs: Seq<u8>, mem: Seq<u8>, base: int, k: int) -> Seq<u8>
    decreases k + 1,
{
    if k < 0 {
        regs
    } else {
        loaded_regs(regs, mem, base, k - 1).update(k, mem[(base + k) % 4096])
    }
}

/// Register load: refill registers `0..=x` from memory at the index register.
pub open spec fn spec_load_regs(m: Model) -> Model {
    Model { regs: loaded_regs(m.regs, m.mem, m.index as int, op_x(m.opcode)), ..m }
}

/// Whether the sprite bit for column `c` (most significant bit first) of a
/// sprite row byte is set.
pub open spec fn sprite_bit(byte: u8, c: int) -> bool {
    (byte >> ((7 - c) as u8)) & 1 == 1
}

/// The sprite column of the draw instruction: register `x` modulo the
/// framebuffer width.
pub open spec fn draw_x0(m: Model) -> int {
    (m.regs[op_x(m.opcode)] as int) % 64
}

/// The sprite row of the draw instruction: register `y` modulo the
/// framebuffer height.
pub open spec fn draw_y0(m: Model) -> int {
    (m.regs[op_y(m.opcode)] as int) % 32
}

/// The sprite row that lands on a framebuffer cell, counting wraparound.
pub open spec fn target_row(m: Model, cell: int) -> int {
    ((cell / 64) - draw_y0(m) + 32) % 32
}

/// The sprite column that lands on a framebuffer cell, counting wraparound.
pub open spec fn target_col(m: Model, cell: int) -> int {
    ((cell % 64) - draw_x0(m) + 64) % 64
}

/// Whether the draw instruction toggles a framebuffer cell, when the sprite
/// rows below `r_done`, and within row `r_done` the columns below `c_done`,
/// have been composited: the cell lies under one of those sprite positions
/// and the sprite bit there is set. Sprites are 8 pixels wide and coordinates
/// wrap, so each cell is hit at most once.
pub open spec fn draw_hits(m: Model, cell: int, r_done: int, c_done: int) -> bool {
    let r = target_row(m, cell);
    let c = target_col(m, cell);
    &&& c < 8
    &&& (r < r_done || (r == r_done && c < c_done))
    &&& sprite_bit(m.mem[(m.index as int + r) % 4096], c)
}

/// Whether the draw instruction toggles a framebuffer cell.
pub open spec fn draw_bit(m: Model, cell: int) -> bool {
    draw_hits(m, cell, op_n(m.opcode), 0)
}

/// Whether the draw collides: some toggled cell was already on.
pub open spec fn draw_collision(m: Model) -> bool {
    exists|cell: int| 0 <= cell < 2048 && m.fb[cell] && draw_bit(m, cell)
}

/// Draw sprite: XOR-composite `n` rows of 8 sprite bits read from memory at
/// the index register onto the framebuffer, wrapping both coordinates; the
/// flag register records whether any toggle turned an on pixel off.
pub open spec fn spec_drw(m: Model) -> Model {
    Model {
        fb: Seq::new(2048, |cell: int| m.fb[cell] != draw_bit(m, cell)),
        regs: m.regs.update(15, if draw_collision(m) { 1u8 } else { 0u8 }),
        ..m
    }
}

/// The decoded form of an instruction word: one variant per operation.
#[derive(Clone, Copy, Debug, PartialEq, Eq, Structural)]
pub enum Op {
    /// 00E0: clear the screen.
    Cls,
    /// 00EE: return from subroutine.
    Ret,
    /// 1nnn: absolute jump.
    Jp,
    /// 2nnn: call subroutine.
    Call,
    /// 3xkk: skip if register equals immediate.
    SeByte,
    /// 4xkk: skip if register differs from immediate.
    SneByte,
    /// 5xy0: skip if registers are equal.
    SeReg,
    /// 6xkk: load immediate.
    LdByte,
    /// 7xkk: add immediate, wrapping, flag untouched.
    AddByte,
    /// 8xy0: copy register.
    LdReg,
    /// 8xy1: bitwise OR.
    Or,
    /// 8xy2: bitwise AND.
    And,
    /// 8xy3: bitwise XOR.
    Xor,
    /// 8xy4: add with carry flag.
    AddReg,
    /// 8xy5: subtract `y` from `x` with no-borrow flag.
    Sub,
    /// 8xy6: shift right, flag takes the bit shifted out.
    Shr,
    /// 8xy7: subtract `x` from `y` with no-borrow flag.
    Subn,
    /// 8xyE: shift left, flag takes the bit shifted out.
    Shl,
    /// 9xy0: skip if registers differ.
    SneReg,
    /// Annn: load the index register.
    LdIndex,
    /// Bnnn: jump offset by register 0.
    JpV0,
    /// Cxkk: random byte AND immediate.
    Rnd,
    /// Dxyn: draw sprite.
    Drw,
    /// Ex9E: skip if key pressed.
    Skp,
    /// ExA1: skip if key not pressed.
    Sknp,
    /// Fx07: read the delay timer.
    LdFromDt,
    /// Fx0A: wait for a key press.
    WaitKey,
    /// Fx15: set the delay timer.
    SetDt,
    /// Fx18: set the sound timer.
    SetSt,
    /// Fx1E: add to the index register.
    AddIndex,
    /// Fx29: font glyph address.
    LdFont,
    /// Fx33: store binary-coded decimal digits.
    Bcd,
    /// Fx55: register dump to memory.
    StoreRegs,
    /// Fx65: register load from memory.
    LoadRegs,
}

/// The decode table: the opcode family (top nibble) selects the operation,
/// with a secondary dispatch on the low nibble for families 0, 8 and E and on
/// the low byte for family F. An unlisted bit pattern decodes to nothing.
pub open spec fn spec_decode(w: u16) -> Option<Op> {
    let family = op_family(w);
    if family == 0x0 {
        if op_n(w) == 0x0 {
            Some(Op::Cls)
        } else if op_n(w) == 0xE {
            Some(Op::Ret)
        } else {
            None
        }
    } else if family == 0x1 {
        Some(Op::Jp)
    } else if family == 0x2 {
        Some(Op::Call)
    } else if family == 0x3 {
        Some(Op::SeByte)
    } else if family == 0x4 {
        Some(Op::SneByte)
    } else if family == 0x5 {
        Some(Op::SeReg)
    } else if family == 0x6 {
        Some(Op::LdByte)
    } else if family == 0x7 {
        Some(Op::AddByte)
    } else if family == 0x8 {
        if op_n(w) == 0x0 {
            Some(Op::LdReg)
        } else if op_n(w) == 0x1 {
            Some(Op::Or)
        } else if op_n(w) == 0x2 {
            Some(Op::And)
        } else if op_n(w) == 0x3 {
            Some(Op::Xor)
        } else if op_n(w) == 0x4 {
            Some(Op::AddReg)
        } else if op_n(w) == 0x5 {
            Some(Op::Sub)
        } else if op_n(w) == 0x6 {
            Some(Op::Shr)
        } else if op_n(w) == 0x7 {
            Some(Op::Subn)
        } else if op_n(w) == 0xE {
            Some(Op::Shl)
        } else {
            None
        }
    } else if family == 0x9 {
        Some(Op::SneReg)
    } else if family == 0xA {
        Some(Op::LdIndex)
    } else if family == 0xB {
        Some(Op::JpV0)
    } else if family == 0xC {
        Some(Op::Rnd)
    } else if family == 0xD {
        Some(Op::Drw)
    } else if family == 0xE {
        if op_n(w) == 0x1 {
            Some(Op::Sknp)
        } else if op_n(w) == 0xE {
            Some(Op::Skp)
        } else {
            None
        }
    } else {
        if op_kk(w) == 0x07 {
            Some(Op::LdFromDt)
        } else if op_kk(w) == 0x0A {
            Some(Op::WaitKey)
        } else if op_kk(w) == 0x15 {
            Some(Op::SetDt)
        } else if op_kk(w) == 0x18 {
            Some(Op::SetSt)
        } else if op_kk(w) == 0x1E {
            Some(Op::AddIndex)
        } else if op_kk(w) == 0x29 {
            Some(Op::LdFont)
        } else if op_kk(w) == 0x33 {
            Some(Op::Bcd)
        } else if op_kk(w) == 0x55 {
            Some(Op::StoreRegs)
        } else if op_kk(w) == 0x65 {
            Some(Op::LoadRegs)
        } else {
            None
        }
    }
}

/// Execute the already-fetched instruction word: apply exactly one
/// operation's transition, or report a decode error and leave the state as
/// it stands. `r` is the byte the random generator produced; only the random
/// instruction reads it.
pub open spec fn spec_execute(m: Model, r: u8) -> (Model, Result<(), Chip8Error>) {
    match spec_decode(m.opcode) {
        None => (m, Err(Chip8Error::DecodeError)),
        Some(op) => match op {
            Op::Cls => (spec_cls(m), Ok(())),
            Op::Ret => spec_ret(m),
            Op::Jp => (spec_jp(m), Ok(())),
            Op::Call => spec_call(m),
            Op::SeByte => (spec_se_byte(m), Ok(())),
            Op::SneByte => (spec_sne_byte(m), Ok(())),
            Op::SeReg => (spec_se_reg(m), Ok(())),
            Op::LdByte => (spec_ld_byte(m), Ok(())),
            Op::AddByte => (spec_add_byte(m), Ok(())),
            Op::LdReg => (spec_ld_reg(m), Ok(())),
            Op::Or => (spec_or(m), Ok(())),
            Op::And => (spec_and(m), Ok(())),
            Op::Xor => (spec_xor(m), Ok(())),
            Op::AddReg => (spec_add_reg(m), Ok(())),
            Op::Sub => (spec_sub(m), Ok(())),
            Op::Shr => (spec_shr(m), Ok(())),
            Op::Subn => (spec_subn(m), Ok(())),
            Op::Shl => (spec_shl(m), Ok(())),
            Op::SneReg => (spec_sne_reg(m), Ok(())),
            Op::LdIndex => (spec_ld_index(m), Ok(())),
            Op::JpV0 => (spec_jp_v0(m), Ok(())),
            Op::Rnd => (spec_rnd(m, r), Ok(())),
            Op::Drw => (spec_drw(m), Ok(())),
            Op::Skp => (spec_skp(m), Ok(())),
            Op::Sknp => (spec_sknp(m), Ok(())),
            Op::LdFromDt => (spec_ld_from_dt(m), Ok(())),
            Op::WaitKey => (spec_wait_key(m), Ok(())),
            Op::SetDt => (spec_set_dt(m), Ok(())),
            Op::SetSt => (spec_set_st(m), Ok(())),
            Op::AddIndex => (spec_add_index(m), Ok(())),
            Op::LdFont => (spec_ld_font(m), Ok(())),
            Op::Bcd => (spec_bcd(m), Ok(())),
            Op::StoreRegs => (spec_store_regs(m), Ok(())),
            Op::LoadRegs => (spec_load_regs(m), Ok(())),
        },
    }
}

/// Fetch: read the two bytes at the program counter (big-endian, addresses
/// modulo the memory size) into the current instruction, then advance the
/// program counter past them before executing.
pub open spec fn spec_fetch(m: Model) -> Model {
    Model {
        opcode: (m.mem[(m.pc as int) % 4096] as int * 0x100 + m.mem[(m.pc as int + 1) % 4096] as int) as u16,
        pc: wrap_add2(m.pc),
        ..m
    }
}

/// Tick: each timer is decremented by one if positive, flooring at zero.
pub open spec fn spec_tick(m: Model) -> Model {
    Model {
        delay: if m.delay > 0 { (m.delay - 1) as u8 } else { 0 },
        sound: if m.sound > 0 { (m.sound - 1) as u8 } else { 0 },
        ..m
    }
}

/// One full cycle: fetch, advance, execute, then tick the timers — the
/// timers tick even when execution reported an error. `r` is the byte the
/// random generator produced; only the random instruction reads it.
pub open spec fn spec_cycle(m: Model, r: u8) -> (Model, Result<(), Chip8Error>) {
    let (m1, res) = spec_execute(spec_fetch(m), r);
    (spec_tick(m1), res)
}

} // verus!
