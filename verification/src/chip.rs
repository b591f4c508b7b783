//! The CPU state and execution engine: the machine state aggregate, its
//! constructor, the program-image loader, one method per instruction, and
//! the fetch-decode-execute-tick cycle. Every method is proved against the
//! transitions in `model`.

use vstd::prelude::*;

use crate::model::{
    draw_hits, first_pressed_from, fontset, initial, loaded_mem, loaded_regs, op_family, op_kk,
    op_n, op_nnn, op_x, op_y, spec_add_byte, spec_add_index, spec_add_reg, spec_and, spec_bcd,
    spec_call, spec_cls, spec_cycle, spec_decode, spec_drw, spec_execute, spec_fetch, spec_jp,
    spec_jp_v0, spec_ld_byte, spec_ld_font, spec_ld_from_dt, spec_ld_index, spec_ld_reg,
    spec_load_regs, spec_or, spec_ret, spec_rnd, spec_se_byte, spec_se_reg, spec_set_dt,
    spec_set_st, spec_shl, spec_shr, spec_skp, spec_sknp, spec_sne_byte, spec_sne_reg,
    spec_store_regs, spec_sub, spec_subn, spec_tick, spec_wait_key, spec_xor, sprite_bit,
    stored_mem, target_col, target_row, wrap_add2, wrap_back2, Model, Op,
};
use crate::Chip8Error;
use crate::FONTSET_SIZE;
use crate::FONTSET_START_ADDRESS;
use crate::MEMORY_SIZE;
use crate::NUM_KEYS;
use crate::NUM_REGISTERS;
use crate::ROM_CAPACITY;
use crate::STACK_DEPTH;
use crate::START_ADDRESS;
use crate::VIDEO_SIZE;

verus! {

/// The whole machine state: constructed once, then mutated exclusively
/// through `load_rom`, `cycle` and the instruction methods. The input
/// collaborator writes `keypad` and the display collaborator reads `video`
/// between cycles.
pub struct Chip8 {
    /// The 16 general-purpose registers; register 0xF is the flag register.
    pub registers: Vec<u8>,
    /// 4096 bytes of memory: font glyphs low, the program from 0x200 up.
    pub memory: Vec<u8>,
    /// The index register, addressing memory for sprite/data instructions.
    pub index: u16,
    /// The program counter.
    pub pc: u16,
    /// The 16 call-stack slots.
    pub stack: Vec<u16>,
    /// The stack pointer, between 0 and 16.
    pub sp: u8,
    /// The delay timer.
    pub delay_timer: u8,
    /// The sound timer.
    pub sound_timer: u8,
    /// The 16 "is pressed" keypad flags, written by the input collaborator.
    pub keypad: Vec<bool>,
    /// The 64 x 32 framebuffer, row-major, read by the display collaborator.
    pub video: Vec<bool>,
    /// The most recently fetched instruction word.
    pub opcode: u16,
}

impl View for Chip8 {
    type V = Model;

    open spec fn view(&self) -> Model {
        Model {
            regs: self.registers@,
            mem: self.memory@,
            index: self.index,
            pc: self.pc,
            stack: self.stack@,
            sp: self.sp,
            delay: self.delay_timer,
            sound: self.sound_timer,
            keys: self.keypad@,
            fb: self.video@,
            opcode: self.opcode,
        }
    }
}

/// A vector of `n` zero bytes.
fn zeroed_bytes(n: usize) -> (r: Vec<u8>)
    ensures
        r@ == Seq::new(n as nat, |i: int| 0u8),
{
    let mut v: Vec<u8> = Vec::new();
    while v.len() < n
        invariant
            v@.len() <= n,
            forall|j: int| 0 <= j < v@.len() ==> v@[j] == 0u8,
        decreases n - v@.len(),
    {
        v.push(0);
    }
    proof {
        assert(v@ =~= Seq::new(n as nat, |i: int| 0u8));
    }
    v
}

/// A vector of `n` zero words.
fn zeroed_words(n: usize) -> (r: Vec<u16>)
    ensures
        r@ == Seq::new(n as nat, |i: int| 0u16),
{
    let mut v: Vec<u16> = Vec::new();
    while v.len() < n
        invariant
            v@.len() <= n,
            forall|j: int| 0 <= j < v@.len() ==> v@[j] == 0u16,
        decreases n - v@.len(),
    {
        v.push(0);
    }
    proof {
        assert(v@ =~= Seq::new(n as nat, |i: int| 0u16));
    }
    v
}

/// A vector of `n` cleared flags.
fn cleared_flags(n: usize) -> (r: Vec<bool>)
    ensures
        r@ == Seq::new(n as nat, |i: int| false),
{
    let mut v: Vec<bool> = Vec::new();
    while v.len() < n
        invariant
            v@.len() <= n,
            forall|j: int| 0 <= j < v@.len() ==> v@[j] == false,
        decreases n - v@.len(),
    {
        v.push(false);
    }
    proof {
        assert(v@ =~= Seq::new(n as nat, |i: int| false));
    }
    v
}

/// The font glyph table as a vector.
fn font_vec() -> (r: Vec<u8>)
    ensures
        r@ == fontset(),
{
    let v: Vec<u8> = vec![
        0xF0, 0x90, 0x90, 0x90, 0xF0, // 0
        0x20, 0x60, 0x20, 0x20, 0x70, // 1
        0xF0, 0x10, 0xF0, 0x80, 0xF0, // 2
        0xF0, 0x10, 0xF0, 0x10, 0xF0, // 3
        0x90, 0x90, 0xF0, 0x10, 0x10, // 4
        0xF0, 0x80, 0xF0, 0x10, 0xF0, // 5
        0xF0, 0x80, 0xF0, 0x90, 0xF0, // 6
        0xF0, 0x10, 0x20, 0x40, 0x40, // 7
        0xF0, 0x90, 0xF0, 0x90, 0xF0, // 8
        0xF0, 0x90, 0xF0, 0x10, 0xF0, // 9
        0xF0, 0x90, 0xF0, 0x90, 0x90, // A
        0xE0, 0x90, 0xE0, 0x90, 0xE0, // B
        0xF0, 0x80, 0x80, 0x80, 0xF0, // C
        0xE0, 0x90, 0x90, 0x90, 0xE0, // D
        0xF0, 0x80, 0xF0, 0x80, 0xF0, // E
        0xF0, 0x80, 0xF0, 0x80, 0x80, // F
    ];
    proof {
        assert(v@ =~= fontset());
    }
    v
}

/// The `x` field of the instruction word, as a register number.
fn field_x(w: u16) -> (r: usize)
    ensures
        r == op_x(w),
        r < 16,
{
    ((w as usize) / 0x100) % 0x10
}

/// The `y` field of the instruction word, as a register number.
fn field_y(w: u16) -> (r: usize)
    ensures
        r == op_y(w),
        r < 16,
{
    ((w as usize) / 0x10) % 0x10
}

/// The low nibble of the instruction word.
fn field_n(w: u16) -> (r: usize)
    ensures
        r == op_n(w),
        r < 16,
{
    (w as usize) % 0x10
}

/// The low byte of the instruction word.
fn field_kk(w: u16) -> (r: u8)
    ensures
        r == op_kk(w),
{
    (w % 0x100) as u8
}

/// The low 12 bits of the instruction word, an address.
fn field_nnn(w: u16) -> (r: u16)
    ensures
        r == op_nnn(w),
{
    w % 0x1000
}

/// The top nibble of the instruction word, the opcode family.
fn field_family(w: u16) -> (r: usize)
    ensures
        r == op_family(w),
        r < 16,
{
    (w as usize) / 0x1000
}

/// The program counter advanced by one instruction, with 16-bit wraparound.
fn pc_forward(pc: u16) -> (r: u16)
    ensures
        r == wrap_add2(pc),
{
    (((pc as u32) + 2) % 0x10000) as u16
}

/// The program counter stepped back by one instruction, with 16-bit
/// wraparound.
fn pc_backward(pc: u16) -> (r: u16)
    ensures
        r == wrap_back2(pc),
{
    if pc >= 2 {
        pc - 2
    } else {
        pc + 0xFFFE
    }
}

impl Chip8 {
    /// Well-formedness: the fixed array lengths and the stack-pointer bound.
    pub open spec fn wf(&self) -> bool {
        self@.wf()
    }

    /// Runtime check of `wf`, for unverified callers that must establish it
    /// before driving the machine.
    pub fn well_formed(&self) -> (r: bool)
        ensures
            r == self.wf(),
    {
        self.registers.len() == NUM_REGISTERS && self.memory.len() == MEMORY_SIZE
            && self.stack.len() == STACK_DEPTH && self.sp <= 16
            && self.keypad.len() == NUM_KEYS && self.video.len() == VIDEO_SIZE
    }

    /// A fresh machine: everything zeroed, the font seeded at its fixed
    /// address, the program counter at the program origin.
    pub fn new() -> (c: Chip8)
        ensures
            c.wf(),
            c@ == initial(),
    {
        let mut memory = zeroed_bytes(MEMORY_SIZE);
        let font = font_vec();
        let mut i: usize = 0;
        while i < FONTSET_SIZE
            invariant
                i <= 80,
                memory@.len() == 4096,
                font@ == fontset(),
                forall|j: int| 0 <= j < i ==> memory@[j] == fontset()[j],
                forall|j: int| i <= j < 4096 ==> memory@[j] == 0u8,
            decreases 80 - i,
        {
            memory.set(i, font[i]);
            i += 1;
        }
        let c = Chip8 {
            registers: zeroed_bytes(NUM_REGISTERS),
            memory,
            index: 0,
            pc: START_ADDRESS,
            stack: zeroed_words(STACK_DEPTH),
            sp: 0,
            delay_timer: 0,
            sound_timer: 0,
            keypad: cleared_flags(NUM_KEYS),
            video: cleared_flags(VIDEO_SIZE),
            opcode: 0,
        };
        proof {
            assert(c@.mem =~= initial().mem);
            assert(c@ =~= initial());
        }
        c
    }

    /// Reset the machine to the fresh state.
    pub fn reset(&mut self)
        ensures
            final(self).wf(),
            final(self)@ == initial(),
    {
        *self = Chip8::new();
    }

    /// Copy a program image into memory at the program origin. An image
    /// longer than the room left there is rejected whole: the error is
    /// reported and the machine is left unmodified.
    pub fn load_rom(&mut self, rom: &Vec<u8>) -> (r: Result<(), Chip8Error>)
        requires
            old(self).wf(),
        ensures
            final(self).wf(),
            rom@.len() <= ROM_CAPACITY ==> r == Ok::<(), Chip8Error>(()) && final(self)@ == (Model {
                mem: loaded_mem(old(self)@.mem, rom@),
                ..old(self)@
            }),
            rom@.len() > ROM_CAPACITY ==> r == Err::<(), Chip8Error>(Chip8Error::ImageTooLarge)
                && final(self)@ == old(self)@,
    {
        if rom.len() > ROM_CAPACITY {
            return Err(Chip8Error::ImageTooLarge);
        }
        let mut i: usize = 0;
        while i < rom.len()
            invariant
                rom@.len() <= 3584,
                i <= rom@.len(),
                self.memory@.len() == 4096,
                forall|j: int| 0x200 <= j < 0x200 + i ==> self.memory@[j] == rom@[j - 0x200],
                forall|j: int|
                    0 <= j < 4096 && !(0x200 <= j < 0x200 + i) ==> self.memory@[j] == old(
                        self,
                    ).memory@[j],
                self.registers@ == old(self).registers@,
                self.index == old(self).index,
                self.pc == old(self).pc,
                self.stack@ == old(self).stack@,
                self.sp == old(self).sp,
                self.delay_timer == old(self).delay_timer,
                self.sound_timer == old(self).sound_timer,
                self.keypad@ == old(self).keypad@,
                self.video@ == old(self).video@,
                self.opcode == old(self).opcode,
            decreases rom@.len() - i,
        {
            self.memory.set(0x200 + i, rom[i]);
            i += 1;
        }
        proof {
            assert(self@.mem =~= loaded_mem(old(self)@.mem, rom@));
            assert(self@ =~= (Model { mem: loaded_mem(old(self)@.mem, rom@), ..old(self)@ }));
        }
        Ok(())
    }
}

#[allow(non_snake_case)]
impl Chip8 {
    /// 00E0 — clear the screen.
    pub fn OP_00E0(&mut self)
        requires
            old(self).wf(),
        ensures
            final(self).wf(),
            final(self)@ == spec_cls(old(self)@),
    {
        self.video = cleared_flags(VIDEO_SIZE);
        proof {
            assert(self@.fb =~= spec_cls(old(self)@).fb);
            assert(self@ =~= spec_cls(old(self)@));
        }
    }

    /// 00EE — return from subroutine; a stack-underflow fault if the stack
    /// is already empty, leaving the state unmodified.
    pub fn OP_00EE(&mut self) -> (r: Result<(), Chip8Error>)
        requires
            old(self).wf(),
        ensures
            final(self).wf(),
            (final(self)@, r) == spec_ret(old(self)@),
    {
        if self.sp == 0 {
            return Err(Chip8Error::StackUnderflow);
        }
        self.sp = self.sp - 1;
        self.pc = self.stack[self.sp as usize];
        Ok(())
    }

    /// 1nnn — absolute jump.
    pub fn OP_1nnn(&mut self)
        requires
            old(self).wf(),
        ensures
            final(self).wf(),
            final(self)@ == spec_jp(old(self)@),
    {
        self.pc = field_nnn(self.opcode);
    }

    /// 2nnn — call subroutine; a stack-overflow fault if the stack is
    /// already full, leaving the state unmodified.
    pub fn OP_2nnn(&mut self) -> (r: Result<(), Chip8Error>)
        requires
            old(self).wf(),
        ensures
            final(self).wf(),
            (final(self)@, r) == spec_call(old(self)@),
    {
        if self.sp >= 16 {
            return Err(Chip8Error::StackOverflow);
        }
        self.stack.set(self.sp as usize, self.pc);
        self.sp = self.sp + 1;
        self.pc = field_nnn(self.opcode);
        Ok(())
    }

    /// 3xkk — skip the next instruction if register `x` equals the
    /// immediate byte.
    pub fn OP_3xkk(&mut self)
        requires
            old(self).wf(),
        ensures
            final(self).wf(),
            final(self)@ == spec_se_byte(old(self)@),
    {
        let x = field_x(self.opcode);
        let kk = field_kk(self.opcode);
        if self.registers[x] == kk {
            self.pc = pc_forward(self.pc);
        }
    }

    /// 4xkk — skip the next instruction if register `x` differs from the
    /// immediate byte.
    pub fn OP_4xkk(&mut self)
        requires
            old(self).wf(),
        ensures
            final(self).wf(),
            final(self)@ == spec_sne_byte(old(self)@),
    {
        let x = field_x(self.opcode);
        let kk = field_kk(self.opcode);
        if self.registers[x] != kk {
            self.pc = pc_forward(self.pc);
        }
    }

    /// 5xy0 — skip the next instruction if registers `x` and `y` are equal.
    pub fn OP_5xy0(&mut self)
        requires
            old(self).wf(),
        ensures
            final(self).wf(),
            final(self)@ == spec_se_reg(old(self)@),
    {
        let x = field_x(self.opcode);
        let y = field_y(self.opcode);
        if self.registers[x] == self.registers[y] {
            self.pc = pc_forward(self.pc);
        }
    }

    /// 6xkk — load the immediate byte into register `x`.
    pub fn OP_6xkk(&mut self)
        requires
            old(self).wf(),
        ensures
            final(self).wf(),
            final(self)@ == spec_ld_byte(old(self)@),
    {
        let x = field_x(self.opcode);
        let kk = field_kk(self.opcode);
        self.registers.set(x, kk);
    }

    /// 7xkk — add the immediate byte into register `x`, wrapping modulo
    /// 256; the flag register is not touched.
    pub fn OP_7xkk(&mut self)
        requires
            old(self).wf(),
        ensures
            final(self).wf(),
            final(self)@ == spec_add_byte(old(self)@),
    {
        let x = field_x(self.opcode);
        let kk = field_kk(self.opcode);
        let sum: u16 = self.registers[x] as u16 + kk as u16;
        self.registers.set(x, (sum % 0x100) as u8);
    }

    /// 8xy0 — copy register `y` into register `x`.
    pub fn OP_8xy0(&mut self)
        requires
            old(self).wf(),
        ensures
            final(self).wf(),
            final(self)@ == spec_ld_reg(old(self)@),
    {
        let x = field_x(self.opcode);
        let y = field_y(self.opcode);
        let vy = self.registers[y];
        self.registers.set(x, vy);
    }

    /// 8xy1 — bitwise OR of registers `x` and `y` into `x`.
    pub fn OP_8xy1(&mut self)
        requires
            old(self).wf(),
        ensures
            final(self).wf(),
            final(self)@ == spec_or(old(self)@),
    {
        let x = field_x(self.opcode);
        let y = field_y(self.opcode);
        let v = self.registers[x] | self.registers[y];
        self.registers.set(x, v);
    }

    /// 8xy2 — bitwise AND of registers `x` and `y` into `x`.
    pub fn OP_8xy2(&mut self)
        requires
            old(self).wf(),
        ensures
            final(self).wf(),
            final(self)@ == spec_and(old(self)@),
    {
        let x = field_x(self.opcode);
        let y = field_y(self.opcode);
        let v = self.registers[x] & self.registers[y];
        self.registers.set(x, v);
    }

    /// 8xy3 — bitwise XOR of registers `x` and `y` into `x`.
    pub fn OP_8xy3(&mut self)
        requires
            old(self).wf(),
        ensures
            final(self).wf(),
            final(self)@ == spec_xor(old(self)@),
    {
        let x = field_x(self.opcode);
        let y = field_y(self.opcode);
        let v = self.registers[x] ^ self.registers[y];
        self.registers.set(x, v);
    }

    /// 8xy4 — register-register add: the flag register records the carry,
    /// the destination takes the sum modulo 256.
    pub fn OP_8xy4(&mut self)
        requires
            old(self).wf(),
        ensures
            final(self).wf(),
            final(self)@ == spec_add_reg(old(self)@),
    {
        let x = field_x(self.opcode);
        let y = field_y(self.opcode);
        let sum: u16 = self.registers[x] as u16 + self.registers[y] as u16;
        let flag: u8 = if sum > 255 {
            1
        } else {
            0
        };
        self.registers.set(15, flag);
        self.registers.set(x, (sum % 0x100) as u8);
    }

    /// 8xy5 — subtract register `y` from register `x`: the flag register
    /// records `x > y`, the destination wraps modulo 256.
    pub fn OP_8xy5(&mut self)
        requires
            old(self).wf(),
        ensures
            final(self).wf(),
            final(self)@ == spec_sub(old(self)@),
    {
        let x = field_x(self.opcode);
        let y = field_y(self.opcode);
        let vx = self.registers[x];
        let vy = self.registers[y];
        let flag: u8 = if vx > vy {
            1
        } else {
            0
        };
        self.registers.set(15, flag);
        let diff: u16 = (vx as u16 + 0x100) - (vy as u16);
        self.registers.set(x, (diff % 0x100) as u8);
    }

    /// 8xy6 — shift register `x` right by one: the flag register takes the
    /// pre-shift low bit.
    pub fn OP_8xy6(&mut self)
        requires
            old(self).wf(),
        ensures
            final(self).wf(),
            final(self)@ == spec_shr(old(self)@),
    {
        let x = field_x(self.opcode);
        let vx = self.registers[x];
        self.registers.set(15, vx % 2);
        self.registers.set(x, vx / 2);
    }

    /// 8xy7 — subtract register `x` from register `y` into `x`: the flag
    /// register records `y > x`, the destination wraps modulo 256.
    pub fn OP_8xy7(&mut self)
        requires
            old(self).wf(),
        ensures
            final(self).wf(),
            final(self)@ == spec_subn(old(self)@),
    {
        let x = field_x(self.opcode);
        let y = field_y(self.opcode);
        let vx = self.registers[x];
        let vy = self.registers[y];
        let flag: u8 = if vy > vx {
            1
        } else {
            0
        };
        self.registers.set(15, flag);
        let diff: u16 = (vy as u16 + 0x100) - (vx as u16);
        self.registers.set(x, (diff % 0x100) as u8);
    }

    /// 8xyE — shift register `x` left by one, truncated to 8 bits: the flag
    /// register takes the pre-shift high bit.
    pub fn OP_8xyE(&mut self)
        requires
            old(self).wf(),
        ensures
            final(self).wf(),
            final(self)@ == spec_shl(old(self)@),
    {
        let x = field_x(self.opcode);
        let vx = self.registers[x];
        self.registers.set(15, vx / 0x80);
        self.registers.set(x, ((vx as u16 * 2) % 0x100) as u8);
    }

    /// 9xy0 — skip the next instruction if registers `x` and `y` differ.
    pub fn OP_9xy0(&mut self)
        requires
            old(self).wf(),
        ensures
            final(self).wf(),
            final(self)@ == spec_sne_reg(old(self)@),
    {
        let x = field_x(self.opcode);
        let y = field_y(self.opcode);
        if self.registers[x] != self.registers[y] {
            self.pc = pc_forward(self.pc);
        }
    }

    /// Annn — load the instruction's 12-bit address into the index register.
    pub fn OP_Annn(&mut self)
        requires
            old(self).wf(),
        ensures
            final(self).wf(),
            final(self)@ == spec_ld_index(old(self)@),
    {
        self.index = field_nnn(self.opcode);
    }

    /// Bnnn — jump to the 12-bit address offset by register 0.
    pub fn OP_Bnnn(&mut self)
        requires
            old(self).wf(),
        ensures
            final(self).wf(),
            final(self)@ == spec_jp_v0(old(self)@),
    {
        let nnn = field_nnn(self.opcode);
        self.pc = self.registers[0] as u16 + nnn;
    }

    /// Cxkk with the byte supplied by the caller: register `x` takes
    /// `byte & kk`. This is the injectable form of the random instruction,
    /// exact for every value handed in — `OP_Cxkk` draws the byte and
    /// delegates here.
    pub fn OP_Cxkk_with(&mut self, byte: u8)
        requires
            old(self).wf(),
        ensures
            final(self).wf(),
            final(self)@ == spec_rnd(old(self)@, byte),
    {
        let x = field_x(self.opcode);
        let kk = field_kk(self.opcode);
        self.registers.set(x, byte & kk);
    }

    /// Cxkk — register `x` takes a fresh random byte AND the immediate
    /// mask. The byte is drawn anew on every invocation; the contract states
    /// what holds whichever byte came back.
    pub fn OP_Cxkk(&mut self)
        requires
            old(self).wf(),
        ensures
            final(self).wf(),
            exists|r: u8| final(self)@ == spec_rnd(old(self)@, r),
    {
        let rb = crate::rng::random_byte();
        self.OP_Cxkk_with(rb);
        proof {
            assert(self@ == spec_rnd(old(self)@, rb));
        }
    }

    /// Ex9E — skip the next instruction if the key named by register `x`
    /// (taken modulo 16) is pressed.
    pub fn OP_Ex9E(&mut self)
        requires
            old(self).wf(),
        ensures
            final(self).wf(),
            final(self)@ == spec_skp(old(self)@),
    {
        let x = field_x(self.opcode);
        let key = (self.registers[x] as usize) % 16;
        if self.keypad[key] {
            self.pc = pc_forward(self.pc);
        }
    }

    /// ExA1 — skip the next instruction if the key named by register `x`
    /// (taken modulo 16) is not pressed.
    pub fn OP_ExA1(&mut self)
        requires
            old(self).wf(),
        ensures
            final(self).wf(),
            final(self)@ == spec_sknp(old(self)@),
    {
        let x = field_x(self.opcode);
        let key = (self.registers[x] as usize) % 16;
        if !self.keypad[key] {
            self.pc = pc_forward(self.pc);
        }
    }

    /// Fx07 — copy the delay timer into register `x`.
    pub fn OP_Fx07(&mut self)
        requires
            old(self).wf(),
        ensures
            final(self).wf(),
            final(self)@ == spec_ld_from_dt(old(self)@),
    {
        let x = field_x(self.opcode);
        let dt = self.delay_timer;
        self.registers.set(x, dt);
    }

    /// Fx15 — set the delay timer from register `x`.
    pub fn OP_Fx15(&mut self)
        requires
            old(self).wf(),
        ensures
            final(self).wf(),
            final(self)@ == spec_set_dt(old(self)@),
    {
        let x = field_x(self.opcode);
        self.delay_timer = self.registers[x];
    }

    /// Fx18 — set the sound timer from register `x`.
    pub fn OP_Fx18(&mut self)
        requires
            old(self).wf(),
        ensures
            final(self).wf(),
            final(self)@ == spec_set_st(old(self)@),
    {
        let x = field_x(self.opcode);
        self.sound_timer = self.registers[x];
    }

    /// Fx1E — add register `x` into the index register, with 16-bit
    /// wraparound.
    pub fn OP_Fx1E(&mut self)
        requires
            old(self).wf(),
        ensures
            final(self).wf(),
            final(self)@ == spec_add_index(old(self)@),
    {
        let x = field_x(self.opcode);
        let vx = self.registers[x];
        self.index = ((self.index as u32 + vx as u32) % 0x10000) as u16;
    }

    /// Fx29 — point the index register at the font glyph for the digit in
    /// register `x`.
    pub fn OP_Fx29(&mut self)
        requires
            old(self).wf(),
        ensures
            final(self).wf(),
            final(self)@ == spec_ld_font(old(self)@),
    {
        let x = field_x(self.opcode);
        let digit = self.registers[x];
        self.index = FONTSET_START_ADDRESS + 5 * (digit as u16);
    }

    /// Fx33 — store the three decimal digits of register `x` at the index
    /// register: hundreds, tens, ones, addresses taken modulo the memory
    /// size.
    pub fn OP_Fx33(&mut self)
        requires
            old(self).wf(),
        ensures
            final(self).wf(),
            final(self)@ == spec_bcd(old(self)@),
    {
        let x = field_x(self.opcode);
        let v = self.registers[x];
        let base = self.index as usize;
        self.memory.set(base % 4096, v / 100);
        self.memory.set((base + 1) % 4096, (v / 10) % 10);
        self.memory.set((base + 2) % 4096, v % 10);
    }

    /// Fx0A — wait for a key: if some key is pressed, register `x` takes
    /// the lowest pressed index; otherwise the program counter steps back
    /// one instruction so the wait is re-executed next cycle.
    #[verifier::loop_isolation(false)]
    pub fn OP_Fx0A(&mut self)
        requires
            old(self).wf(),
        ensures
            final(self).wf(),
            final(self)@ == spec_wait_key(old(self)@),
    {
        let x = field_x(self.opcode);
        let mut i: usize = 0;
        while i < 16
            invariant
                i <= 16,
                self@ == old(self)@,
                first_pressed_from(self.keypad@, 0) == first_pressed_from(self.keypad@, i as int),
            decreases 16 - i,
        {
            if self.keypad[i] {
                proof {
                    assert(first_pressed_from(self.keypad@, i as int) == i);
                }
                self.registers.set(x, i as u8);
                return ;
            }
            i += 1;
        }
        self.pc = pc_backward(self.pc);
    }

    /// Fx55 — register dump: copy registers `0..=x` into memory at the
    /// index register, addresses taken modulo the memory size.
    #[verifier::loop_isolation(false)]
    pub fn OP_Fx55(&mut self)
        requires
            old(self).wf(),
        ensures
            final(self).wf(),
            final(self)@ == spec_store_regs(old(self)@),
    {
        let x = field_x(self.opcode);
        let base = self.index as usize;
        let mut i: usize = 0;
        while i <= x
            invariant
                i <= x + 1,
                self.registers@ == old(self)@.regs,
                self.memory@ == stored_mem(old(self)@.mem, old(self)@.regs, base as int, i as int - 1),
                self.memory@.len() == 4096,
                self.index == old(self).index,
                self.pc == old(self).pc,
                self.stack@ == old(self)@.stack,
                self.sp == old(self).sp,
                self.delay_timer == old(self).delay_timer,
                self.sound_timer == old(self).sound_timer,
                self.keypad@ == old(self)@.keys,
                self.video@ == old(self)@.fb,
                self.opcode == old(self).opcode,
            decreases x + 1 - i,
        {
            let vi = self.registers[i];
            self.memory.set((base + i) % 4096, vi);
            i += 1;
        }
    }

    /// Fx65 — register load: refill registers `0..=x` from memory at the
    /// index register, addresses taken modulo the memory size.
    #[verifier::loop_isolation(false)]
    pub fn OP_Fx65(&mut self)
        requires
            old(self).wf(),
        ensures
            final(self).wf(),
            final(self)@ == spec_load_regs(old(self)@),
    {
        let x = field_x(self.opcode);
        let base = self.index as usize;
        let mut i: usize = 0;
        while i <= x
            invariant
                i <= x + 1,
                self.registers@ == loaded_regs(old(self)@.regs, old(self)@.mem, base as int, i as int - 1),
                self.registers@.len() == 16,
                self.memory@ == old(self)@.mem,
                self.index == old(self).index,
                self.pc == old(self).pc,
                self.stack@ == old(self)@.stack,
                self.sp == old(self).sp,
                self.delay_timer == old(self).delay_timer,
                self.sound_timer == old(self).sound_timer,
                self.keypad@ == old(self)@.keys,
                self.video@ == old(self)@.fb,
                self.opcode == old(self).opcode,
            decreases x + 1 - i,
        {
            let b = self.memory[(base + i) % 4096];
            self.registers.set(i, b);
            i += 1;
        }
    }

    /// Dxyn — draw sprite: XOR-composite `n` rows of 8 sprite bits read
    /// from memory at the index register onto the framebuffer at the
    /// coordinates in registers `x` and `y`, wrapping both coordinates; the
    /// flag register records whether any toggle turned an on pixel off.
    #[verifier::loop_isolation(false)]
    pub fn OP_Dxyn(&mut self)
        requires
            old(self).wf(),
        ensures
            final(self).wf(),
            final(self)@ == spec_drw(old(self)@),
    {
        let ghost m0 = old(self)@;
        let x = field_x(self.opcode);
        let y = field_y(self.opcode);
        let h = field_n(self.opcode);
        let x0 = (self.registers[x] % 64) as usize;
        let y0 = (self.registers[y] % 32) as usize;
        let base = self.index as usize;
        let mut collided = false;
        let mut row: usize = 0;
        while row < h
            invariant
                row <= h,
                self.registers@ == m0.regs,
                self.memory@ == m0.mem,
                self.index == m0.index,
                self.pc == m0.pc,
                self.stack@ == m0.stack,
                self.sp == m0.sp,
                self.delay_timer == m0.delay,
                self.sound_timer == m0.sound,
                self.keypad@ == m0.keys,
                self.opcode == m0.opcode,
                self.video@.len() == 2048,
                forall|cell: int|
                    0 <= cell < 2048 ==> self.video@[cell] == (m0.fb[cell] != draw_hits(
                        m0,
                        cell,
                        row as int,
                        0,
                    )),
                collided == exists|cell: int|
                    0 <= cell < 2048 && m0.fb[cell] && draw_hits(m0, cell, row as int, 0),
            decreases h - row,
        {
            let sprite_byte = self.memory[(base + row) % 4096];
            let mut col: usize = 0;
            while col < 8
                invariant
                    col <= 8,
                    self.registers@ == m0.regs,
                    self.memory@ == m0.mem,
                    self.index == m0.index,
                    self.pc == m0.pc,
                    self.stack@ == m0.stack,
                    self.sp == m0.sp,
                    self.delay_timer == m0.delay,
                    self.sound_timer == m0.sound,
                    self.keypad@ == m0.keys,
                    self.opcode == m0.opcode,
                    self.video@.len() == 2048,
                    forall|cell: int|
                        0 <= cell < 2048 ==> self.video@[cell] == (m0.fb[cell] != draw_hits(
                            m0,
                            cell,
                            row as int,
                            col as int,
                        )),
                    collided == exists|cell: int|
                        0 <= cell < 2048 && m0.fb[cell] && draw_hits(m0, cell, row as int, col as int),
                decreases 8 - col,
            {
                let b = (sprite_byte >> ((7 - col) as u8)) & 1;
                if b == 1 {
                    let cell = ((y0 + row) % 32) * 64 + ((x0 + col) % 64);
                    proof {
                        lemma_cell_target(x0 as int, y0 as int, row as int, col as int);
                        assert(target_row(m0, cell as int) == row as int);
                        assert(target_col(m0, cell as int) == col as int);
                        assert(sprite_bit(m0.mem[(m0.index as int + row as int) % 4096], col as int));
                        assert forall|u: int|
                            0 <= u < 2048 && u != cell as int implies draw_hits(
                            m0,
                            u,
                            row as int,
                            col as int + 1,
                        ) == draw_hits(m0, u, row as int, col as int) by {
                            if target_row(m0, u) == row as int && target_col(m0, u) == col as int {
                                lemma_cell_unique(
                                    x0 as int,
                                    y0 as int,
                                    row as int,
                                    col as int,
                                    u,
                                );
                            }
                        }
                    }
                    let cur = self.video[cell];
                    if cur {
                        collided = true;
                    }
                    self.video.set(cell, !cur);
                    proof {
                        if collided && !(exists|c2: int|
                            0 <= c2 < 2048 && m0.fb[c2] && draw_hits(m0, c2, row as int, col as int)) {
                            assert(m0.fb[cell as int] && draw_hits(m0, cell as int, row as int, col as int + 1));
                        }
                        if exists|c2: int|
                            0 <= c2 < 2048 && m0.fb[c2] && draw_hits(m0, c2, row as int, col as int) {
                            let w = choose|c2: int|
                                0 <= c2 < 2048 && m0.fb[c2] && draw_hits(m0, c2, row as int, col as int);
                            assert(m0.fb[w] && draw_hits(m0, w, row as int, col as int + 1));
                        }
                    }
                } else {
                    proof {
                        assert forall|u: int|
                            0 <= u < 2048 implies draw_hits(m0, u, row as int, col as int + 1)
                            == draw_hits(m0, u, row as int, col as int) by {
                            if target_row(m0, u) == row as int && target_col(m0, u) == col as int {
                                assert(!sprite_bit(
                                    m0.mem[(m0.index as int + row as int) % 4096],
                                    col as int,
                                ));
                            }
                        }
                        if exists|c2: int|
                            0 <= c2 < 2048 && m0.fb[c2] && draw_hits(m0, c2, row as int, col as int) {
                            let w = choose|c2: int|
                                0 <= c2 < 2048 && m0.fb[c2] && draw_hits(m0, c2, row as int, col as int);
                            assert(m0.fb[w] && draw_hits(m0, w, row as int, col as int + 1));
                        }
                    }
                }
                col += 1;
            }
            proof {
                assert forall|u: int|
                    0 <= u < 2048 implies draw_hits(m0, u, row as int + 1, 0) == draw_hits(
                    m0,
                    u,
                    row as int,
                    8,
                ) by {}
                if exists|c2: int|
                    0 <= c2 < 2048 && m0.fb[c2] && draw_hits(m0, c2, row as int, 8) {
                    let w = choose|c2: int|
                        0 <= c2 < 2048 && m0.fb[c2] && draw_hits(m0, c2, row as int, 8);
                    assert(m0.fb[w] && draw_hits(m0, w, row as int + 1, 0));
                }
            }
            row += 1;
        }
        let flag: u8 = if collided {
            1
        } else {
            0
        };
        self.registers.set(15, flag);
        proof {
            assert(self@.fb =~= spec_drw(m0).fb);
            assert(self@ =~= spec_drw(m0));
        }
    }
}

/// The framebuffer cell a sprite position lands on is inside the
/// framebuffer, and the wrapped row and column offsets recover the sprite
/// position.
proof fn lemma_cell_target(x0: int, y0: int, r: int, c: int)
    requires
        0 <= x0 < 64,
        0 <= y0 < 32,
        0 <= r < 32,
        0 <= c < 64,
    ensures
        ({
            let cell = ((y0 + r) % 32) * 64 + ((x0 + c) % 64);
            &&& 0 <= cell < 2048
            &&& ((cell / 64) - y0 + 32) % 32 == r
            &&& ((cell % 64) - x0 + 64) % 64 == c
        }),
{
    let a = (y0 + r) % 32;
    let b = (x0 + c) % 64;
    let cell = a * 64 + b;
    assert(0 <= a < 32 && 0 <= b < 64);
    assert(cell / 64 == a && cell % 64 == b) by (nonlinear_arith)
        requires
            0 <= a < 32,
            0 <= b < 64,
            cell == a * 64 + b,
    ;
    assert(a == if y0 + r < 32 {
        y0 + r
    } else {
        y0 + r - 32
    }) by (nonlinear_arith)
        requires
            a == (y0 + r) % 32,
            0 <= y0 < 32,
            0 <= r < 32,
    ;
    assert((a - y0 + 32) % 32 == r) by (nonlinear_arith)
        requires
            0 <= r < 32,
            a == if y0 + r < 32 {
                y0 + r
            } else {
                y0 + r - 32
            },
    ;
    assert(b == if x0 + c < 64 {
        x0 + c
    } else {
        x0 + c - 64
    }) by (nonlinear_arith)
        requires
            b == (x0 + c) % 64,
            0 <= x0 < 64,
            0 <= c < 64,
    ;
    assert((b - x0 + 64) % 64 == c) by (nonlinear_arith)
        requires
            0 <= c < 64,
            b == if x0 + c < 64 {
                x0 + c
            } else {
                x0 + c - 64
            },
    ;
}

/// A framebuffer cell whose wrapped offsets name a given sprite position is
/// the one cell that position lands on: the sprite-to-cell map is injective.
proof fn lemma_cell_unique(x0: int, y0: int, r: int, c: int, u: int)
    requires
        0 <= x0 < 64,
        0 <= y0 < 32,
        0 <= r < 32,
        0 <= c < 64,
        0 <= u < 2048,
        ((u / 64) - y0 + 32) % 32 == r,
        ((u % 64) - x0 + 64) % 64 == c,
    ensures
        u == ((y0 + r) % 32) * 64 + ((x0 + c) % 64),
{
    let q = u / 64;
    let b = u % 64;
    assert(u == q * 64 + b && 0 <= q < 32 && 0 <= b < 64) by (nonlinear_arith)
        requires
            0 <= u < 2048,
            q == u / 64,
            b == u % 64,
    ;
    assert(q == (y0 + r) % 32) by (nonlinear_arith)
        requires
            0 <= q < 32,
            0 <= y0 < 32,
            0 <= r < 32,
            ((q - y0 + 32) % 32) == r,
    ;
    assert(b == (x0 + c) % 64) by (nonlinear_arith)
        requires
            0 <= b < 64,
            0 <= x0 < 64,
            0 <= c < 64,
            ((b - x0 + 64) % 64) == c,
    ;
}

/// Decode an instruction word into its operation: the top nibble selects
/// the family, with a secondary dispatch on the low nibble or low byte
/// where the family needs one. An unrecognized bit pattern yields nothing.
pub fn decode(w: u16) -> (r: Option<Op>)
    ensures
        r == spec_decode(w),
{
    let family = field_family(w);
    let n = field_n(w);
    let kk = field_kk(w);
    match family {
        0x0 => if n == 0x0 {
            Some(Op::Cls)
        } else if n == 0xE {
            Some(Op::Ret)
        } else {
            None
        },
        0x1 => Some(Op::Jp),
        0x2 => Some(Op::Call),
        0x3 => Some(Op::SeByte),
        0x4 => Some(Op::SneByte),
        0x5 => Some(Op::SeReg),
        0x6 => Some(Op::LdByte),
        0x7 => Some(Op::AddByte),
        0x8 => if n == 0x0 {
            Some(Op::LdReg)
        } else if n == 0x1 {
            Some(Op::Or)
        } else if n == 0x2 {
            Some(Op::And)
        } else if n == 0x3 {
            Some(Op::Xor)
        } else if n == 0x4 {
            Some(Op::AddReg)
        } else if n == 0x5 {
            Some(Op::Sub)
        } else if n == 0x6 {
            Some(Op::Shr)
        } else if n == 0x7 {
            Some(Op::Subn)
        } else if n == 0xE {
            Some(Op::Shl)
        } else {
            None
        },
        0x9 => Some(Op::SneReg),
        0xA => Some(Op::LdIndex),
        0xB => Some(Op::JpV0),
        0xC => Some(Op::Rnd),
        0xD => Some(Op::Drw),
        0xE => if n == 0x1 {
            Some(Op::Sknp)
        } else if n == 0xE {
            Some(Op::Skp)
        } else {
            None
        },
        _ => if kk == 0x07 {
            Some(Op::LdFromDt)
        } else if kk == 0x0A {
            Some(Op::WaitKey)
        } else if kk == 0x15 {
            Some(Op::SetDt)
        } else if kk == 0x18 {
            Some(Op::SetSt)
        } else if kk == 0x1E {
            Some(Op::AddIndex)
        } else if kk == 0x29 {
            Some(Op::LdFont)
        } else if kk == 0x33 {
            Some(Op::Bcd)
        } else if kk == 0x55 {
            Some(Op::StoreRegs)
        } else if kk == 0x65 {
            Some(Op::LoadRegs)
        } else {
            None
        },
    }
}

impl Chip8 {
    /// Execute the already-fetched instruction word: dispatch on its
    /// decoded operation and apply exactly one transition, or report a
    /// decode error and leave the state as it stands.
    fn decode_n_exe(&mut self) -> (r: Result<(), Chip8Error>)
        requires
            old(self).wf(),
        ensures
            final(self).wf(),
            exists|rb: u8| (final(self)@, r) == spec_execute(old(self)@, rb),
    {
        match decode(self.opcode) {
            None => {
                proof {
                    assert((self@, Err::<(), Chip8Error>(Chip8Error::DecodeError)) == spec_execute(
                        old(self)@,
                        0u8,
                    ));
                }
                Err(Chip8Error::DecodeError)
            },
            Some(Op::Cls) => {
                self.OP_00E0();
                proof {
                    assert((self@, Ok::<(), Chip8Error>(())) == spec_execute(old(self)@, 0u8));
                }
                Ok(())
            },
            Some(Op::Ret) => {
                let r = self.OP_00EE();
                proof {
                    assert((self@, r) == spec_execute(old(self)@, 0u8));
                }
                r
            },
            Some(Op::Jp) => {
                self.OP_1nnn();
                proof {
                    assert((self@, Ok::<(), Chip8Error>(())) == spec_execute(old(self)@, 0u8));
                }
                Ok(())
            },
            Some(Op::Call) => {
                let r = self.OP_2nnn();
                proof {
                    assert((self@, r) == spec_execute(old(self)@, 0u8));
                }
                r
            },
            Some(Op::SeByte) => {
                self.OP_3xkk();
                proof {
                    assert((self@, Ok::<(), Chip8Error>(())) == spec_execute(old(self)@, 0u8));
                }
                Ok(())
            },
            Some(Op::SneByte) => {
                self.OP_4xkk();
                proof {
                    assert((self@, Ok::<(), Chip8Error>(())) == spec_execute(old(self)@, 0u8));
                }
                Ok(())
            },
            Some(Op::SeReg) => {
                self.OP_5xy0();
                proof {
                    assert((self@, Ok::<(), Chip8Error>(())) == spec_execute(old(self)@, 0u8));
                }
                Ok(())
            },
            Some(Op::LdByte) => {
                self.OP_6xkk();
                proof {
                    assert((self@, Ok::<(), Chip8Error>(())) == spec_execute(old(self)@, 0u8));
                }
                Ok(())
            },
            Some(Op::AddByte) => {
                self.OP_7xkk();
                proof {
                    assert((self@, Ok::<(), Chip8Error>(())) == spec_execute(old(self)@, 0u8));
                }
                Ok(())
            },
            Some(Op::LdReg) => {
                self.OP_8xy0();
                proof {
                    assert((self@, Ok::<(), Chip8Error>(())) == spec_execute(old(self)@, 0u8));
                }
                Ok(())
            },
            Some(Op::Or) => {
                self.OP_8xy1();
                proof {
                    assert((self@, Ok::<(), Chip8Error>(())) == spec_execute(old(self)@, 0u8));
                }
                Ok(())
            },
            Some(Op::And) => {
                self.OP_8xy2();
                proof {
                    assert((self@, Ok::<(), Chip8Error>(())) == spec_execute(old(self)@, 0u8));
                }
                Ok(())
            },
            Some(Op::Xor) => {
                self.OP_8xy3();
                proof {
                    assert((self@, Ok::<(), Chip8Error>(())) == spec_execute(old(self)@, 0u8));
                }
                Ok(())
            },
            Some(Op::AddReg) => {
                self.OP_8xy4();
                proof {
                    assert((self@, Ok::<(), Chip8Error>(())) == spec_execute(old(self)@, 0u8));
                }
                Ok(())
            },
            Some(Op::Sub) => {
                self.OP_8xy5();
                proof {
                    assert((self@, Ok::<(), Chip8Error>(())) == spec_execute(old(self)@, 0u8));
                }
                Ok(())
            },
            Some(Op::Shr) => {
                self.OP_8xy6();
                proof {
                    assert((self@, Ok::<(), Chip8Error>(())) == spec_execute(old(self)@, 0u8));
                }
                Ok(())
            },
            Some(Op::Subn) => {
                self.OP_8xy7();
                proof {
                    assert((self@, Ok::<(), Chip8Error>(())) == spec_execute(old(self)@, 0u8));
                }
                Ok(())
            },
            Some(Op::Shl) => {
                self.OP_8xyE();
                proof {
                    assert((self@, Ok::<(), Chip8Error>(())) == spec_execute(old(self)@, 0u8));
                }
                Ok(())
            },
            Some(Op::SneReg) => {
                self.OP_9xy0();
                proof {
                    assert((self@, Ok::<(), Chip8Error>(())) == spec_execute(old(self)@, 0u8));
                }
                Ok(())
            },
            Some(Op::LdIndex) => {
                self.OP_Annn();
                proof {
                    assert((self@, Ok::<(), Chip8Error>(())) == spec_execute(old(self)@, 0u8));
                }
                Ok(())
            },
            Some(Op::JpV0) => {
                self.OP_Bnnn();
                proof {
                    assert((self@, Ok::<(), Chip8Error>(())) == spec_execute(old(self)@, 0u8));
                }
                Ok(())
            },
            Some(Op::Rnd) => {
                self.OP_Cxkk();
                proof {
                    let rv = choose|rv: u8| self@ == spec_rnd(old(self)@, rv);
                    assert((self@, Ok::<(), Chip8Error>(())) == spec_execute(old(self)@, rv));
                }
                Ok(())
            },
            Some(Op::Drw) => {
                self.OP_Dxyn();
                proof {
                    assert((self@, Ok::<(), Chip8Error>(())) == spec_execute(old(self)@, 0u8));
                }
                Ok(())
            },
            Some(Op::Skp) => {
                self.OP_Ex9E();
                proof {
                    assert((self@, Ok::<(), Chip8Error>(())) == spec_execute(old(self)@, 0u8));
                }
                Ok(())
            },
            Some(Op::Sknp) => {
                self.OP_ExA1();
                proof {
                    assert((self@, Ok::<(), Chip8Error>(())) == spec_execute(old(self)@, 0u8));
                }
                Ok(())
            },
            Some(Op::LdFromDt) => {
                self.OP_Fx07();
                proof {
                    assert((self@, Ok::<(), Chip8Error>(())) == spec_execute(old(self)@, 0u8));
                }
                Ok(())
            },
            Some(Op::WaitKey) => {
                self.OP_Fx0A();
                proof {
                    assert((self@, Ok::<(), Chip8Error>(())) == spec_execute(old(self)@, 0u8));
                }
                Ok(())
            },
            Some(Op::SetDt) => {
                self.OP_Fx15();
                proof {
                    assert((self@, Ok::<(), Chip8Error>(())) == spec_execute(old(self)@, 0u8));
                }
                Ok(())
            },
            Some(Op::SetSt) => {
                self.OP_Fx18();
                proof {
                    assert((self@, Ok::<(), Chip8Error>(())) == spec_execute(old(self)@, 0u8));
                }
                Ok(())
            },
            Some(Op::AddIndex) => {
                self.OP_Fx1E();
                proof {
                    assert((self@, Ok::<(), Chip8Error>(())) == spec_execute(old(self)@, 0u8));
                }
                Ok(())
            },
            Some(Op::LdFont) => {
                self.OP_Fx29();
                proof {
                    assert((self@, Ok::<(), Chip8Error>(())) == spec_execute(old(self)@, 0u8));
                }
                Ok(())
            },
            Some(Op::Bcd) => {
                self.OP_Fx33();
                proof {
                    assert((self@, Ok::<(), Chip8Error>(())) == spec_execute(old(self)@, 0u8));
                }
                Ok(())
            },
            Some(Op::StoreRegs) => {
                self.OP_Fx55();
                proof {
                    assert((self@, Ok::<(), Chip8Error>(())) == spec_execute(old(self)@, 0u8));
                }
                Ok(())
            },
            Some(Op::LoadRegs) => {
                self.OP_Fx65();
                proof {
                    assert((self@, Ok::<(), Chip8Error>(())) == spec_execute(old(self)@, 0u8));
                }
                Ok(())
            },
        }
    }

    /// One full cycle: fetch the two bytes at the program counter
    /// big-endian, advance the program counter past them, execute the
    /// fetched instruction, then tick both timers — the timers tick even
    /// when execution reported an error. A decode error is surfaced, never
    /// a panic; the caller decides whether to halt or continue.
    pub fn cycle(&mut self) -> (r: Result<(), Chip8Error>)
        requires
            old(self).wf(),
        ensures
            final(self).wf(),
            exists|rb: u8| (final(self)@, r) == spec_cycle(old(self)@, rb),
    {
        let hi = self.memory[(self.pc as usize) % 4096];
        let lo = self.memory[((self.pc as usize) + 1) % 4096];
        self.opcode = (hi as u16) * 0x100 + (lo as u16);
        self.pc = pc_forward(self.pc);
        proof {
            assert(self@ =~= spec_fetch(old(self)@));
        }
        let r = self.decode_n_exe();
        let ghost m_mid = self@;
        if self.delay_timer > 0 {
            self.delay_timer = self.delay_timer - 1;
        }
        if self.sound_timer > 0 {
            self.sound_timer = self.sound_timer - 1;
        }
        proof {
            assert(self@ =~= spec_tick(m_mid));
            let rb = choose|rb: u8| (m_mid, r) == spec_execute(spec_fetch(old(self)@), rb);
            assert((self@, r) == spec_cycle(old(self)@, rb));
        }
        r
    }
}

} // verus!
