use vstd::prelude::*;
use crate::draw::{
    hit_so_far, lemma_draw_clear_bit, lemma_draw_finish, lemma_draw_next_row, lemma_draw_set_bit,
    lemma_draw_start, screen_so_far,
};
use crate::instr::{Instr, decode, is_register_op, operands_in_range};
use crate::model::{
    EmuError, EmuModel, FONTSET_SIZE, NUM_KEYS, NUM_V_REGS, RAM_SIZE, SCREEN_HEIGHT, SCREEN_SIZE,
    SCREEN_WIDTH, STACK_SIZE, START_ADDR, collides, drawn, exec_spec, first_pressed, font,
    initial_model, loaded_ram, model_wf, set_reg, set_reg_flag, skip_if, step_spec, timers_spec,
    word_at,
};

verus! {

/// A CHIP-8 machine: fixed memory, sixteen byte registers (the last doubles
/// as the flag register), an index register, a sixteen-slot call stack, two
/// timers, sixteen key latches and a 64 x 32 framebuffer.
pub struct Emu {
    pc: u16,
    ram: [u8; RAM_SIZE],
    screen: [bool; SCREEN_SIZE],
    v_reg: [u8; NUM_V_REGS],
    i_reg: u16,
    stack: [u16; STACK_SIZE],
    sp: u16,
    dt: u8,
    st: u8,
    keys: [bool; NUM_KEYS],
}

impl View for Emu {
    type V = EmuModel;

    closed spec fn view(&self) -> EmuModel {
        EmuModel {
            pc: self.pc,
            ram: self.ram@,
            screen: self.screen@,
            v: self.v_reg@,
            i: self.i_reg,
            stack: self.stack@,
            sp: self.sp,
            dt: self.dt,
            st: self.st,
            keys: self.keys@,
        }
    }
}

/// The glyph table as an array.
fn font_table() -> (r: [u8; FONTSET_SIZE])
    ensures
        r@ == font(),
{
    let r: [u8; FONTSET_SIZE] = [
        0xF0, 0x90, 0x90, 0x90, 0xF0, 0x20, 0x60, 0x20, 0x20, 0x70,
        0xF0, 0x10, 0xF0, 0x80, 0xF0, 0xF0, 0x10, 0xF0, 0x10, 0xF0,
        0x90, 0x90, 0xF0, 0x10, 0x10, 0xF0, 0x80, 0xF0, 0x10, 0xF0,
        0xF0, 0x80, 0xF0, 0x90, 0xF0, 0xF0, 0x10, 0x20, 0x40, 0x40,
        0xF0, 0x90, 0xF0, 0x90, 0xF0, 0xF0, 0x90, 0xF0, 0x10, 0xF0,
        0xF0, 0x90, 0xF0, 0x90, 0x90, 0xE0, 0x90, 0xE0, 0x90, 0xE0,
        0xF0, 0x80, 0x80, 0x80, 0xF0, 0xE0, 0x90, 0x90, 0x90, 0xE0,
        0xF0, 0x80, 0xF0, 0x80, 0xF0, 0xF0, 0x80, 0xF0, 0x80, 0x80,
    ];
    assert(r@ =~= font());
    r
}

/// Relies on `rand::random`: a byte drawn from the thread-local generator.
/// Nothing is known of its value.
#[verifier::external_body]
fn random_byte() -> (r: u8) {
    rand::random::<u8>()
}

/// `r` and `after` are what one cycle with random byte `rnd` gives on
/// `before`: the successor state, or an error with the machine unchanged.
pub open spec fn cycle_outcome(
    before: EmuModel,
    after: EmuModel,
    r: Result<(), EmuError>,
    rnd: u8,
) -> bool {
    match step_spec(before, rnd) {
        Ok(m) => r == Ok::<(), EmuError>(()) && after == m,
        Err(e) => r == Err::<(), EmuError>(e) && after == before,
    }
}

impl Emu {
    /// Memory, registers and stack have their fixed sizes and the stack
    /// pointer counts used slots.
    pub open spec fn wf(&self) -> bool {
        model_wf(self@)
    }

    /// A machine with every field cleared, the font table not yet installed.
    fn blank() -> (r: Emu)
        ensures
            r@ == (EmuModel { ram: Seq::new(RAM_SIZE as nat, |a: int| 0u8), ..initial_model() }),
    {
        let r = Emu {
            pc: START_ADDR,
            ram: [0u8; RAM_SIZE],
            screen: [false; SCREEN_SIZE],
            v_reg: [0u8; NUM_V_REGS],
            i_reg: 0,
            stack: [0u16; STACK_SIZE],
            sp: 0,
            dt: 0,
            st: 0,
            keys: [false; NUM_KEYS],
        };
        assert(r@ =~= (EmuModel { ram: Seq::new(RAM_SIZE as nat, |a: int| 0u8), ..initial_model() }));
        r
    }

    /// Copies the glyph table into the reserved low memory.
    fn install_font(&mut self)
        ensures
            final(self)@ == (EmuModel {
                ram: Seq::new(
                    RAM_SIZE as nat,
                    |a: int| if a < FONTSET_SIZE { font()[a] } else { old(self)@.ram[a] },
                ),
                ..old(self)@
            }),
    {
        let glyphs = font_table();
        let mut k: usize = 0;
        while k < FONTSET_SIZE
            invariant
                k <= FONTSET_SIZE,
                glyphs@ == font(),
                self@ == (EmuModel {
                    ram: Seq::new(
                        RAM_SIZE as nat,
                        |a: int| if a < k { font()[a] } else { old(self)@.ram[a] },
                    ),
                    ..old(self)@
                }),
            decreases FONTSET_SIZE - k,
        {
            self.ram[k] = glyphs[k];
            k += 1;
            assert(self@ =~= (EmuModel {
                ram: Seq::new(
                    RAM_SIZE as nat,
                    |a: int| if a < k { font()[a] } else { old(self)@.ram[a] },
                ),
                ..old(self)@
            }));
        }
    }

    /// A powered-on machine: font table installed, program counter at the
    /// start address, everything else cleared.
    pub fn new() -> (r: Emu)
        ensures
            r@ == initial_model(),
            r.wf(),
    {
        let mut r = Emu::blank();
        r.install_font();
        assert(r@ =~= initial_model());
        r
    }

    /// Puts the machine back in its power-on state.
    pub fn reset(&mut self)
        ensures
            final(self)@ == initial_model(),
            final(self).wf(),
    {
        *self = Emu::new();
    }

    /// The framebuffer, row-major, `row * 64 + col`; `true` is lit.
    pub fn get_display(&self) -> (r: &[bool])
        ensures
            r@ == self@.screen,
    {
        self.screen.as_slice()
    }

    /// Sets the latch of key `index`; fails on an index outside 0..=15.
    pub fn keypress(&mut self, index: usize, pressed: bool) -> (r: Result<(), EmuError>)
        ensures
            index < NUM_KEYS ==> r == Ok::<(), EmuError>(()) && final(self)@ == (EmuModel {
                keys: old(self)@.keys.update(index as int, pressed),
                ..old(self)@
            }),
            index >= NUM_KEYS ==> r == Err::<(), EmuError>(EmuError::InvalidKeyIndex)
                && final(self)@ == old(self)@,
    {
        if index >= NUM_KEYS {
            return Err(EmuError::InvalidKeyIndex);
        }
        self.keys[index] = pressed;
        assert(self@ =~= (EmuModel { keys: old(self)@.keys.update(index as int, pressed), ..old(self)@ }));
        Ok(())
    }

    /// Copies a program image into memory at the start address, touching
    /// nothing else; fails when it does not fit before the end of memory.
    pub fn load(&mut self, data: &[u8]) -> (r: Result<(), EmuError>)
        ensures
            data@.len() <= RAM_SIZE - START_ADDR ==> r == Ok::<(), EmuError>(()) && final(self)@ == (
            EmuModel { ram: loaded_ram(old(self)@.ram, data@), ..old(self)@ }),
            data@.len() > RAM_SIZE - START_ADDR ==> r == Err::<(), EmuError>(
                EmuError::OversizedLoad,
            ) && final(self)@ == old(self)@,
    {
        let start = START_ADDR as usize;
        if data.len() > RAM_SIZE - start {
            return Err(EmuError::OversizedLoad);
        }
        let mut k: usize = 0;
        while k < data.len()
            invariant
                k <= data@.len() <= RAM_SIZE - START_ADDR,
                start == START_ADDR,
                self@ == (EmuModel {
                    ram: loaded_ram(old(self)@.ram, data@.subrange(0, k as int)),
                    ..old(self)@
                }),
            decreases data@.len() - k,
        {
            self.ram[start + k] = data[k];
            k += 1;
            assert(self@ =~= (EmuModel {
                ram: loaded_ram(old(self)@.ram, data@.subrange(0, k as int)),
                ..old(self)@
            }));
        }
        assert(data@.subrange(0, k as int) =~= data@);
        Ok(())
    }

    /// One timer tick. Returns `true` exactly when the sound timer runs out
    /// on this tick (went from 1 to 0): the driver should then sound a tone.
    pub fn tick_timers(&mut self) -> (beep: bool)
        ensures
            (final(self)@, beep) == timers_spec(old(self)@),
    {
        if self.dt > 0 {
            self.dt -= 1;
        }
        let beep = self.st == 1;
        if self.st > 0 {
            self.st -= 1;
        }
        assert(self@ =~= timers_spec(old(self)@).0);
        beep
    }

    fn push(&mut self, value: u16) -> (r: Result<(), EmuError>)
        requires
            old(self).wf(),
        ensures
            old(self)@.sp < STACK_SIZE ==> r == Ok::<(), EmuError>(()) && final(self)@ == (
            EmuModel {
                stack: old(self)@.stack.update(old(self)@.sp as int, value),
                sp: (old(self)@.sp + 1) as u16,
                ..old(self)@
            }),
            old(self)@.sp >= STACK_SIZE ==> r == Err::<(), EmuError>(EmuError::StackOverflow)
                && final(self)@ == old(self)@,
    {
        if self.sp as usize >= STACK_SIZE {
            return Err(EmuError::StackOverflow);
        }
        self.stack[self.sp as usize] = value;
        self.sp += 1;
        assert(self@ =~= (EmuModel {
            stack: old(self)@.stack.update(old(self)@.sp as int, value),
            sp: (old(self)@.sp + 1) as u16,
            ..old(self)@
        }));
        Ok(())
    }

    fn pop(&mut self) -> (r: Result<u16, EmuError>)
        requires
            old(self).wf(),
        ensures
            old(self)@.sp > 0 ==> r == Ok::<u16, EmuError>(old(self)@.stack[old(self)@.sp - 1])
                && final(self)@ == (EmuModel { sp: (old(self)@.sp - 1) as u16, ..old(self)@ }),
            old(self)@.sp == 0 ==> r == Err::<u16, EmuError>(EmuError::StackUnderflow)
                && final(self)@ == old(self)@,
    {
        if self.sp == 0 {
            return Err(EmuError::StackUnderflow);
        }
        self.sp -= 1;
        assert(self@ =~= (EmuModel { sp: (old(self)@.sp - 1) as u16, ..old(self)@ }));
        Ok(self.stack[self.sp as usize])
    }

    /// Reads the big-endian word at the program counter and moves past it.
    fn fetch(&mut self) -> (r: Result<u16, EmuError>)
        ensures
            old(self)@.pc + 1 < RAM_SIZE ==> r == Ok::<u16, EmuError>(word_at(old(self)@))
                && final(self)@ == (EmuModel { pc: (old(self)@.pc + 2) as u16, ..old(self)@ }),
            old(self)@.pc + 1 >= RAM_SIZE ==> r == Err::<u16, EmuError>(
                EmuError::MemoryOutOfBounds,
            ) && final(self)@ == old(self)@,
    {
        let pc = self.pc as usize;
        if pc + 1 >= RAM_SIZE {
            return Err(EmuError::MemoryOutOfBounds);
        }
        let hi = self.ram[pc];
        let lo = self.ram[pc + 1];
        self.pc += 2;
        assert(self@ =~= (EmuModel { pc: (old(self)@.pc + 2) as u16, ..old(self)@ }));
        let word = ((hi as u16) << 8u16) | (lo as u16);
        assert(((hi as u16) << 8u16) | (lo as u16) == hi * 256 + lo) by (bit_vector);
        Ok(word)
    }

    /// `DXYN`: XORs an `n`-row sprite read from memory at the index register
    /// onto the framebuffer at (register `x`, register `y`), both axes
    /// wrapping; the flag register records whether a lit pixel was erased.
    fn draw(&mut self, x: u8, y: u8, n: u8)
        requires
            old(self).wf(),
            x < 16,
            y < 16,
            n < 16,
            old(self)@.i + n <= RAM_SIZE,
        ensures
            exec_spec(old(self)@, Instr::Draw(x, y, n), 0) == Ok::<EmuModel, EmuError>(final(self)@),
    {
        let vx = self.v_reg[x as usize] as usize;
        let vy = self.v_reg[y as usize] as usize;
        let base = self.i_reg as usize;
        let rows = n as usize;
        let ghost m0 = self@;
        let mut flipped = false;
        proof {
            lemma_draw_start(m0.screen, m0.ram, base as int, vx as int, vy as int, rows as int);
        }
        let mut row: usize = 0;
        while row < rows
            invariant
                row <= rows < 16,
                base + rows <= RAM_SIZE,
                vx < 256,
                vy < 256,
                m0 == old(self)@,
                base == m0.i,
                vx == m0.v[x as int],
                vy == m0.v[y as int],
                rows == n,
                self@ == (EmuModel { screen: self@.screen, ..m0 }),
                screen_so_far(self@.screen, m0.screen, m0.ram, base as int, vx as int, vy as int, rows as int, row as int, 0),
                flipped == hit_so_far(m0.screen, m0.ram, base as int, vx as int, vy as int, rows as int, row as int, 0),
            decreases rows - row,
        {
            let flips = self.ram[base + row];
            let mut col: usize = 0;
            while col < 8
                invariant
                    row < rows < 16,
                    col <= 8,
                    base + rows <= RAM_SIZE,
                    vx < 256,
                    vy < 256,
                    m0 == old(self)@,
                    base == m0.i,
                    rows == n,
                    flips == m0.ram[base + row],
                    self@ == (EmuModel { screen: self@.screen, ..m0 }),
                    screen_so_far(self@.screen, m0.screen, m0.ram, base as int, vx as int, vy as int, rows as int, row as int, col as int),
                    flipped == hit_so_far(m0.screen, m0.ram, base as int, vx as int, vy as int, rows as int, row as int, col as int),
                decreases 8 - col,
            {
                if flips & (0x80u8 >> (col as u8)) != 0 {
                    proof {
                        lemma_draw_set_bit(self@.screen, m0.screen, m0.ram, base as int, vx as int, vy as int, rows as int, row as int, col as int);
                    }
                    let px = (vx + col) % SCREEN_WIDTH;
                    let py = (vy + row) % SCREEN_HEIGHT;
                    let idx = py * SCREEN_WIDTH + px;
                    let was = self.screen[idx];
                    flipped = flipped || was;
                    self.screen[idx] = !was;
                } else {
                    proof {
                        lemma_draw_clear_bit(self@.screen, m0.screen, m0.ram, base as int, vx as int, vy as int, rows as int, row as int, col as int);
                    }
                }
                col += 1;
            }
            proof {
                lemma_draw_next_row(self@.screen, m0.screen, m0.ram, base as int, vx as int, vy as int, rows as int, row as int);
            }
            row += 1;
        }
        proof {
            lemma_draw_finish(self@.screen, m0.screen, m0.ram, base as int, vx as int, vy as int, rows as int);
        }
        let ghost hit = collides(m0.screen, m0.ram, base as int, vx as int, vy as int, rows as int);
        self.v_reg[15] = if flipped { 1 } else { 0 };
        assert(self@ =~= (EmuModel {
            screen: drawn(m0.screen, m0.ram, base as int, vx as int, vy as int, rows as int),
            v: m0.v.update(0xF, if hit { 1u8 } else { 0u8 }),
            ..m0
        }));
    }

    fn set_v(&mut self, x: u8, val: u8)
        requires
            x < NUM_V_REGS,
        ensures
            final(self)@ == set_reg(old(self)@, x as int, val),
    {
        self.v_reg[x as usize] = val;
        assert(self@ =~= set_reg(old(self)@, x as int, val));
    }

    /// Writes register `x`, then the flag register, in that order.
    fn set_v_flag(&mut self, x: u8, val: u8, flag: u8)
        requires
            x < NUM_V_REGS,
        ensures
            final(self)@ == set_reg_flag(old(self)@, x as int, val, flag),
    {
        self.v_reg[x as usize] = val;
        self.v_reg[15] = flag;
        assert(self@ =~= set_reg_flag(old(self)@, x as int, val, flag));
    }

    fn skip_when(&mut self, cond: bool)
        requires
            old(self)@.pc <= RAM_SIZE + 1,
        ensures
            final(self)@ == skip_if(old(self)@, cond),
    {
        if cond {
            self.pc += 2;
            assert(self@ =~= skip_if(old(self)@, cond));
        }
    }

    /// The lowest-numbered pressed key, if any.
    fn first_key(&self) -> (r: Option<u8>)
        ensures
            r matches Some(k) ==> first_pressed(self@.keys, k as int),
            r is None ==> !exists|k: int| first_pressed(self@.keys, k),
    {
        let mut k: usize = 0;
        while k < NUM_KEYS
            invariant
                k <= NUM_KEYS,
                forall|j: int| 0 <= j < k ==> !self@.keys[j],
            decreases NUM_KEYS - k,
        {
            if self.keys[k] {
                return Some(k as u8);
            }
            k += 1;
        }
        None
    }

    /// `FX55`: copies registers 0..=x into memory from the index register on.
    fn store_regs(&mut self, x: u8)
        requires
            x < NUM_V_REGS,
            old(self)@.i + x + 1 <= RAM_SIZE,
        ensures
            exec_spec(old(self)@, Instr::Store(x), 0) == Ok::<EmuModel, EmuError>(final(self)@),
    {
        let base = self.i_reg as usize;
        let ghost m0 = self@;
        let mut k: usize = 0;
        while k <= x as usize
            invariant
                x < NUM_V_REGS,
                k <= x + 1,
                base == m0.i,
                base + x + 1 <= RAM_SIZE,
                m0 == old(self)@,
                self@ == (EmuModel {
                    ram: Seq::new(
                        RAM_SIZE as nat,
                        |a: int| if base <= a < base + k { m0.v[a - base] } else { m0.ram[a] },
                    ),
                    ..m0
                }),
            decreases x + 1 - k,
        {
            self.ram[base + k] = self.v_reg[k];
            k += 1;
            assert(self@ =~= (EmuModel {
                ram: Seq::new(
                    RAM_SIZE as nat,
                    |a: int| if base <= a < base + k { m0.v[a - base] } else { m0.ram[a] },
                ),
                ..m0
            }));
        }
        assert(self@ =~= (EmuModel {
            ram: Seq::new(
                m0.ram.len(),
                |a: int| if m0.i <= a <= m0.i + x { m0.v[a - m0.i] } else { m0.ram[a] },
            ),
            ..m0
        }));
    }

    /// `FX65`: fills registers 0..=x from memory at the index register on.
    fn load_regs(&mut self, x: u8)
        requires
            x < NUM_V_REGS,
            old(self)@.i + x + 1 <= RAM_SIZE,
        ensures
            exec_spec(old(self)@, Instr::Load(x), 0) == Ok::<EmuModel, EmuError>(final(self)@),
    {
        let base = self.i_reg as usize;
        let ghost m0 = self@;
        let mut k: usize = 0;
        while k <= x as usize
            invariant
                x < NUM_V_REGS,
                k <= x + 1,
                base == m0.i,
                base + x + 1 <= RAM_SIZE,
                m0 == old(self)@,
                self@ == (EmuModel {
                    v: Seq::new(
                        NUM_V_REGS as nat,
                        |r: int| if r < k { m0.ram[base + r] } else { m0.v[r] },
                    ),
                    ..m0
                }),
            decreases x + 1 - k,
        {
            self.v_reg[k] = self.ram[base + k];
            k += 1;
            assert(self@ =~= (EmuModel {
                v: Seq::new(
                    NUM_V_REGS as nat,
                    |r: int| if r < k { m0.ram[base + r] } else { m0.v[r] },
                ),
                ..m0
            }));
        }
        assert(self@ =~= (EmuModel {
            v: Seq::new(m0.v.len(), |r: int| if r <= x { m0.ram[m0.i + r] } else { m0.v[r] }),
            ..m0
        }));
    }

    /// `FX33`: writes the hundreds, tens and ones digits of register `x` at
    /// the index register and the two bytes after it.
    fn store_bcd(&mut self, x: u8)
        requires
            x < NUM_V_REGS,
            old(self)@.i + 3 <= RAM_SIZE,
        ensures
            exec_spec(old(self)@, Instr::Bcd(x), 0) == Ok::<EmuModel, EmuError>(final(self)@),
    {
        let num = self.v_reg[x as usize];
        let base = self.i_reg as usize;
        self.ram[base] = num / 100;
        self.ram[base + 1] = num / 10 % 10;
        self.ram[base + 2] = num % 10;
        assert(self@ =~= (EmuModel {
            ram: old(self)@.ram.update(base as int, num / 100).update(base + 1, num / 10 % 10).update(
                base + 2,
                num % 10,
            ),
            ..old(self)@
        }));
    }

    /// Carries out an instruction that only writes general registers.
    fn execute_register_op(&mut self, ins: Instr, rnd: u8) -> (r: Result<(), EmuError>)
        requires
            old(self).wf(),
            operands_in_range(ins),
            is_register_op(ins),
        ensures
            final(self).wf(),
            r == Ok::<(), EmuError>(()),
            exec_spec(old(self)@, ins, rnd) == Ok::<EmuModel, EmuError>(final(self)@),
    {
        match ins {
            Instr::SetImm(x, nn) => {
                self.set_v(x, nn);
            },
            Instr::AddImm(x, nn) => {
                let val = self.v_reg[x as usize].wrapping_add(nn);
                self.set_v(x, val);
            },
            Instr::Mov(x, y) => {
                let val = self.v_reg[y as usize];
                self.set_v(x, val);
            },
            Instr::Or(x, y) => {
                let val = self.v_reg[x as usize] | self.v_reg[y as usize];
                self.set_v(x, val);
            },
            Instr::And(x, y) => {
                let val = self.v_reg[x as usize] & self.v_reg[y as usize];
                self.set_v(x, val);
            },
            Instr::Xor(x, y) => {
                let val = self.v_reg[x as usize] ^ self.v_reg[y as usize];
                self.set_v(x, val);
            },
            Instr::AddReg(x, y) => {
                let sum = self.v_reg[x as usize] as u16 + self.v_reg[y as usize] as u16;
                self.set_v_flag(x, (sum % 256) as u8, if sum > 255 { 1 } else { 0 });
            },
            Instr::Sub(x, y) => {
                let a = self.v_reg[x as usize];
                let b = self.v_reg[y as usize];
                self.set_v_flag(x, a.wrapping_sub(b), if a >= b { 1 } else { 0 });
            },
            Instr::SubRev(x, y) => {
                let a = self.v_reg[y as usize];
                let b = self.v_reg[x as usize];
                self.set_v_flag(x, a.wrapping_sub(b), if a >= b { 1 } else { 0 });
            },
            Instr::Shr(x) => {
                let a = self.v_reg[x as usize];
                self.set_v_flag(x, a >> 1u8, a & 1);
                assert(a >> 1u8 == a / 2 && a & 1 == a % 2) by (bit_vector);
            },
            Instr::Shl(x) => {
                let a = self.v_reg[x as usize];
                self.set_v_flag(x, a << 1u8, (a >> 7u8) & 1);
                assert(a << 1u8 == (a * 2) % 256 && (a >> 7u8) & 1 == a / 128) by (bit_vector);
            },
            Instr::Rand(x, nn) => {
                self.set_v(x, rnd & nn);
            },
            Instr::GetDelay(x) => {
                let val = self.dt;
                self.set_v(x, val);
            },
            _ => {},
        }
        Ok(())
    }

    /// Carries out one decoded instruction; the program counter has already
    /// moved past it. `rnd` is the random byte that `CXNN` masks. On an
    /// error the machine is left unchanged.
    fn execute(&mut self, ins: Instr, rnd: u8) -> (r: Result<(), EmuError>)
        requires
            old(self).wf(),
            operands_in_range(ins),
            2 <= old(self)@.pc <= RAM_SIZE + 1,
        ensures
            final(self).wf(),
            match exec_spec(old(self)@, ins, rnd) {
                Ok(m) => r == Ok::<(), EmuError>(()) && final(self)@ == m,
                Err(e) => r == Err::<(), EmuError>(e) && final(self)@ == old(self)@,
            },
    {
        match ins {
            Instr::SetImm(..) | Instr::AddImm(..) | Instr::Mov(..) | Instr::Or(..)
            | Instr::And(..) | Instr::Xor(..) | Instr::AddReg(..) | Instr::Sub(..)
            | Instr::SubRev(..) | Instr::Shr(..) | Instr::Shl(..) | Instr::Rand(..)
            | Instr::GetDelay(..) => {
                return self.execute_register_op(ins, rnd);
            },
            Instr::Nop => {},
            Instr::Cls => {
                self.screen = [false; SCREEN_SIZE];
                assert(self@ =~= (EmuModel {
                    screen: Seq::new(SCREEN_SIZE as nat, |p: int| false),
                    ..old(self)@
                }));
            },
            Instr::Ret => {
                let addr = self.pop()?;
                self.pc = addr;
            },
            Instr::Jump(a) => {
                self.pc = a;
            },
            Instr::Call(a) => {
                let ret = self.pc;
                self.push(ret)?;
                self.pc = a;
            },
            Instr::SkipEqImm(x, nn) => {
                let c = self.v_reg[x as usize] == nn;
                self.skip_when(c);
            },
            Instr::SkipNeImm(x, nn) => {
                let c = self.v_reg[x as usize] != nn;
                self.skip_when(c);
            },
            Instr::SkipEqReg(x, y) => {
                let c = self.v_reg[x as usize] == self.v_reg[y as usize];
                self.skip_when(c);
            },
            Instr::SkipNeReg(x, y) => {
                let c = self.v_reg[x as usize] != self.v_reg[y as usize];
                self.skip_when(c);
            },
            Instr::SetIndex(a) => {
                self.i_reg = a;
            },
            Instr::JumpV0(a) => {
                self.pc = self.v_reg[0] as u16 + a;
            },
            Instr::Draw(x, y, n) => {
                if self.i_reg as usize + n as usize > RAM_SIZE {
                    return Err(EmuError::MemoryOutOfBounds);
                }
                self.draw(x, y, n);
            },
            Instr::SkipKey(x) => {
                let k = self.v_reg[x as usize] as usize;
                if k >= NUM_KEYS {
                    return Err(EmuError::InvalidKeyIndex);
                }
                let c = self.keys[k];
                self.skip_when(c);
            },
            Instr::SkipNoKey(x) => {
                let k = self.v_reg[x as usize] as usize;
                if k >= NUM_KEYS {
                    return Err(EmuError::InvalidKeyIndex);
                }
                let c = !self.keys[k];
                self.skip_when(c);
            },
            Instr::WaitKey(x) => {
                match self.first_key() {
                    Some(k) => {
                        proof {
                            let c = choose|j: int| first_pressed(old(self)@.keys, j);
                            assert(first_pressed(old(self)@.keys, c));
                            assert(c == k as int);
                        }
                        self.set_v(x, k);
                    },
                    None => {
                        self.pc -= 2;
                    },
                }
            },
            Instr::SetDelay(x) => {
                self.dt = self.v_reg[x as usize];
            },
            Instr::SetSound(x) => {
                self.st = self.v_reg[x as usize];
            },
            Instr::AddIndex(x) => {
                self.i_reg = self.i_reg.wrapping_add(self.v_reg[x as usize] as u16);
            },
            Instr::Font(x) => {
                self.i_reg = 5 * (self.v_reg[x as usize] as u16);
            },
            Instr::Bcd(x) => {
                if self.i_reg as usize + 3 > RAM_SIZE {
                    return Err(EmuError::MemoryOutOfBounds);
                }
                self.store_bcd(x);
            },
            Instr::Store(x) => {
                if self.i_reg as usize + x as usize + 1 > RAM_SIZE {
                    return Err(EmuError::MemoryOutOfBounds);
                }
                self.store_regs(x);
            },
            Instr::Load(x) => {
                if self.i_reg as usize + x as usize + 1 > RAM_SIZE {
                    return Err(EmuError::MemoryOutOfBounds);
                }
                self.load_regs(x);
            },
        }
        assert(self@ =~= exec_spec(old(self)@, ins, rnd).unwrap());
        Ok(())
    }

    /// One fetch-decode-execute cycle with `rnd` as the random byte that a
    /// `CXNN` instruction masks. On an error the machine is left unchanged.
    pub fn step(&mut self, rnd: u8) -> (r: Result<(), EmuError>)
        requires
            old(self).wf(),
        ensures
            final(self).wf(),
            cycle_outcome(old(self)@, final(self)@, r, rnd),
    {
        let saved = self.pc;
        let op = self.fetch()?;
        let ins = match decode(op) {
            Some(ins) => ins,
            None => {
                self.pc = saved;
                assert(self@ =~= old(self)@);
                return Err(EmuError::UnknownOpcode(op));
            },
        };
        let r = self.execute(ins, rnd);
        if r.is_err() {
            self.pc = saved;
            assert(self@ =~= old(self)@);
        }
        r
    }

    /// One fetch-decode-execute cycle, drawing the random byte for `CXNN`
    /// from the thread-local generator.
    pub fn tick(&mut self) -> (r: Result<(), EmuError>)
        requires
            old(self).wf(),
        ensures
            final(self).wf(),
            exists|rnd: u8| cycle_outcome(old(self)@, final(self)@, r, rnd),
    {
        let rnd = random_byte();
        self.step(rnd)
    }

    /// The program counter.
    pub fn get_pc(&self) -> (r: u16)
        ensures
            r == self@.pc,
    {
        self.pc
    }

    /// General register `x`; register 15 is the flag register.
    pub fn get_v(&self, x: usize) -> (r: u8)
        requires
            x < NUM_V_REGS,
        ensures
            r == self@.v[x as int],
    {
        self.v_reg[x]
    }

    /// The index register.
    pub fn get_index(&self) -> (r: u16)
        ensures
            r == self@.i,
    {
        self.i_reg
    }

    /// The number of used call-stack slots.
    pub fn get_sp(&self) -> (r: u16)
        ensures
            r == self@.sp,
    {
        self.sp
    }

    /// The delay timer.
    pub fn get_delay_timer(&self) -> (r: u8)
        ensures
            r == self@.dt,
    {
        self.dt
    }

    /// The sound timer.
    pub fn get_sound_timer(&self) -> (r: u8)
        ensures
            r == self@.st,
    {
        self.st
    }

    /// The memory byte at `addr`.
    pub fn get_memory(&self, addr: usize) -> (r: u8)
        requires
            addr < RAM_SIZE,
        ensures
            r == self@.ram[addr as int],
    {
        self.ram[addr]
    }

    /// Whether key `k` is latched as pressed.
    pub fn is_key_pressed(&self, k: usize) -> (r: bool)
        requires
            k < NUM_KEYS,
        ensures
            r == self@.keys[k as int],
    {
        self.keys[k]
    }
}

} // verus!
