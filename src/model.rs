use vstd::prelude::*;
use crate::instr::{Instr, decode_spec};

verus! {

pub const SCREEN_WIDTH: usize = 64;
pub const SCREEN_HEIGHT: usize = 32;
pub const SCREEN_SIZE: usize = SCREEN_WIDTH * SCREEN_HEIGHT;
pub const RAM_SIZE: usize = 4096;
pub const NUM_V_REGS: usize = 16;
pub const STACK_SIZE: usize = 16;
pub const NUM_KEYS: usize = 16;
pub const START_ADDR: u16 = 0x200;
pub const FONTSET_SIZE: usize = 80;

/// Fatal conditions surfaced to the driver; none of them changes the machine.
#[derive(Clone, Copy, Debug, PartialEq, Eq, Structural)]
pub enum EmuError {
    /// The word fetched matches no instruction.
    UnknownOpcode(u16),
    /// A call with all stack slots in use.
    StackOverflow,
    /// A return with an empty stack.
    StackUnderflow,
    /// A fetch, sprite read, digit write or register copy past the end of memory.
    MemoryOutOfBounds,
    /// A key index outside 0..=15.
    InvalidKeyIndex,
    /// A program image that does not fit between the start address and the end of memory.
    OversizedLoad,
}

/// The whole machine state as mathematical values.
#[verifier::ext_equal]
pub struct EmuModel {
    pub pc: u16,
    pub ram: Seq<u8>,
    pub screen: Seq<bool>,
    pub v: Seq<u8>,
    pub i: u16,
    pub stack: Seq<u16>,
    pub sp: u16,
    pub dt: u8,
    pub st: u8,
    pub keys: Seq<bool>,
}

/// The built-in glyphs of the hex digits 0..=F, five rows each.
pub open spec fn font() -> Seq<u8> {
    seq![
        0xF0u8, 0x90, 0x90, 0x90, 0xF0, 0x20, 0x60, 0x20, 0x20, 0x70,
        0xF0, 0x10, 0xF0, 0x80, 0xF0, 0xF0, 0x10, 0xF0, 0x10, 0xF0,
        0x90, 0x90, 0xF0, 0x10, 0x10, 0xF0, 0x80, 0xF0, 0x10, 0xF0,
        0xF0, 0x80, 0xF0, 0x90, 0xF0, 0xF0, 0x10, 0x20, 0x40, 0x40,
        0xF0, 0x90, 0xF0, 0x90, 0xF0, 0xF0, 0x90, 0xF0, 0x10, 0xF0,
        0xF0, 0x90, 0xF0, 0x90, 0x90, 0xE0, 0x90, 0xE0, 0x90, 0xE0,
        0xF0, 0x80, 0x80, 0x80, 0xF0, 0xE0, 0x90, 0x90, 0x90, 0xE0,
        0xF0, 0x80, 0xF0, 0x80, 0xF0, 0xF0, 0x80, 0xF0, 0x80, 0x80,
    ]
}

/// Memory, registers and stack have their fixed sizes and the stack pointer
/// counts used slots.
pub open spec fn model_wf(m: EmuModel) -> bool {
    &&& m.ram.len() == RAM_SIZE
    &&& m.screen.len() == SCREEN_SIZE
    &&& m.v.len() == NUM_V_REGS
    &&& m.stack.len() == STACK_SIZE
    &&& m.keys.len() == NUM_KEYS
    &&& m.sp <= STACK_SIZE
}

/// The state after power-on or reset.
pub open spec fn initial_model() -> EmuModel {
    EmuModel {
        pc: START_ADDR,
        ram: Seq::new(RAM_SIZE as nat, |a: int| if a < FONTSET_SIZE { font()[a] } else { 0u8 }),
        screen: Seq::new(SCREEN_SIZE as nat, |p: int| false),
        v: Seq::new(NUM_V_REGS as nat, |r: int| 0u8),
        i: 0,
        stack: Seq::new(STACK_SIZE as nat, |s: int| 0u16),
        sp: 0,
        dt: 0,
        st: 0,
        keys: Seq::new(NUM_KEYS as nat, |k: int| false),
    }
}

/// Memory with `data` copied in at the program start address.
pub open spec fn loaded_ram(ram: Seq<u8>, data: Seq<u8>) -> Seq<u8> {
    Seq::new(
        ram.len(),
        |a: int|
            if START_ADDR <= a < START_ADDR + data.len() {
                data[a - START_ADDR]
            } else {
                ram[a]
            },
    )
}

pub open spec fn set_reg(m: EmuModel, x: int, val: u8) -> EmuModel {
    EmuModel { v: m.v.update(x, val), ..m }
}

/// Register `x` gets `val`, then the flag register gets `flag`.
pub open spec fn set_reg_flag(m: EmuModel, x: int, val: u8, flag: u8) -> EmuModel {
    EmuModel { v: m.v.update(x, val).update(0xF, flag), ..m }
}

/// Advances the program counter past the next instruction when `cond` holds.
pub open spec fn skip_if(m: EmuModel, cond: bool) -> EmuModel {
    if cond {
        EmuModel { pc: (m.pc + 2) as u16, ..m }
    } else {
        m
    }
}

/// Bit `dx` of a sprite row, counted from the most significant bit.
pub open spec fn sprite_bit(b: u8, dx: int) -> bool {
    b & (0x80u8 >> (dx as u8)) != 0
}

/// Whether a sprite of `n` rows read from `ram[i..]` and drawn at origin
/// `(x, y)` reaches the pixel in row `r`, column `c` (both axes wrap).
pub open spec fn covers(ram: Seq<u8>, i: int, x: int, y: int, n: int, r: int, c: int) -> bool {
    let dy = (r - y) % (SCREEN_HEIGHT as int);
    let dx = (c - x) % (SCREEN_WIDTH as int);
    dy < n && dx < 8 && sprite_bit(ram[i + dy], dx)
}

/// The framebuffer after XOR-ing the sprite onto it.
pub open spec fn drawn(screen: Seq<bool>, ram: Seq<u8>, i: int, x: int, y: int, n: int) -> Seq<bool> {
    Seq::new(
        SCREEN_SIZE as nat,
        |p: int|
            screen[p] != covers(
                ram,
                i,
                x,
                y,
                n,
                p / (SCREEN_WIDTH as int),
                p % (SCREEN_WIDTH as int),
            ),
    )
}

/// The pixel in row `r`, column `c` of a row-major framebuffer.
pub open spec fn pixel(screen: Seq<bool>, r: int, c: int) -> bool {
    screen[r * (SCREEN_WIDTH as int) + c]
}

/// Whether the sprite reaches a pixel that is lit before the draw.
pub open spec fn collides(screen: Seq<bool>, ram: Seq<u8>, i: int, x: int, y: int, n: int) -> bool {
    exists|r: int, c: int|
        0 <= r < SCREEN_HEIGHT && 0 <= c < SCREEN_WIDTH && #[trigger] pixel(screen, r, c)
            && covers(ram, i, x, y, n, r, c)
}

/// Whether key `k` is the lowest-numbered pressed key.
pub open spec fn first_pressed(keys: Seq<bool>, k: int) -> bool {
    0 <= k < NUM_KEYS && keys[k] && forall|j: int| 0 <= j < k ==> !keys[j]
}

/// Effect of one decoded instruction on a machine whose program counter has
/// already moved past it. `rnd` is the random byte that `CXNN` masks.
pub open spec fn exec_spec(m: EmuModel, ins: Instr, rnd: u8) -> Result<EmuModel, EmuError> {
    match ins {
        Instr::Nop => Ok(m),
        Instr::Cls => Ok(EmuModel { screen: Seq::new(SCREEN_SIZE as nat, |p: int| false), ..m }),
        Instr::Ret => if m.sp == 0 {
            Err(EmuError::StackUnderflow)
        } else {
            Ok(EmuModel { pc: m.stack[m.sp - 1], sp: (m.sp - 1) as u16, ..m })
        },
        Instr::Jump(a) => Ok(EmuModel { pc: a, ..m }),
        Instr::Call(a) => if m.sp >= STACK_SIZE {
            Err(EmuError::StackOverflow)
        } else {
            Ok(EmuModel { pc: a, stack: m.stack.update(m.sp as int, m.pc), sp: (m.sp + 1) as u16, ..m })
        },
        Instr::SkipEqImm(x, nn) => Ok(skip_if(m, m.v[x as int] == nn)),
        Instr::SkipNeImm(x, nn) => Ok(skip_if(m, m.v[x as int] != nn)),
        Instr::SkipEqReg(x, y) => Ok(skip_if(m, m.v[x as int] == m.v[y as int])),
        Instr::SkipNeReg(x, y) => Ok(skip_if(m, m.v[x as int] != m.v[y as int])),
        Instr::SetImm(x, nn) => Ok(set_reg(m, x as int, nn)),
        Instr::AddImm(x, nn) => Ok(set_reg(m, x as int, ((m.v[x as int] + nn) % 256) as u8)),
        Instr::Mov(x, y) => Ok(set_reg(m, x as int, m.v[y as int])),
        Instr::Or(x, y) => Ok(set_reg(m, x as int, m.v[x as int] | m.v[y as int])),
        Instr::And(x, y) => Ok(set_reg(m, x as int, m.v[x as int] & m.v[y as int])),
        Instr::Xor(x, y) => Ok(set_reg(m, x as int, m.v[x as int] ^ m.v[y as int])),
        Instr::AddReg(x, y) => {
            let s = m.v[x as int] + m.v[y as int];
            Ok(set_reg_flag(m, x as int, (s % 256) as u8, if s > 255 { 1 } else { 0 }))
        },
        Instr::Sub(x, y) => {
            let a = m.v[x as int];
            let b = m.v[y as int];
            Ok(set_reg_flag(m, x as int, ((a - b) % 256) as u8, if a >= b { 1 } else { 0 }))
        },
        Instr::SubRev(x, y) => {
            let a = m.v[y as int];
            let b = m.v[x as int];
            Ok(set_reg_flag(m, x as int, ((a - b) % 256) as u8, if a >= b { 1 } else { 0 }))
        },
        Instr::Shr(x) => {
            let a = m.v[x as int];
            Ok(set_reg_flag(m, x as int, a / 2, a % 2))
        },
        Instr::Shl(x) => {
            let a = m.v[x as int];
            Ok(set_reg_flag(m, x as int, ((a * 2) % 256) as u8, a / 128))
        },
        Instr::SetIndex(a) => Ok(EmuModel { i: a, ..m }),
        Instr::JumpV0(a) => Ok(EmuModel { pc: (m.v[0] + a) as u16, ..m }),
        Instr::Rand(x, nn) => Ok(set_reg(m, x as int, rnd & nn)),
        Instr::Draw(x, y, n) => if m.i + n > RAM_SIZE {
            Err(EmuError::MemoryOutOfBounds)
        } else {
            let vx = m.v[x as int] as int;
            let vy = m.v[y as int] as int;
            let hit = collides(m.screen, m.ram, m.i as int, vx, vy, n as int);
            Ok(
                EmuModel {
                    screen: drawn(m.screen, m.ram, m.i as int, vx, vy, n as int),
                    v: m.v.update(0xF, if hit { 1u8 } else { 0u8 }),
                    ..m
                },
            )
        },
        Instr::SkipKey(x) => if m.v[x as int] >= NUM_KEYS {
            Err(EmuError::InvalidKeyIndex)
        } else {
            Ok(skip_if(m, m.keys[m.v[x as int] as int]))
        },
        Instr::SkipNoKey(x) => if m.v[x as int] >= NUM_KEYS {
            Err(EmuError::InvalidKeyIndex)
        } else {
            Ok(skip_if(m, !m.keys[m.v[x as int] as int]))
        },
        Instr::GetDelay(x) => Ok(set_reg(m, x as int, m.dt)),
        Instr::WaitKey(x) => if exists|k: int| first_pressed(m.keys, k) {
            let k = choose|k: int| first_pressed(m.keys, k);
            Ok(set_reg(m, x as int, k as u8))
        } else {
            Ok(EmuModel { pc: (m.pc - 2) as u16, ..m })
        },
        Instr::SetDelay(x) => Ok(EmuModel { dt: m.v[x as int], ..m }),
        Instr::SetSound(x) => Ok(EmuModel { st: m.v[x as int], ..m }),
        Instr::AddIndex(x) => Ok(EmuModel { i: ((m.i + m.v[x as int]) % 65536) as u16, ..m }),
        Instr::Font(x) => Ok(EmuModel { i: (5 * m.v[x as int]) as u16, ..m }),
        Instr::Bcd(x) => if m.i + 3 > RAM_SIZE {
            Err(EmuError::MemoryOutOfBounds)
        } else {
            let a = m.v[x as int];
            Ok(
                EmuModel {
                    ram: m.ram.update(m.i as int, a / 100).update(m.i + 1, a / 10 % 10).update(
                        m.i + 2,
                        a % 10,
                    ),
                    ..m
                },
            )
        },
        Instr::Store(x) => if m.i + x + 1 > RAM_SIZE {
            Err(EmuError::MemoryOutOfBounds)
        } else {
            Ok(
                EmuModel {
                    ram: Seq::new(
                        m.ram.len(),
                        |a: int| if m.i <= a <= m.i + x { m.v[a - m.i] } else { m.ram[a] },
                    ),
                    ..m
                },
            )
        },
        Instr::Load(x) => if m.i + x + 1 > RAM_SIZE {
            Err(EmuError::MemoryOutOfBounds)
        } else {
            Ok(
                EmuModel {
                    v: Seq::new(
                        m.v.len(),
                        |r: int| if r <= x { m.ram[m.i + r] } else { m.v[r] },
                    ),
                    ..m
                },
            )
        },
    }
}

/// The instruction word at the program counter, big-endian.
pub open spec fn word_at(m: EmuModel) -> u16 {
    (m.ram[m.pc as int] * 256 + m.ram[m.pc + 1]) as u16
}

/// One fetch-decode-execute cycle. A failing cycle leaves the machine as it was.
pub open spec fn step_spec(m: EmuModel, rnd: u8) -> Result<EmuModel, EmuError> {
    if m.pc + 1 >= RAM_SIZE {
        Err(EmuError::MemoryOutOfBounds)
    } else {
        let op = word_at(m);
        match decode_spec(op) {
            None => Err(EmuError::UnknownOpcode(op)),
            Some(ins) => exec_spec(EmuModel { pc: (m.pc + 2) as u16, ..m }, ins, rnd),
        }
    }
}

/// One timer tick: both timers count down to zero; the flag is the
/// "emit tone" signal, raised when the sound timer goes from 1 to 0.
pub open spec fn timers_spec(m: EmuModel) -> (EmuModel, bool) {
    (
        EmuModel {
            dt: if m.dt > 0 { (m.dt - 1) as u8 } else { 0 },
            st: if m.st > 0 { (m.st - 1) as u8 } else { 0 },
            ..m
        },
        m.st == 1,
    )
}

} // verus!
