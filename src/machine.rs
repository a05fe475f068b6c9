use vstd::prelude::*;
use crate::decode::{decode, decode_spec, lemma_decoded_fields_ok, Instr, ProgramCounter};

verus! {

/// Address at which a program is loaded and execution starts.
pub const START_ADDRESS: usize = 0x200;

/// Size of the addressable memory in bytes.
pub const MEMORY_SIZE: usize = 4096;

/// Largest program that fits between `START_ADDRESS` and the end of memory.
pub const MAX_ROM_SIZE: usize = 3584;

pub const SCREEN_WIDTH: usize = 64;

pub const SCREEN_HEIGHT: usize = 32;

/// Number of pixels in the framebuffer.
pub const SCREEN_SIZE: usize = 2048;

/// Register slot that flag-producing instructions write.
pub const FLAG: usize = 15;

/// What a step reports to its caller.
#[derive(Clone, Copy, Debug, PartialEq, Eq, Structural)]
pub struct Result {
    pub video_changed: bool,
}

/// A fatal condition: the engine must not be stepped again after one.
#[derive(Clone, Copy, Debug, PartialEq, Eq, Structural)]
pub enum Halt {
    /// The opcode matches no instruction of the set.
    UnknownOpcode(u16),
    /// The program counter leaves no room for a two-byte fetch.
    PcOutOfBounds,
    /// A call with all sixteen stack slots in use.
    StackOverflow,
    /// A return with an empty stack.
    StackUnderflow,
    /// A memory access at or past the end of memory.
    MemoryOutOfBounds,
    /// A key instruction names a key index above 15.
    KeyOutOfRange,
    /// The index register would exceed sixteen bits.
    IndexOverflow,
    /// A program longer than `MAX_ROM_SIZE` bytes.
    RomTooLarge,
}

/// The mathematical state of the engine.
pub struct Machine {
    pub registers: Seq<u8>,
    pub memory: Seq<u8>,
    pub index: u16,
    pub pc: usize,
    pub stack: Seq<usize>,
    pub sp: usize,
    pub delay_timer: u8,
    pub sound_timer: u8,
    pub video: Seq<u8>,
    pub waiting: bool,
    pub wait_reg: u8,
}

/// The sixteen built-in glyphs (digits 0 to F), five bytes each.
pub open spec fn font_glyphs() -> Seq<u8> {
    seq![
        0xF0u8, 0x90, 0x90, 0x90, 0xF0,
        0x20, 0x60, 0x20, 0x20, 0x70,
        0xF0, 0x10, 0xF0, 0x80, 0xF0,
        0xF0, 0x10, 0xF0, 0x10, 0xF0,
        0x90, 0x90, 0xF0, 0x10, 0x10,
        0xF0, 0x80, 0xF0, 0x10, 0xF0,
        0xF0, 0x80, 0xF0, 0x90, 0xF0,
        0xF0, 0x10, 0x20, 0x40, 0x40,
        0xF0, 0x90, 0xF0, 0x90, 0xF0,
        0xF0, 0x90, 0xF0, 0x10, 0xF0,
        0xF0, 0x90, 0xF0, 0x90, 0x90,
        0xE0, 0x90, 0xE0, 0x90, 0xE0,
        0xF0, 0x80, 0x80, 0x80, 0xF0,
        0xE0, 0x90, 0x90, 0x90, 0xE0,
        0xF0, 0x80, 0xF0, 0x80, 0xF0,
        0xF0, 0x80, 0xF0, 0x80, 0x80
    ]
}

impl Machine {
    /// Sizes of the fixed arrays, the stack pointer's range, one-bit pixels.
    pub open spec fn wf(self) -> bool {
        &&& self.registers.len() == 16
        &&& self.memory.len() == MEMORY_SIZE
        &&& self.stack.len() == 16
        &&& self.sp <= 16
        &&& self.video.len() == SCREEN_SIZE
        &&& forall|i: int| 0 <= i < SCREEN_SIZE ==> #[trigger] self.video[i] <= 1
        &&& self.wait_reg < 16
    }

    /// The state right after creation: font loaded, everything else zero.
    pub open spec fn initial() -> Machine {
        Machine {
            registers: Seq::new(16, |i: int| 0u8),
            memory: Seq::new(
                MEMORY_SIZE as nat,
                |i: int| if i < 80 { font_glyphs()[i] } else { 0u8 },
            ),
            index: 0,
            pc: START_ADDRESS,
            stack: Seq::new(16, |i: int| 0usize),
            sp: 0,
            delay_timer: 0,
            sound_timer: 0,
            video: Seq::new(SCREEN_SIZE as nat, |i: int| 0u8),
            waiting: false,
            wait_reg: 0,
        }
    }

    /// The opcode at the program counter, big-endian.
    pub open spec fn opcode(self) -> u16 {
        (self.memory[self.pc as int] as int * 256 + self.memory[self.pc + 1] as int) as u16
    }

    pub open spec fn reg(self, x: u8) -> u8 {
        self.registers[x as int]
    }

    pub open spec fn set_reg(self, x: u8, v: u8) -> Machine {
        Machine { registers: self.registers.update(x as int, v), ..self }
    }

    /// Both timers moved one step toward zero.
    pub open spec fn tick(self) -> Machine {
        Machine {
            delay_timer: if self.delay_timer > 0 { (self.delay_timer - 1) as u8 } else { 0 },
            sound_timer: if self.sound_timer > 0 { (self.sound_timer - 1) as u8 } else { 0 },
            ..self
        }
    }

    /// The program counter after an action.
    pub open spec fn advance(self, act: ProgramCounter) -> Machine {
        Machine {
            pc: match act {
                ProgramCounter::Next => (self.pc + 2) as usize,
                ProgramCounter::Skip => (self.pc + 4) as usize,
                ProgramCounter::Jump(a) => a,
            },
            ..self
        }
    }
}

/// `k` is the lowest index of a key held down.
pub open spec fn lowest_held(keys: Seq<bool>, k: int) -> bool {
    &&& 0 <= k < keys.len()
    &&& keys[k]
    &&& forall|j: int| 0 <= j < k ==> !keys[j]
}

/// A step spent in the key-wait state: the lowest key held, if any, goes to
/// the waiting register and ends the wait; otherwise nothing changes.
pub open spec fn resolve_wait(m: Machine, keys: Seq<bool>) -> Machine {
    if exists|k: int| lowest_held(keys, k) {
        let k = choose|k: int| lowest_held(keys, k);
        Machine { waiting: false, ..m.set_reg(m.wait_reg, k as u8) }
    } else {
        m
    }
}

/// The fatal condition that an instruction meets in a state, if any.
pub open spec fn halt_of(m: Machine, ins: Instr) -> Option<Halt> {
    match ins {
        Instr::Ret => if m.sp == 0 { Some(Halt::StackUnderflow) } else { None },
        Instr::Call { .. } => if m.sp >= 16 { Some(Halt::StackOverflow) } else { None },
        Instr::Drw { n, .. } => if m.index + n > MEMORY_SIZE {
            Some(Halt::MemoryOutOfBounds)
        } else {
            None
        },
        Instr::Skp { x } => if m.reg(x) >= 16 { Some(Halt::KeyOutOfRange) } else { None },
        Instr::Sknp { x } => if m.reg(x) >= 16 { Some(Halt::KeyOutOfRange) } else { None },
        Instr::AddI { x } => if m.index + m.reg(x) > 0xFFFF {
            Some(Halt::IndexOverflow)
        } else {
            None
        },
        Instr::Bcd { .. } => if m.index + 3 > MEMORY_SIZE {
            Some(Halt::MemoryOutOfBounds)
        } else {
            None
        },
        Instr::Store { x } => if m.index + x + 1 > MEMORY_SIZE {
            Some(Halt::MemoryOutOfBounds)
        } else {
            None
        },
        Instr::Load { x } => if m.index + x + 1 > MEMORY_SIZE {
            Some(Halt::MemoryOutOfBounds)
        } else {
            None
        },
        _ => None,
    }
}

/// Bit `b` (0 = most significant) of a sprite row.
pub open spec fn sprite_bit(sprite: u8, b: int) -> u8 {
    (sprite >> ((7 - b) as u8)) & 1
}

/// Drawing the first `b` bits of one sprite row at column `vx`, pixel row `py`:
/// the video after XOR-ing them in, and the collision flag accumulated.
pub open spec fn draw_row(video: Seq<u8>, flag: u8, sprite: u8, vx: u8, py: int, b: nat) -> (Seq<u8>, u8)
    decreases b,
{
    if b == 0 {
        (video, flag)
    } else {
        let prev = draw_row(video, flag, sprite, vx, py, (b - 1) as nat);
        let p = py * 64 + (vx + (b - 1)) % 64;
        let color = sprite_bit(sprite, b - 1);
        (prev.0.update(p, prev.0[p] ^ color), prev.1 | (color & prev.0[p]))
    }
}

/// Drawing the first `r` rows of the sprite at `memory[i..]` at (`vx`, `vy`),
/// both axes wrapping.
pub open spec fn draw_rows(video: Seq<u8>, flag: u8, memory: Seq<u8>, i: int, vx: u8, vy: u8, r: nat) -> (Seq<u8>, u8)
    decreases r,
{
    if r == 0 {
        (video, flag)
    } else {
        let prev = draw_rows(video, flag, memory, i, vx, vy, (r - 1) as nat);
        draw_row(prev.0, prev.1, memory[i + r - 1], vx, (vy + r - 1) % 32, 8)
    }
}

/// The framebuffer and collision flag after a sprite draw.
pub open spec fn draw(video: Seq<u8>, memory: Seq<u8>, i: int, vx: u8, vy: u8, n: nat) -> (Seq<u8>, u8) {
    draw_rows(video, 0, memory, i, vx, vy, n)
}

/// Carrying out one instruction that meets no fatal condition: the new state,
/// what the program counter does, and whether the framebuffer changed.
#[verifier::opaque]
pub open spec fn exec_spec(m: Machine, ins: Instr, keys: Seq<bool>, rnd: u8) -> (Machine, ProgramCounter, bool) {
    match ins {
        Instr::Cls => (
            Machine { video: Seq::new(SCREEN_SIZE as nat, |i: int| 0u8), ..m },
            ProgramCounter::Next,
            true,
        ),
        Instr::Ret => (
            Machine { sp: (m.sp - 1) as usize, ..m },
            ProgramCounter::Jump(m.stack[m.sp - 1]),
            false,
        ),
        Instr::Jp { addr } => (m, ProgramCounter::Jump(addr as usize), false),
        Instr::Call { addr } => (
            Machine { stack: m.stack.update(m.sp as int, (m.pc + 2) as usize), sp: (m.sp + 1) as usize, ..m },
            ProgramCounter::Jump(addr as usize),
            false,
        ),
        Instr::SeImm { x, kk } => (
            m,
            if m.reg(x) == kk { ProgramCounter::Skip } else { ProgramCounter::Next },
            false,
        ),
        Instr::SneImm { x, kk } => (
            m,
            if m.reg(x) != kk { ProgramCounter::Skip } else { ProgramCounter::Next },
            false,
        ),
        Instr::SeReg { x, y } => (
            m,
            if m.reg(x) == m.reg(y) { ProgramCounter::Skip } else { ProgramCounter::Next },
            false,
        ),
        Instr::SneReg { x, y } => (
            m,
            if m.reg(x) != m.reg(y) { ProgramCounter::Skip } else { ProgramCounter::Next },
            false,
        ),
        Instr::LdImm { x, kk } => (m.set_reg(x, kk), ProgramCounter::Next, false),
        Instr::AddImm { x, kk } => (
            m.set_reg(x, ((m.reg(x) + kk) % 256) as u8),
            ProgramCounter::Next,
            false,
        ),
        Instr::Mov { x, y } => (m.set_reg(x, m.reg(y)), ProgramCounter::Next, false),
        Instr::Or { x, y } => (m.set_reg(x, m.reg(x) | m.reg(y)), ProgramCounter::Next, false),
        Instr::And { x, y } => (m.set_reg(x, m.reg(x) & m.reg(y)), ProgramCounter::Next, false),
        Instr::Xor { x, y } => (m.set_reg(x, m.reg(x) ^ m.reg(y)), ProgramCounter::Next, false),
        Instr::AddReg { x, y } => {
            let sum = m.reg(x) + m.reg(y);
            (
                m.set_reg(x, (sum % 256) as u8).set_reg(15, if sum > 255 { 1 } else { 0 }),
                ProgramCounter::Next,
                false,
            )
        },
        Instr::Sub { x, y } => {
            let m1 = m.set_reg(15, if m.reg(x) > m.reg(y) { 1 } else { 0 });
            (
                m1.set_reg(x, ((m1.reg(x) - m1.reg(y)) % 256) as u8),
                ProgramCounter::Next,
                false,
            )
        },
        Instr::Shr { x } => {
            let m1 = m.set_reg(15, m.reg(x) % 2);
            (m1.set_reg(x, m1.reg(x) / 2), ProgramCounter::Next, false)
        },
        Instr::SubN { x, y } => {
            let m1 = m.set_reg(15, if m.reg(y) > m.reg(x) { 1 } else { 0 });
            (
                m1.set_reg(x, ((m1.reg(y) - m1.reg(x)) % 256) as u8),
                ProgramCounter::Next,
                false,
            )
        },
        Instr::Shl { x } => {
            let m1 = m.set_reg(15, m.reg(x) / 128);
            (m1.set_reg(x, ((m1.reg(x) * 2) % 256) as u8), ProgramCounter::Next, false)
        },
        Instr::LdI { addr } => (Machine { index: addr, ..m }, ProgramCounter::Next, false),
        Instr::JpV0 { addr } => (m, ProgramCounter::Jump((m.reg(0) + addr) as usize), false),
        Instr::Rnd { x, kk } => (m.set_reg(x, rnd & kk), ProgramCounter::Next, false),
        Instr::Drw { x, y, n } => {
            let d = draw(m.video, m.memory, m.index as int, m.reg(x), m.reg(y), n as nat);
            (Machine { video: d.0, ..m }.set_reg(15, d.1), ProgramCounter::Next, true)
        },
        Instr::Skp { x } => (
            m,
            if keys[m.reg(x) as int] { ProgramCounter::Skip } else { ProgramCounter::Next },
            false,
        ),
        Instr::Sknp { x } => (
            m,
            if !keys[m.reg(x) as int] { ProgramCounter::Skip } else { ProgramCounter::Next },
            false,
        ),
        Instr::LdVxDt { x } => (m.set_reg(x, m.delay_timer), ProgramCounter::Next, false),
        Instr::WaitKey { x } => (Machine { waiting: true, wait_reg: x, ..m }, ProgramCounter::Next, false),
        Instr::LdDtVx { x } => (Machine { delay_timer: m.reg(x), ..m }, ProgramCounter::Next, false),
        Instr::LdStVx { x } => (Machine { sound_timer: m.reg(x), ..m }, ProgramCounter::Next, false),
        Instr::AddI { x } => {
            let i = m.index + m.reg(x);
            (
                Machine { index: i as u16, ..m }.set_reg(15, if i > 0x0FFF { 1 } else { 0 }),
                ProgramCounter::Next,
                false,
            )
        },
        Instr::LdFont { x } => (Machine { index: (m.reg(x) * 5) as u16, ..m }, ProgramCounter::Next, false),
        Instr::Bcd { x } => {
            let v = m.reg(x);
            let i = m.index as int;
            (
                Machine {
                    memory: m.memory.update(i, v / 100).update(i + 1, (v % 100) / 10).update(i + 2, v % 10),
                    ..m
                },
                ProgramCounter::Next,
                false,
            )
        },
        Instr::Store { x } => (
            Machine {
                memory: Seq::new(
                    m.memory.len(),
                    |a: int| if m.index <= a <= m.index + x { m.registers[a - m.index] } else { m.memory[a] },
                ),
                ..m
            },
            ProgramCounter::Next,
            false,
        ),
        Instr::Load { x } => (
            Machine {
                registers: Seq::new(
                    16,
                    |r: int| if r <= x { m.memory[m.index + r] } else { m.registers[r] },
                ),
                ..m
            },
            ProgramCounter::Next,
            false,
        ),
    }
}

/// One step of the engine: the new state and whether the framebuffer changed,
/// or the fatal condition met (the state is then left as it was).
/// `rnd` is the byte that the random instruction uses.
pub open spec fn step_spec(m: Machine, keys: Seq<bool>, rnd: u8) -> core::result::Result<(Machine, bool), Halt> {
    if m.waiting {
        Ok((resolve_wait(m, keys), false))
    } else if m.pc + 1 >= MEMORY_SIZE {
        Err(Halt::PcOutOfBounds)
    } else {
        match decode_spec(m.opcode()) {
            None => Err(Halt::UnknownOpcode(m.opcode())),
            Some(ins) => match halt_of(m, ins) {
                Some(h) => Err(h),
                None => {
                    let e = exec_spec(m.tick(), ins, keys, rnd);
                    Ok((e.0.advance(e.1), e.2))
                },
            },
        }
    }
}

/// `r` and `after` are what a step from `before` gives with random byte `rnd`.
pub open spec fn step_relation(
    before: Machine,
    keys: Seq<bool>,
    rnd: u8,
    after: Machine,
    r: core::result::Result<Result, Halt>,
) -> bool {
    match step_spec(before, keys, rnd) {
        Ok(s) => after == s.0 && r == Ok::<Result, Halt>(Result { video_changed: s.1 }),
        Err(h) => after == before && r == Err::<Result, Halt>(h),
    }
}

/// The engine: all machine state, owned by the caller's loop.
pub struct Chip8 {
    pub registers: Vec<u8>,
    pub memory: Vec<u8>,
    pub index: u16,
    pub pc: usize,
    pub stack: Vec<usize>,
    pub sp: usize,
    pub delay_timer: u8,
    pub sound_timer: u8,
    /// Pixels row by row: pixel (x, y) at `y * 64 + x`.
    pub video: Vec<u8>,
    pub keypad_waiting: bool,
    pub keypad_reg: u8,
}

impl View for Chip8 {
    type V = Machine;

    open spec fn view(&self) -> Machine {
        Machine {
            registers: self.registers@,
            memory: self.memory@,
            index: self.index,
            pc: self.pc,
            stack: self.stack@,
            sp: self.sp,
            delay_timer: self.delay_timer,
            sound_timer: self.sound_timer,
            video: self.video@,
            waiting: self.keypad_waiting,
            wait_reg: self.keypad_reg,
        }
    }
}

/// XOR-blits the sprite at `memory[i..i + n]` at (`vx`, `vy`) and returns the
/// collision flag.
fn draw_sprite(video: &mut Vec<u8>, memory: &Vec<u8>, i: usize, vx: u8, vy: u8, n: usize) -> (flag: u8)
    requires
        old(video)@.len() == SCREEN_SIZE,
        forall|p: int| 0 <= p < SCREEN_SIZE ==> #[trigger] old(video)@[p] <= 1,
        memory@.len() == MEMORY_SIZE,
        n <= 15,
        i + n <= memory@.len(),
    ensures
        (final(video)@, flag) == draw(old(video)@, memory@, i as int, vx, vy, n as nat),
        final(video)@.len() == SCREEN_SIZE,
        forall|p: int| 0 <= p < SCREEN_SIZE ==> #[trigger] final(video)@[p] <= 1,
{
    let ghost start = video@;
    let mut flag: u8 = 0;
    let mut row: usize = 0;
    while row < n
        invariant
            row <= n,
            n <= 15,
            memory@.len() == MEMORY_SIZE,
            i + n <= memory@.len(),
            video@.len() == SCREEN_SIZE,
            forall|p: int| 0 <= p < SCREEN_SIZE ==> #[trigger] video@[p] <= 1,
            (video@, flag) == draw_rows(start, 0, memory@, i as int, vx, vy, row as nat),
        decreases n - row,
    {
        let sprite = memory[i + row];
        let py: usize = (vy as usize + row) % SCREEN_HEIGHT;
        let ghost row_start = (video@, flag);
        let mut bit: usize = 0;
        while bit < 8
            invariant
                bit <= 8,
                py < 32,
                video@.len() == SCREEN_SIZE,
                forall|p: int| 0 <= p < SCREEN_SIZE ==> #[trigger] video@[p] <= 1,
                (video@, flag) == draw_row(row_start.0, row_start.1, sprite, vx, py as int, bit as nat),
            decreases 8 - bit,
        {
            let px: usize = (vx as usize + bit) % SCREEN_WIDTH;
            let p: usize = py * SCREEN_WIDTH + px;
            let color: u8 = (sprite >> ((7 - bit) as u8)) & 1;
            let old_pixel = video[p];
            proof {
                lemma_one_bit_ops(old_pixel, color, sprite, (7 - bit) as u8);
            }
            flag = flag | (color & old_pixel);
            video[p] = old_pixel ^ color;
            bit = bit + 1;
        }
        row = row + 1;
    }
    flag
}

proof fn lemma_one_bit_ops(a: u8, c: u8, s: u8, sh: u8)
    requires
        a <= 1,
        c == (s >> sh) & 1,
    ensures
        c <= 1,
        a ^ c <= 1,
{
    assert((s >> sh) & 1 <= 1) by (bit_vector);
    assert(a <= 1 && c <= 1 ==> a ^ c <= 1) by (bit_vector);
}

/// Sets every pixel to 0.
fn clear_video(video: &mut Vec<u8>)
    requires
        old(video)@.len() == SCREEN_SIZE,
    ensures
        final(video)@ == Seq::new(SCREEN_SIZE as nat, |i: int| 0u8),
{
    let mut i: usize = 0;
    while i < SCREEN_SIZE
        invariant
            i <= SCREEN_SIZE,
            video@.len() == SCREEN_SIZE,
            forall|j: int| 0 <= j < i ==> #[trigger] video@[j] == 0,
        decreases SCREEN_SIZE - i,
    {
        video[i] = 0;
        i = i + 1;
    }
    assert(video@ =~= Seq::new(SCREEN_SIZE as nat, |i: int| 0u8));
}

/// Copies `registers[0..=x]` to `memory[i..=i + x]`.
fn store_registers(memory: &mut Vec<u8>, registers: &Vec<u8>, i: usize, x: u8)
    requires
        old(memory)@.len() == MEMORY_SIZE,
        registers@.len() == 16,
        x < 16,
        i + x + 1 <= MEMORY_SIZE,
    ensures
        final(memory)@ == Seq::new(
            old(memory)@.len(),
            |a: int| if i <= a <= i + x { registers@[a - i] } else { old(memory)@[a] },
        ),
{
    let ghost start = memory@;
    let mut k: usize = 0;
    while k <= x as usize
        invariant
            k <= x + 1,
            x < 16,
            i + x + 1 <= MEMORY_SIZE,
            registers@.len() == 16,
            memory@.len() == MEMORY_SIZE,
            start.len() == MEMORY_SIZE,
            forall|a: int| 0 <= a < MEMORY_SIZE ==> #[trigger] memory@[a] == (if i <= a < i + k { registers@[a - i] } else { start[a] }),
        decreases x + 1 - k,
    {
        memory[i + k] = registers[k];
        k = k + 1;
    }
    assert(memory@ =~= Seq::new(
        start.len(),
        |a: int| if i <= a <= i + x { registers@[a - i] } else { start[a] },
    ));
}

/// Copies `memory[i..=i + x]` to `registers[0..=x]`.
fn load_registers(registers: &mut Vec<u8>, memory: &Vec<u8>, i: usize, x: u8)
    requires
        old(registers)@.len() == 16,
        memory@.len() == MEMORY_SIZE,
        x < 16,
        i + x + 1 <= MEMORY_SIZE,
    ensures
        final(registers)@ == Seq::new(
            16,
            |r: int| if r <= x { memory@[i + r] } else { old(registers)@[r] },
        ),
{
    let ghost start = registers@;
    let mut k: usize = 0;
    while k <= x as usize
        invariant
            k <= x + 1,
            x < 16,
            i + x + 1 <= MEMORY_SIZE,
            memory@.len() == MEMORY_SIZE,
            registers@.len() == 16,
            start.len() == 16,
            forall|r: int| 0 <= r < 16 ==> #[trigger] registers@[r] == (if r < k { memory@[i + r] } else { start[r] }),
        decreases x + 1 - k,
    {
        registers[k] = memory[i + k];
        k = k + 1;
    }
    assert(registers@ =~= Seq::new(
        16,
        |r: int| if r <= x { memory@[i + r] } else { start[r] },
    ));
}

/// A zero-filled vector of `n` bytes.
fn zeros(n: usize) -> (r: Vec<u8>)
    ensures
        r@ == Seq::new(n as nat, |i: int| 0u8),
{
    let mut r: Vec<u8> = Vec::new();
    while r.len() < n
        invariant
            r@.len() <= n,
            forall|j: int| 0 <= j < r@.len() ==> #[trigger] r@[j] == 0,
        decreases n - r@.len(),
    {
        r.push(0);
    }
    assert(r@ =~= Seq::new(n as nat, |i: int| 0u8));
    r
}

/// The built-in glyph table.
fn font() -> (r: Vec<u8>)
    ensures
        r@ == font_glyphs(),
{
    let r: Vec<u8> = vec![
        0xF0, 0x90, 0x90, 0x90, 0xF0,
        0x20, 0x60, 0x20, 0x20, 0x70,
        0xF0, 0x10, 0xF0, 0x80, 0xF0,
        0xF0, 0x10, 0xF0, 0x10, 0xF0,
        0x90, 0x90, 0xF0, 0x10, 0x10,
        0xF0, 0x80, 0xF0, 0x10, 0xF0,
        0xF0, 0x80, 0xF0, 0x90, 0xF0,
        0xF0, 0x10, 0x20, 0x40, 0x40,
        0xF0, 0x90, 0xF0, 0x90, 0xF0,
        0xF0, 0x90, 0xF0, 0x10, 0xF0,
        0xF0, 0x90, 0xF0, 0x90, 0x90,
        0xE0, 0x90, 0xE0, 0x90, 0xE0,
        0xF0, 0x80, 0x80, 0x80, 0xF0,
        0xE0, 0x90, 0x90, 0x90, 0xE0,
        0xF0, 0x80, 0xF0, 0x80, 0xF0,
        0xF0, 0x80, 0xF0, 0x80, 0x80
    ];
    assert(r@ =~= font_glyphs());
    r
}

impl Chip8 {
    /// A fresh engine: glyphs at the bottom of memory, the program counter at
    /// `START_ADDRESS`, everything else zero.
    pub fn new() -> (c: Chip8)
        ensures
            c@ == Machine::initial(),
            c@.wf(),
    {
        let glyphs = font();
        let mut memory = zeros(MEMORY_SIZE);
        let mut i: usize = 0;
        while i < 80
            invariant
                i <= 80,
                glyphs@ == font_glyphs(),
                memory@.len() == MEMORY_SIZE,
                forall|j: int| 0 <= j < MEMORY_SIZE ==> #[trigger] memory@[j] == (if j < i { font_glyphs()[j] } else { 0u8 }),
            decreases 80 - i,
        {
            memory[i] = glyphs[i];
            i = i + 1;
        }
        assert(memory@ =~= Machine::initial().memory);
        let c = Chip8 {
            registers: zeros(16),
            memory,
            index: 0,
            pc: START_ADDRESS,
            stack: vec![0usize; 16],
            sp: 0,
            delay_timer: 0,
            sound_timer: 0,
            video: zeros(SCREEN_SIZE),
            keypad_waiting: false,
            keypad_reg: 0,
        };
        assert(c.stack@ =~= Machine::initial().stack);
        c
    }

    /// The pixel at linear index `pixel` (`y * 64 + x`), 0 or 1.
    pub fn get_pixel(&self, pixel: i32) -> (r: u8)
        requires
            self@.wf(),
            0 <= pixel < SCREEN_SIZE,
        ensures
            r == self@.video[pixel as int],
            r <= 1,
    {
        let x: usize = (pixel % SCREEN_WIDTH as i32) as usize;
        let y: usize = (pixel / SCREEN_WIDTH as i32) as usize;
        self.video[y * SCREEN_WIDTH + x]
    }

    /// The pixel at column `x`, row `y`, 0 or 1.
    pub fn get_pixelc(&self, x: usize, y: usize) -> (r: u8)
        requires
            self@.wf(),
            x < SCREEN_WIDTH,
            y < SCREEN_HEIGHT,
        ensures
            r == self@.video[y * 64 + x],
            r <= 1,
    {
        self.video[y * SCREEN_WIDTH + x]
    }

    /// Places a program verbatim at `START_ADDRESS`; the rest of memory is
    /// untouched. A program longer than `MAX_ROM_SIZE` is refused and nothing
    /// changes.
    pub fn load_rom(&mut self, rom: &Vec<u8>) -> (r: core::result::Result<(), Halt>)
        requires
            old(self)@.wf(),
        ensures
            final(self)@.wf(),
            rom@.len() > MAX_ROM_SIZE ==> r == Err::<(), Halt>(Halt::RomTooLarge) && final(self)@ == old(self)@,
            rom@.len() <= MAX_ROM_SIZE ==> r == Ok::<(), Halt>(()) && final(self)@ == (Machine {
                memory: Seq::new(
                    MEMORY_SIZE as nat,
                    |a: int| if START_ADDRESS <= a < START_ADDRESS + rom@.len() {
                        rom@[a - START_ADDRESS]
                    } else {
                        old(self)@.memory[a]
                    },
                ),
                ..old(self)@
            }),
    {
        if rom.len() > MAX_ROM_SIZE {
            return Err(Halt::RomTooLarge);
        }
        let ghost start = self.memory@;
        let mut k: usize = 0;
        while k < rom.len()
            invariant
                k <= rom@.len() <= MAX_ROM_SIZE,
                self.memory@.len() == MEMORY_SIZE,
                start.len() == MEMORY_SIZE,
                forall|a: int| 0 <= a < MEMORY_SIZE ==> #[trigger] self.memory@[a] == (
                    if START_ADDRESS <= a < START_ADDRESS + k { rom@[a - START_ADDRESS] } else { start[a] }),
                self.registers == old(self).registers,
                self.index == old(self).index,
                self.pc == old(self).pc,
                self.stack == old(self).stack,
                self.sp == old(self).sp,
                self.delay_timer == old(self).delay_timer,
                self.sound_timer == old(self).sound_timer,
                self.video == old(self).video,
                self.keypad_waiting == old(self).keypad_waiting,
                self.keypad_reg == old(self).keypad_reg,
            decreases rom@.len() - k,
        {
            self.memory[START_ADDRESS + k] = rom[k];
            k = k + 1;
        }
        assert(self.memory@ =~= Seq::new(
            MEMORY_SIZE as nat,
            |a: int| if START_ADDRESS <= a < START_ADDRESS + rom@.len() { rom@[a - START_ADDRESS] } else { start[a] },
        ));
        Ok(())
    }

    /// The big-endian opcode at the program counter.
    pub fn fetch_instruction(&self) -> (r: u16)
        requires
            self@.wf(),
            self.pc + 1 < MEMORY_SIZE,
        ensures
            r == self@.opcode(),
    {
        (self.memory[self.pc] as u16) * 256 + (self.memory[self.pc + 1] as u16)
    }

    /// The fatal condition that `ins` would meet in the current state.
    fn halt_for(&self, ins: Instr) -> (r: Option<Halt>)
        requires
            self@.wf(),
            ins.fields_ok(),
        ensures
            r == halt_of(self@, ins),
    {
        match ins {
            Instr::Ret => if self.sp == 0 { Some(Halt::StackUnderflow) } else { None },
            Instr::Call { .. } => if self.sp >= 16 { Some(Halt::StackOverflow) } else { None },
            Instr::Drw { n, .. } => if self.index as usize + n as usize > MEMORY_SIZE {
                Some(Halt::MemoryOutOfBounds)
            } else {
                None
            },
            Instr::Skp { x } => if self.registers[x as usize] >= 16 {
                Some(Halt::KeyOutOfRange)
            } else {
                None
            },
            Instr::Sknp { x } => if self.registers[x as usize] >= 16 {
                Some(Halt::KeyOutOfRange)
            } else {
                None
            },
            Instr::AddI { x } => if self.index as u32 + self.registers[x as usize] as u32 > 0xFFFF {
                Some(Halt::IndexOverflow)
            } else {
                None
            },
            Instr::Bcd { .. } => if self.index as usize + 3 > MEMORY_SIZE {
                Some(Halt::MemoryOutOfBounds)
            } else {
                None
            },
            Instr::Store { x } => if self.index as usize + x as usize + 1 > MEMORY_SIZE {
                Some(Halt::MemoryOutOfBounds)
            } else {
                None
            },
            Instr::Load { x } => if self.index as usize + x as usize + 1 > MEMORY_SIZE {
                Some(Halt::MemoryOutOfBounds)
            } else {
                None
            },
            _ => None,
        }
    }

    /// Instructions that only clear the screen or steer the program counter.
    fn apply_flow(&mut self, ins: Instr, keys: &[bool; 16], random: u8) -> (r: (ProgramCounter, bool))
        requires
            old(self)@.wf(),
            old(self).pc + 1 < MEMORY_SIZE,
            halt_of(old(self)@, ins) is None,
            ins.fields_ok(),
            ins is Cls || ins is Ret || ins is Jp || ins is Call || ins is SeImm || ins is SneImm || ins is SeReg || ins is SneReg || ins is JpV0 || ins is Skp || ins is Sknp,
        ensures
            final(self)@.wf(),
            (final(self)@, r.0, r.1) == exec_spec(old(self)@, ins, keys@, random),
            final(self).pc == old(self).pc,
    {
        proof {
            reveal(exec_spec);
        }
        match ins {
            Instr::Cls => {
                clear_video(&mut self.video);
                (ProgramCounter::Next, true)
            },
            Instr::Ret => {
                self.sp = self.sp - 1;
                (ProgramCounter::Jump(self.stack[self.sp]), false)
            },
            Instr::Jp { addr } => (ProgramCounter::Jump(addr as usize), false),
            Instr::Call { addr } => {
                self.stack[self.sp] = self.pc + 2;
                self.sp = self.sp + 1;
                (ProgramCounter::Jump(addr as usize), false)
            },
            Instr::SeImm { x, kk } => (ProgramCounter::skip(self.registers[x as usize] == kk), false),
            Instr::SneImm { x, kk } => (ProgramCounter::skip(self.registers[x as usize] != kk), false),
            Instr::SeReg { x, y } => (
                ProgramCounter::skip(self.registers[x as usize] == self.registers[y as usize]),
                false,
            ),
            Instr::SneReg { x, y } => (
                ProgramCounter::skip(self.registers[x as usize] != self.registers[y as usize]),
                false,
            ),
            Instr::JpV0 { addr } => (
                ProgramCounter::Jump(self.registers[0] as usize + addr as usize),
                false,
            ),
            Instr::Skp { x } => (ProgramCounter::skip(keys[self.registers[x as usize] as usize]), false),
            Instr::Sknp { x } => (ProgramCounter::skip(!keys[self.registers[x as usize] as usize]), false),
            // the precondition leaves no other instruction here
            _ => (ProgramCounter::Next, false),
        }
    }

    /// Instructions that compute into a register.
    #[verifier::rlimit(40)]
    fn apply_alu(&mut self, ins: Instr, keys: &[bool; 16], random: u8) -> (r: (ProgramCounter, bool))
        requires
            old(self)@.wf(),
            old(self).pc + 1 < MEMORY_SIZE,
            halt_of(old(self)@, ins) is None,
            ins.fields_ok(),
            ins is LdImm || ins is AddImm || ins is Mov || ins is Or || ins is And || ins is Xor || ins is AddReg || ins is Sub || ins is Shr || ins is SubN || ins is Shl || ins is Rnd || ins is LdVxDt,
        ensures
            final(self)@.wf(),
            (final(self)@, r.0, r.1) == exec_spec(old(self)@, ins, keys@, random),
            final(self).pc == old(self).pc,
    {
        proof {
            reveal(exec_spec);
        }
        match ins {
            Instr::LdImm { x, kk } => {
                self.registers[x as usize] = kk;
                (ProgramCounter::Next, false)
            },
            Instr::AddImm { x, kk } => {
                let sum: u16 = self.registers[x as usize] as u16 + kk as u16;
                self.registers[x as usize] = (sum % 256) as u8;
                (ProgramCounter::Next, false)
            },
            Instr::Mov { x, y } => {
                self.registers[x as usize] = self.registers[y as usize];
                (ProgramCounter::Next, false)
            },
            Instr::Or { x, y } => {
                self.registers[x as usize] = self.registers[x as usize] | self.registers[y as usize];
                (ProgramCounter::Next, false)
            },
            Instr::And { x, y } => {
                self.registers[x as usize] = self.registers[x as usize] & self.registers[y as usize];
                (ProgramCounter::Next, false)
            },
            Instr::Xor { x, y } => {
                self.registers[x as usize] = self.registers[x as usize] ^ self.registers[y as usize];
                (ProgramCounter::Next, false)
            },
            Instr::AddReg { x, y } => {
                let sum: u16 = self.registers[x as usize] as u16 + self.registers[y as usize] as u16;
                self.registers[x as usize] = (sum % 256) as u8;
                self.registers[FLAG] = if sum > 255 { 1 } else { 0 };
                (ProgramCounter::Next, false)
            },
            Instr::Sub { x, y } => {
                self.registers[FLAG] = if self.registers[x as usize] > self.registers[y as usize] { 1 } else { 0 };
                let vx = self.registers[x as usize];
                let vy = self.registers[y as usize];
                self.registers[x as usize] = vx.wrapping_sub(vy);
                (ProgramCounter::Next, false)
            },
            Instr::Shr { x } => {
                self.registers[FLAG] = self.registers[x as usize] % 2;
                self.registers[x as usize] = self.registers[x as usize] / 2;
                (ProgramCounter::Next, false)
            },
            Instr::SubN { x, y } => {
                self.registers[FLAG] = if self.registers[y as usize] > self.registers[x as usize] { 1 } else { 0 };
                let vx = self.registers[x as usize];
                let vy = self.registers[y as usize];
                self.registers[x as usize] = vy.wrapping_sub(vx);
                (ProgramCounter::Next, false)
            },
            Instr::Shl { x } => {
                self.registers[FLAG] = self.registers[x as usize] / 128;
                let doubled: u16 = self.registers[x as usize] as u16 * 2;
                self.registers[x as usize] = (doubled % 256) as u8;
                (ProgramCounter::Next, false)
            },
            Instr::Rnd { x, kk } => {
                self.registers[x as usize] = random & kk;
                (ProgramCounter::Next, false)
            },
            Instr::LdVxDt { x } => {
                self.registers[x as usize] = self.delay_timer;
                (ProgramCounter::Next, false)
            },
            // the precondition leaves no other instruction here
            _ => (ProgramCounter::Next, false),
        }
    }

    /// Instructions on the index register, memory, the framebuffer, timers and the key wait.
    fn apply_mem(&mut self, ins: Instr, keys: &[bool; 16], random: u8) -> (r: (ProgramCounter, bool))
        requires
            old(self)@.wf(),
            old(self).pc + 1 < MEMORY_SIZE,
            halt_of(old(self)@, ins) is None,
            ins.fields_ok(),
            ins is LdI || ins is Drw || ins is WaitKey || ins is LdDtVx || ins is LdStVx || ins is AddI || ins is LdFont || ins is Bcd || ins is Store || ins is Load,
        ensures
            final(self)@.wf(),
            (final(self)@, r.0, r.1) == exec_spec(old(self)@, ins, keys@, random),
            final(self).pc == old(self).pc,
    {
        proof {
            reveal(exec_spec);
        }
        match ins {
            Instr::LdI { addr } => {
                self.index = addr;
                (ProgramCounter::Next, false)
            },
            Instr::Drw { x, y, n } => {
                let vx = self.registers[x as usize];
                let vy = self.registers[y as usize];
                let flag = draw_sprite(&mut self.video, &self.memory, self.index as usize, vx, vy, n as usize);
                self.registers[FLAG] = flag;
                (ProgramCounter::Next, true)
            },
            Instr::WaitKey { x } => {
                self.keypad_waiting = true;
                self.keypad_reg = x;
                (ProgramCounter::Next, false)
            },
            Instr::LdDtVx { x } => {
                self.delay_timer = self.registers[x as usize];
                (ProgramCounter::Next, false)
            },
            Instr::LdStVx { x } => {
                self.sound_timer = self.registers[x as usize];
                (ProgramCounter::Next, false)
            },
            Instr::AddI { x } => {
                let i: u16 = self.index + self.registers[x as usize] as u16;
                self.index = i;
                self.registers[FLAG] = if i > 0x0FFF { 1 } else { 0 };
                (ProgramCounter::Next, false)
            },
            Instr::LdFont { x } => {
                self.index = self.registers[x as usize] as u16 * 5;
                (ProgramCounter::Next, false)
            },
            Instr::Bcd { x } => {
                let v = self.registers[x as usize];
                let i = self.index as usize;
                self.memory[i] = v / 100;
                self.memory[i + 1] = (v % 100) / 10;
                self.memory[i + 2] = v % 10;
                (ProgramCounter::Next, false)
            },
            Instr::Store { x } => {
                store_registers(&mut self.memory, &self.registers, self.index as usize, x);
                (ProgramCounter::Next, false)
            },
            Instr::Load { x } => {
                load_registers(&mut self.registers, &self.memory, self.index as usize, x);
                (ProgramCounter::Next, false)
            },
            // the precondition leaves no other instruction here
            _ => (ProgramCounter::Next, false),
        }
    }

    /// Carries out one instruction that meets no fatal condition.
    fn apply(&mut self, ins: Instr, keys: &[bool; 16], random: u8) -> (r: (ProgramCounter, bool))
        requires
            old(self)@.wf(),
            old(self).pc + 1 < MEMORY_SIZE,
            halt_of(old(self)@, ins) is None,
            ins.fields_ok(),
        ensures
            final(self)@.wf(),
            (final(self)@, r.0, r.1) == exec_spec(old(self)@, ins, keys@, random),
            final(self).pc == old(self).pc,
    {
        match ins {
            Instr::Cls
            | Instr::Ret
            | Instr::Jp { .. }
            | Instr::Call { .. }
            | Instr::SeImm { .. }
            | Instr::SneImm { .. }
            | Instr::SeReg { .. }
            | Instr::SneReg { .. }
            | Instr::JpV0 { .. }
            | Instr::Skp { .. }
            | Instr::Sknp { .. } => self.apply_flow(ins, keys, random),
            Instr::LdImm { .. }
            | Instr::AddImm { .. }
            | Instr::Mov { .. }
            | Instr::Or { .. }
            | Instr::And { .. }
            | Instr::Xor { .. }
            | Instr::AddReg { .. }
            | Instr::Sub { .. }
            | Instr::Shr { .. }
            | Instr::SubN { .. }
            | Instr::Shl { .. }
            | Instr::Rnd { .. }
            | Instr::LdVxDt { .. } => self.apply_alu(ins, keys, random),
            Instr::LdI { .. }
            | Instr::Drw { .. }
            | Instr::WaitKey { .. }
            | Instr::LdDtVx { .. }
            | Instr::LdStVx { .. }
            | Instr::AddI { .. }
            | Instr::LdFont { .. }
            | Instr::Bcd { .. }
            | Instr::Store { .. }
            | Instr::Load { .. } => self.apply_mem(ins, keys, random),
        }
    }

    /// A step in the key-wait state: the lowest key held, if any, goes to the
    /// waiting register and the wait ends; with no key held nothing changes.
    fn resolve_key_wait(&mut self, keys_pressed: &[bool; 16])
        requires
            old(self)@.wf(),
        ensures
            final(self)@.wf(),
            final(self)@ == resolve_wait(old(self)@, keys_pressed@),
    {
        let mut i: usize = 0;
        while i < 16
            invariant
                i <= 16,
                keys_pressed@.len() == 16,
                *self == *old(self),
                self@ == old(self)@,
                self@.wf(),
                forall|j: int| 0 <= j < i ==> !keys_pressed@[j],
            decreases 16 - i,
        {
            if keys_pressed[i] {
                proof {
                    assert(lowest_held(keys_pressed@, i as int));
                    assert forall|k: int| lowest_held(keys_pressed@, k) implies k == i by {
                        if k < i {
                            assert(!keys_pressed@[k]);
                        } else if k > i {
                            assert(!keys_pressed@[i as int]);
                        }
                    }
                }
                self.registers[self.keypad_reg as usize] = i as u8;
                self.keypad_waiting = false;
                proof {
                    let k = choose|k: int| lowest_held(keys_pressed@, k);
                    assert(lowest_held(keys_pressed@, k));
                    assert(k == i);
                }
                return;
            }
            i = i + 1;
        }
    }

    /// One step, with `random` as the byte that the random instruction uses.
    /// In the key-wait state: the lowest key held, if any, is stored in the
    /// waiting register and the wait ends; timers stay and nothing is fetched.
    /// Otherwise: fetch and decode at the program counter, stop on a fatal
    /// condition with the state unchanged, else move both timers toward zero,
    /// carry out the instruction and apply its program-counter action.
    pub fn execute_with(&mut self, keys_pressed: &[bool; 16], random: u8) -> (r: core::result::Result<Result, Halt>)
        requires
            old(self)@.wf(),
        ensures
            final(self)@.wf(),
            step_relation(old(self)@, keys_pressed@, random, final(self)@, r),
    {
        if self.keypad_waiting {
            self.resolve_key_wait(keys_pressed);
            return Ok(Result { video_changed: false });
        }
        if self.pc >= MEMORY_SIZE - 1 {
            return Err(Halt::PcOutOfBounds);
        }
        let opcode = self.fetch_instruction();
        proof {
            lemma_decoded_fields_ok(opcode);
        }
        let ins = match decode(opcode) {
            Some(ins) => ins,
            None => {
                return Err(Halt::UnknownOpcode(opcode));
            },
        };
        match self.halt_for(ins) {
            Some(h) => {
                return Err(h);
            },
            None => {},
        }
        if self.delay_timer > 0 {
            self.delay_timer = self.delay_timer - 1;
        }
        if self.sound_timer > 0 {
            self.sound_timer = self.sound_timer - 1;
        }
        let (action, video_changed) = self.apply(ins, keys_pressed, random);
        match action {
            ProgramCounter::Next => {
                self.pc = self.pc + 2;
            },
            ProgramCounter::Skip => {
                self.pc = self.pc + 4;
            },
            ProgramCounter::Jump(a) => {
                self.pc = a;
            },
        }
        Ok(Result { video_changed })
    }

    /// One step of the engine (see `execute_with`), with a fresh random byte
    /// for the random instruction.
    pub fn execute_instruction(&mut self, keys_pressed: &[bool; 16]) -> (r: core::result::Result<Result, Halt>)
        requires
            old(self)@.wf(),
        ensures
            final(self)@.wf(),
            exists|b: u8| #[trigger] step_relation(old(self)@, keys_pressed@, b, final(self)@, r),
    {
        let b = random_byte();
        self.execute_with(keys_pressed, b)
    }
}

/// Relies on rand::random (the thread-local generator) for one byte; nothing
/// is known of its value.
#[verifier::external_body]
fn random_byte() -> (r: u8) {
    rand::random::<u8>()
}

} // verus!
