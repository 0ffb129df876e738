//! The interpreter: memory, registers, stack, timers, and the
//! fetch-decode-execute cycle.
use vstd::prelude::*;
use crate::alu::{alu, alu_spec};
use crate::decode::{
    decode, decode_spec, lemma_decode_in_range, operands_in_range, AluOp, Instruction,
};
use crate::graphics::{blank, blit, collides, sprite_at, Frame, Graphics};
use crate::keypad::Keypad;
use crate::Fault;

verus! {

/// Where programs are loaded, and where execution starts.
pub const PROGRAM_START: u16 = 0x200;

/// Where the font glyphs start: sixteen glyphs of five bytes.
pub const FONT_START: u16 = 0x50;

/// The largest ROM that fits between `PROGRAM_START` and the end of memory.
pub const MAX_ROM_LEN: usize = 3584;

/// The built-in font: glyphs for the hex digits 0..F, five rows each, four
/// pixels wide in the high nibble.
pub open spec fn font() -> Seq<u8> {
    seq![
        0xF0u8, 0x90, 0x90, 0x90, 0xF0, // 0
        0x20, 0x60, 0x20, 0x20, 0x70, // 1
        0xF0, 0x10, 0xF0, 0x80, 0xF0, // 2
        0xF0, 0x10, 0xF0, 0x10, 0xF0, // 3
        0x90, 0x90, 0xF0, 0x10, 0x10, // 4
        0xF0, 0x80, 0xF0, 0x10, 0xF0, // 5
        0xF0, 0x80, 0xF0, 0x90, 0xF0, // 6
        0xF0, 0x10, 0x20, 0x40, 0x40, // 7
        0xF0, 0x90, 0xF0, 0x90, 0xF0, // 8
        0xF0, 0x90, 0xF0, 0x10, 0xF0, // 9
        0xF0, 0x90, 0xF0, 0x90, 0x90, // A
        0xE0, 0x90, 0xE0, 0x90, 0xE0, // B
        0xF0, 0x80, 0x80, 0x80, 0xF0, // C
        0xE0, 0x90, 0x90, 0x90, 0xE0, // D
        0xF0, 0x80, 0xF0, 0x80, 0xF0, // E
        0xF0, 0x80, 0xF0, 0x80, 0x80, // F
    ]
}

/// The whole machine state as plain mathematical values.
pub struct Machine {
    /// 4096 bytes of memory.
    pub mem: Seq<u8>,
    /// Registers V0..VF.
    pub v: Seq<u8>,
    /// The index register I.
    pub i: u16,
    /// The address of the next instruction.
    pub pc: u16,
    /// How many of the sixteen stack slots are in use.
    pub sp: u16,
    /// The sixteen stack slots; those below `sp` hold return addresses.
    pub stack: Seq<u16>,
    pub delay: u8,
    pub sound: u8,
    /// The last opcode fetched and run.
    pub opcode: u16,
    /// Set when the sound timer ran out; cleared when the host takes it.
    pub beep: bool,
    /// Key levels, one per key 0x0..=0xF.
    pub keys: Seq<bool>,
    pub screen: Frame,
}

/// The shape every reachable machine state has: sizes fixed and the stack
/// pointer within the stack.
pub open spec fn machine_ok(m: Machine) -> bool {
    &&& m.mem.len() == 4096
    &&& m.v.len() == 16
    &&& m.stack.len() == 16
    &&& m.keys.len() == 16
    &&& m.screen.pixels.len() == 2048
    &&& m.sp <= 16
}

/// Memory at power-on: zero, but for the font at `FONT_START`.
pub open spec fn initial_memory() -> Seq<u8> {
    Seq::new(
        4096,
        |a: int|
            if FONT_START <= a < FONT_START + 80 {
                font()[a - FONT_START]
            } else {
                0u8
            },
    )
}

/// The machine at power-on.
pub open spec fn initial_machine() -> Machine {
    Machine {
        mem: initial_memory(),
        v: Seq::new(16, |k: int| 0u8),
        i: PROGRAM_START,
        pc: PROGRAM_START,
        sp: 0,
        stack: Seq::new(16, |k: int| 0u16),
        delay: 0,
        sound: 0,
        opcode: 0,
        beep: false,
        keys: Seq::new(16, |k: int| false),
        screen: Frame { pixels: blank(), dirty: true },
    }
}

/// `mem` with `rom` copied in from `PROGRAM_START` on.
pub open spec fn with_rom(mem: Seq<u8>, rom: Seq<u8>) -> Seq<u8> {
    Seq::new(
        mem.len(),
        |a: int|
            if PROGRAM_START <= a < PROGRAM_START + rom.len() {
                rom[a - PROGRAM_START]
            } else {
                mem[a]
            },
    )
}

/// `pc + d` in the 16-bit program counter, which wraps.
pub open spec fn pc_plus(pc: u16, d: int) -> u16 {
    ((pc + d) % 0x10000) as u16
}

/// The machine moved on to the next instruction.
pub open spec fn advance(m: Machine) -> Machine {
    Machine { pc: pc_plus(m.pc, 2), ..m }
}

/// The machine moved on past the next instruction if `cond`, else to it.
pub open spec fn skip_if(m: Machine, cond: bool) -> Machine {
    Machine { pc: pc_plus(m.pc, if cond { 4int } else { 2int }), ..m }
}

/// Whether key `k` is down; a number above 15 names no key, which is up.
pub open spec fn key_down(keys: Seq<bool>, k: u8) -> bool {
    k < 16 && keys[k as int]
}

/// The highest-numbered key below `n` that is down, if any.
pub open spec fn last_pressed(keys: Seq<bool>, n: int) -> Option<u8>
    decreases n,
{
    if n <= 0 {
        None
    } else if keys[n - 1] {
        Some((n - 1) as u8)
    } else {
        last_pressed(keys, n - 1)
    }
}

/// A key that is down below `n` leaves `last_pressed` something to find.
proof fn lemma_pressed_found(keys: Seq<bool>, k: int, n: int)
    requires
        0 <= k < n,
        keys[k],
    ensures
        last_pressed(keys, n) is Some,
    decreases n,
{
    if !keys[n - 1] {
        lemma_pressed_found(keys, k, n - 1);
    }
}

/// The registers after `8xyN` operation `op`: Vx takes the result, then VF
/// the flag if the operation has one.
pub open spec fn alu_registers(v: Seq<u8>, op: AluOp, x: u8, y: u8) -> Seq<u8> {
    let (res, flag) = alu_spec(op, v[x as int], v[y as int]);
    let written = v.update(x as int, res);
    match flag {
        Some(f) => written.update(15, f),
        None => written,
    }
}

/// The decimal digits of `b`: hundreds, tens, ones.
pub open spec fn bcd_digits(b: u8) -> Seq<u8> {
    seq![b / 100, (b / 10) % 10, b % 10]
}

/// `mem` with `V0..=Vx` stored from address `i` on.
pub open spec fn stored_registers(mem: Seq<u8>, v: Seq<u8>, i: int, x: int) -> Seq<u8> {
    Seq::new(mem.len(), |a: int| if i <= a <= i + x { v[a - i] } else { mem[a] })
}

/// `v` with `V0..=Vx` loaded from address `i` on.
pub open spec fn loaded_registers(v: Seq<u8>, mem: Seq<u8>, i: int, x: int) -> Seq<u8> {
    Seq::new(16, |r: int| if r <= x { mem[i + r] } else { v[r] })
}

/// What running `ins` does to machine `m`, where `random` is the byte drawn
/// for `Cxnn`: the next state, or the fault that stops it.
pub open spec fn exec_spec(m: Machine, ins: Instruction, random: u8) -> Result<Machine, Fault> {
    match ins {
        Instruction::ClearScreen => Ok(
            advance(Machine { screen: Frame { pixels: blank(), dirty: true }, ..m }),
        ),
        Instruction::Return => if m.sp == 0 {
            Err(Fault::StackUnderflow)
        } else {
            Ok(Machine { sp: (m.sp - 1) as u16, pc: pc_plus(m.stack[m.sp - 1], 2), ..m })
        },
        Instruction::Jump { nnn } => Ok(Machine { pc: nnn, ..m }),
        Instruction::Call { nnn } => if m.sp >= 16 {
            Err(Fault::StackOverflow)
        } else {
            Ok(
                Machine {
                    stack: m.stack.update(m.sp as int, m.pc),
                    sp: (m.sp + 1) as u16,
                    pc: nnn,
                    ..m
                },
            )
        },
        Instruction::SkipIfEqImm { x, nn } => Ok(skip_if(m, m.v[x as int] == nn)),
        Instruction::SkipIfNeImm { x, nn } => Ok(skip_if(m, m.v[x as int] != nn)),
        Instruction::SkipIfEqReg { x, y } => Ok(skip_if(m, m.v[x as int] == m.v[y as int])),
        Instruction::SetImm { x, nn } => Ok(advance(Machine { v: m.v.update(x as int, nn), ..m })),
        Instruction::AddImm { x, nn } => Ok(
            advance(Machine { v: m.v.update(x as int, ((m.v[x as int] + nn) % 256) as u8), ..m }),
        ),
        Instruction::Alu { op, x, y } => Ok(
            advance(Machine { v: alu_registers(m.v, op, x, y), ..m }),
        ),
        Instruction::SkipIfNeReg { x, y } => Ok(skip_if(m, m.v[x as int] != m.v[y as int])),
        Instruction::SetIndex { nnn } => Ok(advance(Machine { i: nnn, ..m })),
        Instruction::JumpOffset { nnn } => Ok(Machine { pc: (m.v[0] + nnn) as u16, ..m }),
        Instruction::Random { x, nn } => Ok(
            advance(Machine { v: m.v.update(x as int, random & nn), ..m }),
        ),
        Instruction::Draw { x, y, n } => if n > 0 && m.i + n > 4096 {
            Err(Fault::MemoryOutOfBounds)
        } else {
            let sprite = sprite_at(m.mem, m.i as int, n as int);
            let px = m.screen.pixels;
            let vx = m.v[x as int] as int;
            let vy = m.v[y as int] as int;
            Ok(
                advance(
                    Machine {
                        screen: Frame { pixels: blit(px, sprite, vx, vy), dirty: true },
                        v: m.v.update(
                            15,
                            if collides(px, sprite, vx, vy) {
                                1u8
                            } else {
                                0u8
                            },
                        ),
                        ..m
                    },
                ),
            )
        },
        Instruction::SkipIfKey { x } => Ok(skip_if(m, key_down(m.keys, m.v[x as int]))),
        Instruction::SkipIfNotKey { x } => Ok(skip_if(m, !key_down(m.keys, m.v[x as int]))),
        Instruction::GetDelay { x } => Ok(advance(Machine { v: m.v.update(x as int, m.delay), ..m })),
        Instruction::WaitKey { x } => match last_pressed(m.keys, 16) {
            Some(k) => Ok(advance(Machine { v: m.v.update(x as int, k), ..m })),
            None => Ok(m),
        },
        Instruction::SetDelay { x } => Ok(advance(Machine { delay: m.v[x as int], ..m })),
        Instruction::SetSound { x } => Ok(advance(Machine { sound: m.v[x as int], ..m })),
        Instruction::AddIndex { x } => {
            let sum = m.i + m.v[x as int];
            Ok(
                advance(
                    Machine {
                        i: (sum % 0x10000) as u16,
                        v: m.v.update(
                            15,
                            if sum > 0xFFF {
                                1u8
                            } else {
                                0u8
                            },
                        ),
                        ..m
                    },
                ),
            )
        },
        Instruction::FontChar { x } => Ok(
            advance(Machine { i: (m.v[x as int] * 5 + FONT_START) as u16, ..m }),
        ),
        Instruction::StoreBcd { x } => if m.i + 2 >= 4096 {
            Err(Fault::MemoryOutOfBounds)
        } else {
            let d = bcd_digits(m.v[x as int]);
            Ok(
                advance(
                    Machine {
                        mem: m.mem.update(m.i as int, d[0]).update(m.i + 1, d[1]).update(
                            m.i + 2,
                            d[2],
                        ),
                        ..m
                    },
                ),
            )
        },
        Instruction::StoreRegs { x } => if m.i + x >= 4096 {
            Err(Fault::MemoryOutOfBounds)
        } else {
            Ok(
                advance(
                    Machine {
                        mem: stored_registers(m.mem, m.v, m.i as int, x as int),
                        i: (m.i + x + 1) as u16,
                        ..m
                    },
                ),
            )
        },
        Instruction::LoadRegs { x } => if m.i + x >= 4096 {
            Err(Fault::MemoryOutOfBounds)
        } else {
            Ok(
                advance(
                    Machine {
                        v: loaded_registers(m.v, m.mem, m.i as int, x as int),
                        i: (m.i + x + 1) as u16,
                        ..m
                    },
                ),
            )
        },
        Instruction::Unknown => Ok(advance(m)),
    }
}

/// `r` and the machine `new` after an operation on `old` are as `expected`
/// says: on success the expected state, on a fault that fault and no change.
pub open spec fn outcome_is(
    old: Machine,
    new: Machine,
    expected: Result<Machine, Fault>,
    r: Result<(), Fault>,
) -> bool {
    match expected {
        Ok(m) => r == Ok::<(), Fault>(()) && new == m,
        Err(f) => r == Err::<(), Fault>(f) && new == old,
    }
}

/// Jumps, calls, returns, skips, and the instructions that only move on.
spec fn is_control(ins: Instruction) -> bool {
    match ins {
        Instruction::ClearScreen
        | Instruction::Return
        | Instruction::Jump { .. }
        | Instruction::Call { .. }
        | Instruction::SkipIfEqImm { .. }
        | Instruction::SkipIfNeImm { .. }
        | Instruction::SkipIfEqReg { .. }
        | Instruction::SkipIfNeReg { .. }
        | Instruction::JumpOffset { .. }
        | Instruction::SkipIfKey { .. }
        | Instruction::SkipIfNotKey { .. }
        | Instruction::Unknown => true,
        _ => false,
    }
}

/// Instructions that set registers, I, or the timers.
spec fn is_registers(ins: Instruction) -> bool {
    match ins {
        Instruction::SetImm { .. }
        | Instruction::AddImm { .. }
        | Instruction::Alu { .. }
        | Instruction::SetIndex { .. }
        | Instruction::Random { .. }
        | Instruction::GetDelay { .. }
        | Instruction::WaitKey { .. }
        | Instruction::SetDelay { .. }
        | Instruction::SetSound { .. }
        | Instruction::AddIndex { .. }
        | Instruction::FontChar { .. } => true,
        _ => false,
    }
}

/// Instructions that read or write memory.
spec fn is_memory(ins: Instruction) -> bool {
    match ins {
        Instruction::Draw { .. }
        | Instruction::StoreBcd { .. }
        | Instruction::StoreRegs { .. }
        | Instruction::LoadRegs { .. } => true,
        _ => false,
    }
}

/// The big-endian opcode at PC.
pub open spec fn fetch_spec(m: Machine) -> u16 {
    (m.mem[m.pc as int] * 256 + m.mem[m.pc + 1]) as u16
}

/// The timers after one cycle: each counts down by one unless at zero, and
/// the beep signal goes up when the sound timer runs out from one.
pub open spec fn tick(m: Machine) -> Machine {
    Machine {
        delay: if m.delay > 0 {
            (m.delay - 1) as u8
        } else {
            0
        },
        sound: if m.sound > 0 {
            (m.sound - 1) as u8
        } else {
            0
        },
        beep: m.beep || m.sound == 1,
        ..m
    }
}

/// One fetch-decode-execute-timer cycle, with `random` as the byte drawn for
/// `Cxnn`. A PC from which no opcode can be fetched is a fault; so is any
/// fault of the instruction, and then nothing changes.
pub open spec fn step_spec(m: Machine, random: u8) -> Result<Machine, Fault> {
    if m.pc > 4094 {
        Err(Fault::MemoryOutOfBounds)
    } else {
        let op = fetch_spec(m);
        match exec_spec(m, decode_spec(op), random) {
            Ok(next) => Ok(tick(Machine { opcode: op, ..next })),
            Err(f) => Err(f),
        }
    }
}

/// Relies on `rand::random::<u8>`: a byte drawn from the thread-local
/// generator. Nothing is known of its value.
#[verifier::external_body]
fn random_byte() -> (r: u8) {
    rand::random::<u8>()
}

/// A CHIP-8 machine. The keypad and the framebuffer are the host's to write
/// and to read.
pub struct Cpu {
    i: u16,
    v: [u8; 16],
    pc: u16,
    sp: u16,
    stack: [u16; 16],
    mem: [u8; 4096],
    sound_timer: u8,
    delay_timer: u8,
    opcode: u16,
    beep: bool,
    pub key: Keypad,
    pub graphics: Graphics,
}

impl View for Cpu {
    type V = Machine;

    closed spec fn view(&self) -> Machine {
        Machine {
            mem: self.mem@,
            v: self.v@,
            i: self.i,
            pc: self.pc,
            sp: self.sp,
            stack: self.stack@,
            delay: self.delay_timer,
            sound: self.sound_timer,
            opcode: self.opcode,
            beep: self.beep,
            keys: self.key@,
            screen: self.graphics@,
        }
    }
}

/// The font as an array.
fn fontset() -> (r: [u8; 80])
    ensures
        r@ == font(),
{
    let r: [u8; 80] = [
        0xF0, 0x90, 0x90, 0x90, 0xF0, 0x20, 0x60, 0x20, 0x20, 0x70, 0xF0, 0x10, 0xF0, 0x80, 0xF0,
        0xF0, 0x10, 0xF0, 0x10, 0xF0, 0x90, 0x90, 0xF0, 0x10, 0x10, 0xF0, 0x80, 0xF0, 0x10, 0xF0,
        0xF0, 0x80, 0xF0, 0x90, 0xF0, 0xF0, 0x10, 0x20, 0x40, 0x40, 0xF0, 0x90, 0xF0, 0x90, 0xF0,
        0xF0, 0x90, 0xF0, 0x10, 0xF0, 0xF0, 0x90, 0xF0, 0x90, 0x90, 0xE0, 0x90, 0xE0, 0x90, 0xE0,
        0xF0, 0x80, 0x80, 0x80, 0xF0, 0xE0, 0x90, 0x90, 0x90, 0xE0, 0xF0, 0x80, 0xF0, 0x80, 0xF0,
        0xF0, 0x80, 0xF0, 0x80, 0x80,
    ];
    assert(r@ =~= font());
    r
}

impl Cpu {
    /// The well-formedness every public operation keeps.
    pub open spec fn wf(&self) -> bool {
        machine_ok(self@)
    }

    /// A machine at power-on: memory zeroed but for the font at
    /// `FONT_START`, registers and timers zero, PC and I at
    /// `PROGRAM_START`, keys up, framebuffer blank.
    pub fn new() -> (r: Cpu)
        ensures
            r.wf(),
            r@ == initial_machine(),
    {
        let mut mem = [0u8; 4096];
        let glyphs = fontset();
        let mut k: usize = 0;
        while k < 80
            invariant
                k <= 80,
                glyphs@ == font(),
                forall|a: int|
                    0 <= a < 4096 ==> #[trigger] mem@[a] == if FONT_START <= a < FONT_START + k {
                        font()[a - FONT_START]
                    } else {
                        0u8
                    },
            decreases 80 - k,
        {
            mem[0x50 + k] = glyphs[k];
            k = k + 1;
        }
        let r = Cpu {
            i: PROGRAM_START,
            v: [0; 16],
            pc: PROGRAM_START,
            sp: 0,
            stack: [0; 16],
            mem,
            sound_timer: 0,
            delay_timer: 0,
            opcode: 0,
            beep: false,
            key: Keypad::new(),
            graphics: Graphics::new(),
        };
        assert(r.mem@ =~= initial_memory());
        assert(r.v@ =~= Seq::new(16, |k: int| 0u8));
        assert(r.stack@ =~= Seq::new(16, |k: int| 0u16));
        r
    }

    /// Copy a ROM into memory from `PROGRAM_START` on. A ROM longer than
    /// `MAX_ROM_LEN` bytes does not fit: it is refused and nothing changes.
    pub fn load_game(&mut self, game: Vec<u8>) -> (r: Result<(), Fault>)
        requires
            old(self).wf(),
        ensures
            final(self).wf(),
            game@.len() > MAX_ROM_LEN ==> r == Err::<(), Fault>(Fault::RomTooLarge) && final(self)@
                == old(self)@,
            game@.len() <= MAX_ROM_LEN ==> r == Ok::<(), Fault>(()) && final(self)@ == (Machine {
                mem: with_rom(old(self)@.mem, game@),
                ..old(self)@
            }),
    {
        if game.len() > MAX_ROM_LEN {
            return Err(Fault::RomTooLarge);
        }
        let ghost old_mem = self.mem@;
        let mut mem = self.mem;
        let mut k: usize = 0;
        while k < game.len()
            invariant
                k <= game@.len() <= MAX_ROM_LEN,
                old_mem.len() == 4096,
                mem@.len() == 4096,
                forall|a: int|
                    0 <= a < 4096 ==> #[trigger] mem@[a] == if PROGRAM_START <= a < PROGRAM_START
                        + k {
                        game@[a - PROGRAM_START]
                    } else {
                        old_mem[a]
                    },
            decreases game@.len() - k,
        {
            mem[0x200 + k] = game[k];
            k = k + 1;
        }
        assert(mem@ =~= with_rom(old_mem, game@));
        self.mem = mem;
        Ok(())
    }

    /// Move on to the next instruction.
    fn advance_pc(&mut self)
        ensures
            final(self)@ == advance(old(self)@),
    {
        self.pc = self.pc.wrapping_add(2);
    }

    /// `Fx1E`: I := I + Vx, wrapping at 16 bits; VF := whether the sum
    /// passes 0xFFF.
    fn op_add_index(&mut self, x: u8)
        requires
            old(self).wf(),
            x < 16,
        ensures
            final(self).wf(),
            exec_spec(old(self)@, Instruction::AddIndex { x }, 0) == Ok::<Machine, Fault>(
                final(self)@,
            ),
    {
        let vx = self.v[x as usize] as u16;
        self.v[15] = if self.i as u32 + vx as u32 > 0x0fff {
            1
        } else {
            0
        };
        self.i = self.i.wrapping_add(vx);
        self.advance_pc();
    }

    /// Move on past the next instruction if `cond`, else to it.
    fn skip_next(&mut self, cond: bool)
        ensures
            final(self)@ == skip_if(old(self)@, cond),
    {
        self.pc = if cond {
            self.pc.wrapping_add(4)
        } else {
            self.pc.wrapping_add(2)
        };
    }

    /// `00EE`: pop a return address and go to the instruction after the call.
    fn op_return(&mut self) -> (r: Result<(), Fault>)
        requires
            old(self).wf(),
        ensures
            final(self).wf(),
            outcome_is(old(self)@, final(self)@, exec_spec(old(self)@, Instruction::Return, 0), r),
    {
        if self.sp == 0 {
            return Err(Fault::StackUnderflow);
        }
        self.sp = self.sp - 1;
        self.pc = self.stack[self.sp as usize].wrapping_add(2);
        Ok(())
    }

    /// `2nnn`: push PC and jump to `nnn`.
    fn op_call(&mut self, nnn: u16) -> (r: Result<(), Fault>)
        requires
            old(self).wf(),
        ensures
            final(self).wf(),
            outcome_is(
                old(self)@,
                final(self)@,
                exec_spec(old(self)@, Instruction::Call { nnn }, 0),
                r,
            ),
    {
        if self.sp >= 16 {
            return Err(Fault::StackOverflow);
        }
        self.stack[self.sp as usize] = self.pc;
        self.sp = self.sp + 1;
        self.pc = nnn;
        Ok(())
    }

    /// `8xyN`: a register-to-register operation.
    fn op_alu(&mut self, op: AluOp, x: u8, y: u8)
        requires
            old(self).wf(),
            x < 16,
            y < 16,
        ensures
            final(self).wf(),
            exec_spec(old(self)@, Instruction::Alu { op, x, y }, 0) == Ok::<Machine, Fault>(
                final(self)@,
            ),
    {
        let (res, flag) = alu(op, self.v[x as usize], self.v[y as usize]);
        self.v[x as usize] = res;
        match flag {
            Some(f) => {
                self.v[15] = f;
            },
            None => {},
        }
        self.advance_pc();
    }

    /// `Dxyn`: draw the `n`-row sprite at I at `(Vx, Vy)`; VF := collision.
    fn op_draw(&mut self, x: u8, y: u8, n: u8) -> (r: Result<(), Fault>)
        requires
            old(self).wf(),
            x < 16,
            y < 16,
            n < 16,
        ensures
            final(self).wf(),
            outcome_is(
                old(self)@,
                final(self)@,
                exec_spec(old(self)@, Instruction::Draw { x, y, n }, 0),
                r,
            ),
    {
        let vx = self.v[x as usize] as usize;
        let vy = self.v[y as usize] as usize;
        match self.graphics.update(vx, vy, n, self.i, &self.mem) {
            Ok(collision) => {
                self.v[15] = if collision {
                    1
                } else {
                    0
                };
                self.advance_pc();
                Ok(())
            },
            Err(e) => Err(e),
        }
    }

    /// `Fx0A`: if a key is down, put the highest such key in Vx and move on;
    /// otherwise stay on this instruction, to run it again next cycle.
    fn op_wait_key(&mut self, x: u8)
        requires
            old(self).wf(),
            x < 16,
        ensures
            final(self).wf(),
            exec_spec(old(self)@, Instruction::WaitKey { x }, 0) == Ok::<Machine, Fault>(
                final(self)@,
            ),
    {
        let mut pressed: Option<u8> = None;
        let mut k: u8 = 0;
        while k < 16
            invariant
                k <= 16,
                pressed == last_pressed(self.key@, k as int),
            decreases 16 - k,
        {
            if self.key.is_pressed(k as usize) {
                pressed = Some(k);
            }
            k = k + 1;
        }
        match pressed {
            Some(key) => {
                self.v[x as usize] = key;
                self.advance_pc();
            },
            None => {},
        }
    }

    /// `Fx33`: store the decimal digits of Vx at I, I + 1, I + 2.
    fn op_bcd(&mut self, x: u8) -> (r: Result<(), Fault>)
        requires
            old(self).wf(),
            x < 16,
        ensures
            final(self).wf(),
            outcome_is(
                old(self)@,
                final(self)@,
                exec_spec(old(self)@, Instruction::StoreBcd { x }, 0),
                r,
            ),
    {
        let i = self.i as usize;
        if i + 2 >= 4096 {
            return Err(Fault::MemoryOutOfBounds);
        }
        let b = self.v[x as usize];
        self.mem[i] = b / 100;
        self.mem[i + 1] = (b / 10) % 10;
        self.mem[i + 2] = b % 10;
        self.advance_pc();
        Ok(())
    }

    /// `Fx55`: store V0..=Vx at I..=I + x, then I := I + x + 1.
    fn op_store_registers(&mut self, x: u8) -> (r: Result<(), Fault>)
        requires
            old(self).wf(),
            x < 16,
        ensures
            final(self).wf(),
            outcome_is(
                old(self)@,
                final(self)@,
                exec_spec(old(self)@, Instruction::StoreRegs { x }, 0),
                r,
            ),
    {
        let base = self.i as usize;
        if base + x as usize >= 4096 {
            return Err(Fault::MemoryOutOfBounds);
        }
        let ghost old_mem = self.mem@;
        let mut mem = self.mem;
        let mut k: usize = 0;
        while k <= x as usize
            invariant
                x < 16,
                base + x < 4096,
                k <= x + 1,
                old_mem.len() == 4096,
                mem@.len() == 4096,
                self.v@.len() == 16,
                forall|a: int|
                    0 <= a < 4096 ==> #[trigger] mem@[a] == if base <= a < base + k {
                        self.v@[a - base]
                    } else {
                        old_mem[a]
                    },
            decreases x + 1 - k,
        {
            mem[base + k] = self.v[k];
            k = k + 1;
        }
        assert(mem@ =~= stored_registers(old_mem, self.v@, base as int, x as int));
        self.mem = mem;
        self.i = self.i + x as u16 + 1;
        self.advance_pc();
        Ok(())
    }

    /// `Fx65`: load V0..=Vx from I..=I + x, then I := I + x + 1.
    fn op_load_registers(&mut self, x: u8) -> (r: Result<(), Fault>)
        requires
            old(self).wf(),
            x < 16,
        ensures
            final(self).wf(),
            outcome_is(
                old(self)@,
                final(self)@,
                exec_spec(old(self)@, Instruction::LoadRegs { x }, 0),
                r,
            ),
    {
        let base = self.i as usize;
        if base + x as usize >= 4096 {
            return Err(Fault::MemoryOutOfBounds);
        }
        let ghost old_v = self.v@;
        let mut v = self.v;
        let mut k: usize = 0;
        while k <= x as usize
            invariant
                x < 16,
                base + x < 4096,
                k <= x + 1,
                old_v.len() == 16,
                v@.len() == 16,
                self.mem@.len() == 4096,
                forall|r: int|
                    0 <= r < 16 ==> #[trigger] v@[r] == if r < k {
                        self.mem@[base + r]
                    } else {
                        old_v[r]
                    },
            decreases x + 1 - k,
        {
            v[k] = self.mem[base + k];
            k = k + 1;
        }
        assert(v@ =~= loaded_registers(old_v, self.mem@, base as int, x as int));
        self.v = v;
        self.i = self.i + x as u16 + 1;
        self.advance_pc();
        Ok(())
    }

    /// Control flow: jumps, calls, returns and skips, and the instructions
    /// that only move on.
    fn exec_control(&mut self, ins: Instruction) -> (r: Result<(), Fault>)
        requires
            old(self).wf(),
            operands_in_range(ins),
            is_control(ins),
        ensures
            final(self).wf(),
            outcome_is(old(self)@, final(self)@, exec_spec(old(self)@, ins, 0), r),
    {
        match ins {
            Instruction::ClearScreen => {
                self.graphics.clear();
                self.advance_pc();
                Ok(())
            },
            Instruction::Return => self.op_return(),
            Instruction::Jump { nnn } => {
                self.pc = nnn;
                Ok(())
            },
            Instruction::Call { nnn } => self.op_call(nnn),
            Instruction::SkipIfEqImm { x, nn } => {
                self.skip_next(self.v[x as usize] == nn);
                Ok(())
            },
            Instruction::SkipIfNeImm { x, nn } => {
                self.skip_next(self.v[x as usize] != nn);
                Ok(())
            },
            Instruction::SkipIfEqReg { x, y } => {
                self.skip_next(self.v[x as usize] == self.v[y as usize]);
                Ok(())
            },
            Instruction::SkipIfNeReg { x, y } => {
                self.skip_next(self.v[x as usize] != self.v[y as usize]);
                Ok(())
            },
            Instruction::JumpOffset { nnn } => {
                self.pc = self.v[0] as u16 + nnn;
                Ok(())
            },
            Instruction::SkipIfKey { x } => {
                let k = self.v[x as usize];
                let down = k < 16 && self.key.is_pressed(k as usize);
                self.skip_next(down);
                Ok(())
            },
            Instruction::SkipIfNotKey { x } => {
                let k = self.v[x as usize];
                let down = k < 16 && self.key.is_pressed(k as usize);
                self.skip_next(!down);
                Ok(())
            },
            Instruction::Unknown => {
                self.advance_pc();
                Ok(())
            },
            _ => Ok(()),
        }
    }

    /// Instructions that set registers, I, or the timers.
    fn exec_registers(&mut self, ins: Instruction, random: u8) -> (r: Result<(), Fault>)
        requires
            old(self).wf(),
            operands_in_range(ins),
            is_registers(ins),
        ensures
            final(self).wf(),
            outcome_is(old(self)@, final(self)@, exec_spec(old(self)@, ins, random), r),
    {
        match ins {
            Instruction::SetImm { x, nn } => {
                self.v[x as usize] = nn;
                self.advance_pc();
                Ok(())
            },
            Instruction::AddImm { x, nn } => {
                self.v[x as usize] = self.v[x as usize].wrapping_add(nn);
                self.advance_pc();
                Ok(())
            },
            Instruction::Alu { op, x, y } => {
                self.op_alu(op, x, y);
                Ok(())
            },
            Instruction::SetIndex { nnn } => {
                self.i = nnn;
                self.advance_pc();
                Ok(())
            },
            Instruction::Random { x, nn } => {
                self.v[x as usize] = random & nn;
                self.advance_pc();
                Ok(())
            },
            Instruction::GetDelay { x } => {
                self.v[x as usize] = self.delay_timer;
                self.advance_pc();
                Ok(())
            },
            Instruction::WaitKey { x } => {
                self.op_wait_key(x);
                Ok(())
            },
            Instruction::SetDelay { x } => {
                self.delay_timer = self.v[x as usize];
                self.advance_pc();
                Ok(())
            },
            Instruction::SetSound { x } => {
                self.sound_timer = self.v[x as usize];
                self.advance_pc();
                Ok(())
            },
            Instruction::AddIndex { x } => {
                self.op_add_index(x);
                Ok(())
            },
            Instruction::FontChar { x } => {
                self.i = self.v[x as usize] as u16 * 5 + FONT_START;
                self.advance_pc();
                Ok(())
            },
            _ => Ok(()),
        }
    }

    /// Instructions that read or write memory.
    fn exec_memory(&mut self, ins: Instruction) -> (r: Result<(), Fault>)
        requires
            old(self).wf(),
            operands_in_range(ins),
            is_memory(ins),
        ensures
            final(self).wf(),
            outcome_is(old(self)@, final(self)@, exec_spec(old(self)@, ins, 0), r),
    {
        match ins {
            Instruction::Draw { x, y, n } => self.op_draw(x, y, n),
            Instruction::StoreBcd { x } => self.op_bcd(x),
            Instruction::StoreRegs { x } => self.op_store_registers(x),
            Instruction::LoadRegs { x } => self.op_load_registers(x),
            _ => Ok(()),
        }
    }

    /// Run one decoded instruction. `random` is the byte that `Cxnn` masks;
    /// no other instruction reads it.
    pub fn execute(&mut self, ins: Instruction, random: u8) -> (r: Result<(), Fault>)
        requires
            old(self).wf(),
            operands_in_range(ins),
        ensures
            final(self).wf(),
            outcome_is(old(self)@, final(self)@, exec_spec(old(self)@, ins, random), r),
    {
        match ins {
            Instruction::ClearScreen
            | Instruction::Return
            | Instruction::Jump { .. }
            | Instruction::Call { .. }
            | Instruction::SkipIfEqImm { .. }
            | Instruction::SkipIfNeImm { .. }
            | Instruction::SkipIfEqReg { .. }
            | Instruction::SkipIfNeReg { .. }
            | Instruction::JumpOffset { .. }
            | Instruction::SkipIfKey { .. }
            | Instruction::SkipIfNotKey { .. }
            | Instruction::Unknown => self.exec_control(ins),
            Instruction::Draw { .. }
            | Instruction::StoreBcd { .. }
            | Instruction::StoreRegs { .. }
            | Instruction::LoadRegs { .. } => self.exec_memory(ins),
            _ => self.exec_registers(ins, random),
        }
    }

    /// Count the timers down and raise the beep signal when the sound timer
    /// runs out.
    fn tick_timers(&mut self)
        requires
            old(self).wf(),
        ensures
            final(self).wf(),
            final(self)@ == tick(old(self)@),
    {
        if self.delay_timer > 0 {
            self.delay_timer = self.delay_timer - 1;
        }
        if self.sound_timer > 0 {
            if self.sound_timer == 1 {
                self.beep = true;
            }
            self.sound_timer = self.sound_timer - 1;
        }
    }

    /// One fetch-decode-execute-timer cycle, with `random` as the byte that a
    /// `Cxnn` instruction masks.
    pub fn emulate_cycle_with(&mut self, random: u8) -> (r: Result<(), Fault>)
        requires
            old(self).wf(),
        ensures
            final(self).wf(),
            outcome_is(old(self)@, final(self)@, step_spec(old(self)@, random), r),
    {
        if self.pc > 4094 {
            return Err(Fault::MemoryOutOfBounds);
        }
        let pc = self.pc as usize;
        let hi = self.mem[pc];
        let lo = self.mem[pc + 1];
        let op: u16 = (hi as u16) << 8 | lo as u16;
        assert(((hi as u16) << 8u16) | (lo as u16) == (hi * 256 + lo) as u16) by (bit_vector);
        let ins = decode(op);
        proof {
            lemma_decode_in_range(op);
        }
        match self.execute(ins, random) {
            Ok(()) => {
                self.opcode = op;
                self.tick_timers();
                Ok(())
            },
            Err(e) => Err(e),
        }
    }

    /// One fetch-decode-execute-timer cycle, drawing a random byte for
    /// `Cxnn`. Whatever byte was drawn, the outcome is that of
    /// [`Cpu::emulate_cycle_with`] on it.
    pub fn emulate_cycle(&mut self) -> (r: Result<(), Fault>)
        requires
            old(self).wf(),
        ensures
            final(self).wf(),
            exists|random: u8| outcome_is(old(self)@, final(self)@, step_spec(old(self)@, random), r),
    {
        let random = random_byte();
        self.emulate_cycle_with(random)
    }

    /// Take the beep signal: whether the sound timer ran out since it was
    /// last taken. Taking it lowers it.
    pub fn take_beep(&mut self) -> (r: bool)
        requires
            old(self).wf(),
        ensures
            final(self).wf(),
            r == old(self)@.beep,
            final(self)@ == (Machine { beep: false, ..old(self)@ }),
    {
        let r = self.beep;
        self.beep = false;
        r
    }

    /// Whether the machine is held at a wait-for-key instruction (`Fx0A`)
    /// with no key down: the next cycle will not move PC on.
    pub fn is_waiting_for_key(&self) -> (r: bool)
        requires
            self.wf(),
        ensures
            r == (self@.pc <= 4094 && decode_spec(fetch_spec(self@)) is WaitKey && last_pressed(
                self@.keys,
                16,
            ) is None),
    {
        if self.pc > 4094 {
            return false;
        }
        let pc = self.pc as usize;
        let hi = self.mem[pc];
        let lo = self.mem[pc + 1];
        let op: u16 = (hi as u16) << 8 | lo as u16;
        assert(((hi as u16) << 8u16) | (lo as u16) == (hi * 256 + lo) as u16) by (bit_vector);
        match decode(op) {
            Instruction::WaitKey { .. } => {
                let mut k: usize = 0;
                while k < 16
                    invariant
                        k <= 16,
                        self@.keys.len() == 16,
                        last_pressed(self@.keys, k as int) is None,
                    decreases 16 - k,
                {
                    if self.key.is_pressed(k) {
                        proof {
                            lemma_pressed_found(self@.keys, k as int, 16);
                        }
                        return false;
                    }
                    k = k + 1;
                }
                true
            },
            _ => false,
        }
    }

    /// Press key `index` down (`down`) or let it up; nothing else changes.
    pub fn set_key(&mut self, index: usize, down: bool)
        requires
            old(self).wf(),
            index < 16,
        ensures
            final(self).wf(),
            final(self)@.keys[index as int] == down,
            final(self)@ == (Machine {
                keys: old(self)@.keys.update(index as int, down),
                ..old(self)@
            }),
    {
        if down {
            self.key.set(index);
        } else {
            self.key.reset(index);
        }
    }

    /// Whether key `index` is down.
    pub fn is_key_down(&self, index: usize) -> (r: bool)
        requires
            index < 16,
        ensures
            r == self@.keys[index as int],
    {
        self.key.is_pressed(index)
    }

    /// The framebuffer as it stands: all pixels, row-major, and whether any
    /// changed since the host last took a frame.
    pub fn framebuffer_snapshot(&self) -> (r: ([bool; 2048], bool))
        ensures
            r.0@ == self@.screen.pixels,
            r.1 == self@.screen.dirty,
    {
        (self.graphics.pixels(), self.graphics.is_dirty())
    }

    /// Take a frame to show: the pixels if any changed since the last frame
    /// taken (which clears the dirty flag), `None` if nothing changed.
    pub fn take_frame(&mut self) -> (r: Option<[bool; 2048]>)
        requires
            old(self).wf(),
        ensures
            final(self).wf(),
            r is Some <==> old(self)@.screen.dirty,
            r matches Some(f) ==> f@ == old(self)@.screen.pixels,
            final(self)@ == (Machine {
                screen: Frame { pixels: old(self)@.screen.pixels, dirty: false },
                ..old(self)@
            }),
    {
        self.graphics.draw()
    }

    /// The program counter.
    pub fn pc(&self) -> (r: u16)
        ensures
            r == self@.pc,
    {
        self.pc
    }

    /// The index register I.
    pub fn index(&self) -> (r: u16)
        ensures
            r == self@.i,
    {
        self.i
    }

    /// Register Vx.
    pub fn register(&self, x: usize) -> (r: u8)
        requires
            x < 16,
        ensures
            r == self@.v[x as int],
    {
        self.v[x]
    }

    /// The byte at `addr`.
    pub fn memory(&self, addr: usize) -> (r: u8)
        requires
            addr < 4096,
        ensures
            r == self@.mem[addr as int],
    {
        self.mem[addr]
    }

    /// How many return addresses are on the stack.
    pub fn stack_depth(&self) -> (r: u16)
        ensures
            r == self@.sp,
    {
        self.sp
    }

    /// The delay timer.
    pub fn delay_timer(&self) -> (r: u8)
        ensures
            r == self@.delay,
    {
        self.delay_timer
    }

    /// The sound timer.
    pub fn sound_timer(&self) -> (r: u8)
        ensures
            r == self@.sound,
    {
        self.sound_timer
    }

    /// The last opcode fetched and run.
    pub fn opcode(&self) -> (r: u16)
        ensures
            r == self@.opcode,
    {
        self.opcode
    }
}

/// Instructions that neither jump, call, return, skip nor wait.
pub open spec fn is_straight_line(ins: Instruction) -> bool {
    match ins {
        Instruction::ClearScreen
        | Instruction::SetImm { .. }
        | Instruction::AddImm { .. }
        | Instruction::Alu { .. }
        | Instruction::SetIndex { .. }
        | Instruction::Random { .. }
        | Instruction::Draw { .. }
        | Instruction::GetDelay { .. }
        | Instruction::SetDelay { .. }
        | Instruction::SetSound { .. }
        | Instruction::AddIndex { .. }
        | Instruction::FontChar { .. }
        | Instruction::StoreBcd { .. }
        | Instruction::StoreRegs { .. }
        | Instruction::LoadRegs { .. }
        | Instruction::Unknown => true,
        _ => false,
    }
}

/// For a skip instruction, whether its condition holds in `m`; `None` for
/// any other instruction.
pub open spec fn skip_condition(m: Machine, ins: Instruction) -> Option<bool> {
    match ins {
        Instruction::SkipIfEqImm { x, nn } => Some(m.v[x as int] == nn),
        Instruction::SkipIfNeImm { x, nn } => Some(m.v[x as int] != nn),
        Instruction::SkipIfEqReg { x, y } => Some(m.v[x as int] == m.v[y as int]),
        Instruction::SkipIfNeReg { x, y } => Some(m.v[x as int] != m.v[y as int]),
        Instruction::SkipIfKey { x } => Some(key_down(m.keys, m.v[x as int])),
        Instruction::SkipIfNotKey { x } => Some(!key_down(m.keys, m.v[x as int])),
        _ => None,
    }
}

/// After a cycle that completes, PC has moved on by exactly two for a
/// straight-line instruction, by four for a skip whose condition held, and by
/// two for a skip whose condition did not.
pub proof fn lemma_pc_advance(m: Machine, random: u8)
    requires
        machine_ok(m),
        step_spec(m, random) is Ok,
    ensures
        ({
            let ins = decode_spec(fetch_spec(m));
            let next = step_spec(m, random)->Ok_0;
            &&& is_straight_line(ins) ==> next.pc == m.pc + 2
            &&& skip_condition(m, ins) == Some(true) ==> next.pc == m.pc + 4
            &&& skip_condition(m, ins) == Some(false) ==> next.pc == m.pc + 2
        }),
{
}

/// Running one instruction moves the 16-bit PC on by two for a
/// straight-line instruction, by four for a skip whose condition holds, and by
/// two for a skip whose condition does not; from any PC an opcode can be
/// fetched from, that is exactly `pc + 2` or `pc + 4`.
pub proof fn lemma_execute_pc_advance(m: Machine, ins: Instruction, random: u8)
    requires
        machine_ok(m),
        operands_in_range(ins),
    ensures
        exec_spec(m, ins, random) is Ok ==> ({
            let next = exec_spec(m, ins, random)->Ok_0;
            &&& is_straight_line(ins) ==> next.pc == pc_plus(m.pc, 2)
            &&& skip_condition(m, ins) == Some(true) ==> next.pc == pc_plus(m.pc, 4)
            &&& skip_condition(m, ins) == Some(false) ==> next.pc == pc_plus(m.pc, 2)
            &&& m.pc <= 4094 && is_straight_line(ins) ==> next.pc == m.pc + 2
            &&& m.pc <= 4094 && skip_condition(m, ins) == Some(true) ==> next.pc == m.pc + 4
            &&& m.pc <= 4094 && skip_condition(m, ins) == Some(false) ==> next.pc == m.pc + 2
        }),
        is_straight_line(ins) || skip_condition(m, ins) is Some ==> (exec_spec(m, ins, random) is Ok
            <== match ins {
            Instruction::Draw { n, .. } => n == 0 || m.i + n <= 4096,
            Instruction::StoreBcd { .. } => m.i + 2 < 4096,
            Instruction::StoreRegs { x } | Instruction::LoadRegs { x } => m.i + x < 4096,
            _ => true,
        }),
{
}

/// `8xy4` leaves `(Vx + Vy) mod 256` in Vx and sets VF to 1 exactly when the
/// sum passes 255; `7xnn` leaves `(Vx + nn) mod 256` in Vx and keeps VF.
/// (With Vx = VF itself the flag overwrites the sum, so VF is left out.)
pub proof fn lemma_add_wraps(m: Machine, x: u8, y: u8, nn: u8)
    requires
        machine_ok(m),
        x < 15,
        y < 16,
    ensures
        ({
            let sum = m.v[x as int] + m.v[y as int];
            let n = exec_spec(m, Instruction::Alu { op: AluOp::Add, x, y }, 0)->Ok_0;
            &&& exec_spec(m, Instruction::Alu { op: AluOp::Add, x, y }, 0) is Ok
            &&& n.v[x as int] == sum % 256
            &&& n.v[15] == (if sum > 255 { 1u8 } else { 0u8 })
        }),
        ({
            let n = exec_spec(m, Instruction::AddImm { x, nn }, 0)->Ok_0;
            &&& exec_spec(m, Instruction::AddImm { x, nn }, 0) is Ok
            &&& n.v[x as int] == (m.v[x as int] + nn) % 256
            &&& n.v[15] == m.v[15]
        }),
{
}

/// `8xy5` leaves `(Vx - Vy) mod 256` in Vx and `8xy7` leaves
/// `(Vy - Vx) mod 256`; each sets VF to 1 exactly when the subtraction does
/// not borrow, and to 0 when it does. (With Vx = VF itself the flag
/// overwrites the difference, so VF is left out.)
pub proof fn lemma_sub_borrow(m: Machine, x: u8, y: u8)
    requires
        machine_ok(m),
        x < 15,
        y < 16,
    ensures
        ({
            let a = m.v[x as int];
            let b = m.v[y as int];
            let n = exec_spec(m, Instruction::Alu { op: AluOp::Sub, x, y }, 0)->Ok_0;
            &&& exec_spec(m, Instruction::Alu { op: AluOp::Sub, x, y }, 0) is Ok
            &&& n.v[x as int] == (a - b) % 256
            &&& n.v[15] == (if a >= b { 1u8 } else { 0u8 })
        }),
        ({
            let a = m.v[x as int];
            let b = m.v[y as int];
            let n = exec_spec(m, Instruction::Alu { op: AluOp::SubReverse, x, y }, 0)->Ok_0;
            &&& exec_spec(m, Instruction::Alu { op: AluOp::SubReverse, x, y }, 0) is Ok
            &&& n.v[x as int] == (b - a) % 256
            &&& n.v[15] == (if b >= a { 1u8 } else { 0u8 })
        }),
{
}

/// `Fx33` writes the hundreds, tens and ones of Vx at I, I + 1 and I + 2:
/// three decimal digits that give Vx back.
pub proof fn lemma_bcd(m: Machine, x: u8)
    requires
        machine_ok(m),
        x < 16,
        m.i + 2 < 4096,
    ensures
        ({
            let b = m.v[x as int];
            let n = exec_spec(m, Instruction::StoreBcd { x }, 0)->Ok_0;
            let d = n.mem.subrange(m.i as int, m.i + 3);
            &&& exec_spec(m, Instruction::StoreBcd { x }, 0) is Ok
            &&& d == bcd_digits(b)
            &&& d[0] < 10 && d[1] < 10 && d[2] < 10
            &&& d[0] * 100 + d[1] * 10 + d[2] == b
        }),
{
    let n = exec_spec(m, Instruction::StoreBcd { x }, 0)->Ok_0;
    assert(n.mem.subrange(m.i as int, m.i + 3) =~= bcd_digits(m.v[x as int]));
}

/// Storing V0..=Vx at I (`Fx55`) and then loading the same count back from
/// the same base (`Fx65`) gives every register back as it was; each of the
/// two moves I on by x + 1.
pub proof fn lemma_store_load_round_trip(m: Machine, x: u8)
    requires
        machine_ok(m),
        x < 16,
        m.i + x < 4096,
    ensures
        ({
            let stored = exec_spec(m, Instruction::StoreRegs { x }, 0)->Ok_0;
            let back = Machine { i: m.i, ..stored };
            let loaded = exec_spec(back, Instruction::LoadRegs { x }, 0)->Ok_0;
            &&& exec_spec(m, Instruction::StoreRegs { x }, 0) is Ok
            &&& exec_spec(back, Instruction::LoadRegs { x }, 0) is Ok
            &&& stored.i == m.i + x + 1
            &&& loaded.i == m.i + x + 1
            &&& loaded.v == m.v
        }),
{
    let stored = exec_spec(m, Instruction::StoreRegs { x }, 0)->Ok_0;
    let back = Machine { i: m.i, ..stored };
    let loaded = exec_spec(back, Instruction::LoadRegs { x }, 0)->Ok_0;
    assert(loaded.v =~= m.v);
}

} // verus!
