//! The meaning of the instructions: what each of them makes of a machine state.
//!
//! An instruction is given by its four hexadecimal digits `(n0, n1, n2, n3)`. In the
//! patterns below `x` stands for `n1` and `y` for `n2` where they name registers, `NN` for
//! the byte `n2 n3` and `NNN` for the address `n1 n2 n3`.

use crate::program::Fault;
use crate::system::{
    cleared, latest_pressed, read, KeyboardView, MachineState, RegistersView, Status, TimerView,
    DISPLAY_START, FONT_START, MEMORY_SIZE, NO_KEY, PROGRAM_START, SCREEN_HEIGHT, SCREEN_WIDTH,
};
use vstd::prelude::*;

verus! {

/// The four hexadecimal digits of an instruction word, most significant first.
pub type Digits = (u8, u8, u8, u8);

/// The digits of `word`.
pub open spec fn decode(word: u16) -> Digits {
    ((word / 0x1000) as u8, (word / 0x100 % 0x10) as u8, (word / 0x10 % 0x10) as u8, (word
        % 0x10) as u8)
}

/// The word with the digits `op`.
pub open spec fn encode(op: Digits) -> int {
    0x1000 * op.0 + 0x100 * op.1 + 0x10 * op.2 + op.3
}

/// Each digit is below sixteen.
pub open spec fn digits_wf(op: Digits) -> bool {
    op.0 < 16 && op.1 < 16 && op.2 < 16 && op.3 < 16
}

/// The byte `NN` of an instruction.
pub open spec fn operand_byte(op: Digits) -> u8 {
    (0x10 * op.2 + op.3) as u8
}

/// The address `NNN` of an instruction.
pub open spec fn operand_address(op: Digits) -> u16 {
    (0x100 * op.1 + 0x10 * op.2 + op.3) as u16
}

/// Whether `op` is an instruction of the machine.
pub open spec fn recognized(op: Digits) -> bool {
    let (n0, n1, n2, n3) = op;
    if n0 <= 4 || n0 == 6 || n0 == 7 || (0xA <= n0 <= 0xD) {
        true
    } else if n0 == 5 || n0 == 9 {
        n3 == 0
    } else if n0 == 8 {
        n3 <= 7 || n3 == 0xE
    } else if n0 == 0xE {
        (n2 == 0x9 && n3 == 0xE) || (n2 == 0xA && n3 == 0x1)
    } else if n0 == 0xF {
        ||| (n2 == 0x0 && n3 == 0x7)
        ||| (n2 == 0x0 && n3 == 0xA)
        ||| (n2 == 0x1 && n3 == 0x5)
        ||| (n2 == 0x1 && n3 == 0x8)
        ||| (n2 == 0x1 && n3 == 0xE)
        ||| (n2 == 0x2 && n3 == 0x9)
        ||| (n2 == 0x3 && n3 == 0x3)
        ||| (n2 == 0x5 && n3 == 0x5)
        ||| (n2 == 0x6 && n3 == 0x5)
    } else {
        false
    }
}

/// Whether `op`, executed in state `s`, skips the instruction that follows it.
pub open spec fn skips(s: MachineState, op: Digits) -> bool {
    let (n0, x, y, n3) = op;
    if n0 == 3 {
        s.v(x as int) == operand_byte(op)
    } else if n0 == 4 {
        s.v(x as int) != operand_byte(op)
    } else if n0 == 5 && n3 == 0 {
        s.v(x as int) == s.v(y as int)
    } else if n0 == 9 && n3 == 0 {
        s.v(x as int) != s.v(y as int)
    } else if n0 == 0xE && y == 0x9 && n3 == 0xE {
        s.keyboard.get(s.v(x as int) as int)
    } else if n0 == 0xE && y == 0xA && n3 == 0x1 {
        !s.keyboard.get(s.v(x as int) as int)
    } else {
        false
    }
}

/// Whether `op`, executed in state `s`, waits for a key: it is `F x 0 A` and no key was
/// pressed, so that the same instruction is fetched again in the next cycle.
pub open spec fn waits(s: MachineState, op: Digits) -> bool {
    op.0 == 0xF && op.2 == 0x0 && op.3 == 0xA && s.keyboard.latest == NO_KEY
}

/// Whether the program counter that `op` leaves behind in state `s` fits into its 16 bits.
pub open spec fn counter_fits(s: MachineState, op: Digits) -> bool {
    &&& skips(s, op) ==> s.pc + 2 <= u16::MAX
    &&& waits(s, op) ==> s.pc >= 2
}

impl MachineState {
    /// The state with the program counter at `target`.
    pub open spec fn jump(self, target: u16) -> MachineState {
        MachineState { pc: target, ..self }
    }

    /// The state with `val` in `V[x]`.
    pub open spec fn set_v(self, x: int, val: u8) -> MachineState {
        MachineState { registers: self.registers.set(x, val), ..self }
    }

    /// The state with the registers `registers`.
    pub open spec fn set_registers(self, registers: RegistersView) -> MachineState {
        MachineState { registers, ..self }
    }

    /// The state with `val` in `I`.
    pub open spec fn set_i(self, val: u16) -> MachineState {
        MachineState { registers: self.registers.set_i(val), ..self }
    }

    /// The state with the memory `memory`.
    pub open spec fn set_memory(self, memory: Seq<u8>) -> MachineState {
        MachineState { memory, ..self }
    }
}

/// `1` for `true`, `0` for `false`: the value that a condition leaves in the flag register.
pub open spec fn flag(b: bool) -> u8 {
    if b {
        1
    } else {
        0
    }
}

/// Family `8 x y n`: arithmetic and logic on `V[x]` and `V[y]`. Where an instruction
/// writes both the flag and `V[x]`, the flag is written first: where `x` is `F`, the value
/// replaces the flag.
pub open spec fn arithmetic_spec(r: RegistersView, x: u8, y: u8, n: u8) -> RegistersView {
    let vx = r.get(x as int);
    let vy = r.get(y as int);
    if n == 0 {
        r.set(x as int, vy)
    } else if n == 1 {
        r.set(x as int, vx | vy)
    } else if n == 2 {
        r.set(x as int, vx & vy)
    } else if n == 3 {
        r.set(x as int, vx ^ vy)
    } else if n == 4 {
        // sum with carry
        r.set_flag(flag(vx + vy >= 0x100)).set(x as int, ((vx + vy) % 0x100) as u8)
    } else if n == 5 {
        // difference; the flag is set where nothing is borrowed
        r.set_flag(flag(vx >= vy)).set(x as int, ((0x100 + vx - vy) % 0x100) as u8)
    } else if n == 6 {
        // shift to the right; the flag is bit 0 of the register's index, not of its value
        r.set_flag(x % 2).set(x as int, vx / 2)
    } else if n == 7 {
        // reversed difference; the flag is set where nothing is borrowed
        r.set_flag(flag(vy >= vx)).set(x as int, ((0x100 + vy - vx) % 0x100) as u8)
    } else {
        // shift to the left; the flag is bit 7 of the register's index, not of its value
        r.set_flag(x / 0x80).set(x as int, ((2 * vx) % 0x100) as u8)
    }
}

/// The sprite row `sprite` moved `shift` pixels to the right: the part that stays in the
/// display byte where the row starts.
pub open spec fn left_part(sprite: u8, shift: u8) -> u8 {
    sprite >> shift
}

/// The sprite row `sprite` moved `shift` pixels to the right: the part that reaches into
/// the next display byte.
pub open spec fn right_part(sprite: u8, shift: u8) -> u8 {
    if shift == 0 {
        0
    } else {
        sprite << ((8 - shift) as u8)
    }
}

/// Address of the display byte that holds the pixel `(x, y)`.
pub open spec fn row_address(x: u8, y: u8) -> int {
    DISPLAY_START + 8 * y + x / 8
}

/// Whether a sprite row drawn at `(x, y)` reaches into a second display byte of the same
/// display row. What would reach beyond the right edge is clipped.
pub open spec fn has_right_byte(x: u8) -> bool {
    x / 8 < 7
}

/// The memory after the sprite row `sprite` was drawn with its leftmost pixel at `(x, y)`:
/// its pixels are XORed onto the display.
pub open spec fn draw_row(mem: Seq<u8>, x: u8, y: u8, sprite: u8) -> Seq<u8> {
    let a = row_address(x, y);
    let left = mem.update(a, mem[a] ^ left_part(sprite, x % 8));
    if has_right_byte(x) {
        left.update(a + 1, mem[a + 1] ^ right_part(sprite, x % 8))
    } else {
        left
    }
}

/// Whether drawing the sprite row `sprite` at `(x, y)` resets a pixel that was set.
pub open spec fn row_collides(mem: Seq<u8>, x: u8, y: u8, sprite: u8) -> bool {
    let a = row_address(x, y);
    ||| mem[a] & left_part(sprite, x % 8) != 0
    ||| (has_right_byte(x) && mem[a + 1] & right_part(sprite, x % 8) != 0)
}

/// Row `i` of the sprite at `index`: a read, which gives zero beyond the memory.
pub open spec fn sprite_row(mem: Seq<u8>, index: u16, i: int) -> u8 {
    read(mem, index + i)
}

/// The memory after the first `rows` rows of the sprite at `index` were drawn at `(x, y)`,
/// and whether any of them reset a pixel. Rows below the lower edge of the screen are
/// clipped. Each row is read when it is its turn, after the rows above it were drawn.
pub open spec fn draw_rows(mem: Seq<u8>, index: u16, x: u8, y: u8, rows: nat) -> (Seq<u8>, bool)
    decreases rows,
{
    if rows == 0 {
        (mem, false)
    } else {
        let (above, hit) = draw_rows(mem, index, x, y, (rows - 1) as nat);
        let row = y + rows - 1;
        if row >= SCREEN_HEIGHT {
            (above, hit)
        } else {
            let sprite = sprite_row(above, index, rows - 1);
            (draw_row(above, x, row as u8, sprite), hit || row_collides(above, x, row as u8, sprite))
        }
    }
}

/// `D x y n`: draws the sprite of `n` rows at `I` with its upper left corner at
/// `(V[x] mod 64, V[y] mod 32)`, and leaves in `VF` whether a pixel was reset.
pub open spec fn draw_spec(s: MachineState, x: u8, y: u8, n: u8) -> MachineState {
    let x_pos = s.v(x as int) % SCREEN_WIDTH;
    let y_pos = s.v(y as int) % SCREEN_HEIGHT;
    let (memory, hit) = draw_rows(s.memory, s.registers.i, x_pos, y_pos, n as nat);
    MachineState { memory, registers: s.registers.set_flag(flag(hit)), ..s }
}

/// The memory with the `count` bytes from `index` on replaced by `V0`, `V1`, ...
pub open spec fn store_registers(mem: Seq<u8>, index: u16, v: Seq<u8>, count: int) -> Seq<u8> {
    Seq::new(mem.len(), |a: int| if index <= a < index + count { v[a - index] } else { mem[a] })
}

/// The registers with the first `count` of them replaced by what is read at `index`,
/// `index + 1`, ...
pub open spec fn load_registers(mem: Seq<u8>, index: u16, v: Seq<u8>, count: int) -> Seq<u8> {
    Seq::new(v.len(), |r: int| if r < count { read(mem, index + r) } else { v[r] })
}

/// The memory with the three decimal digits of `value` at `index`, hundreds first.
pub open spec fn store_decimal(mem: Seq<u8>, index: u16, value: u8) -> Seq<u8> {
    mem.update(index as int, value / 100).update(index + 1, value % 100 / 10).update(
        index + 2,
        value % 10,
    )
}

/// Family `F x n2 n3`: timers, keyboard, index register, and transfers between registers
/// and memory.
pub open spec fn misc_spec(s: MachineState, x: u8, n2: u8, n3: u8) -> Result<MachineState, Fault> {
    let vx = s.v(x as int);
    let i = s.registers.i;
    if n2 == 0x0 && n3 == 0x7 {
        Ok(s.set_v(x as int, s.delay_timer.value))
    } else if n2 == 0x0 && n3 == 0xA {
        if s.keyboard.latest == NO_KEY {
            Ok(s.jump((s.pc - 2) as u16))
        } else {
            Ok(s.set_v(x as int, s.keyboard.latest))
        }
    } else if n2 == 0x1 && n3 == 0x5 {
        Ok(MachineState { delay_timer: TimerView { value: vx, ..s.delay_timer }, ..s })
    } else if n2 == 0x1 && n3 == 0x8 {
        Ok(MachineState { sound_timer: TimerView { value: vx, ..s.sound_timer }, ..s })
    } else if n2 == 0x1 && n3 == 0xE {
        // the flag is set on a carry out of the 12 bits, and left alone otherwise
        if i + vx >= 0x1000 {
            Ok(
                MachineState {
                    registers: s.registers.set_flag(1).set_i((i + vx - 0x1000) as u16),
                    ..s
                },
            )
        } else {
            Ok(s.set_i((i + vx) as u16))
        }
    } else if n2 == 0x2 && n3 == 0x9 {
        Ok(s.set_i((FONT_START + 5 * (vx % 16)) as u16))
    } else if n2 == 0x3 && n3 == 0x3 {
        if i + 2 < MEMORY_SIZE {
            Ok(s.set_memory(store_decimal(s.memory, i, vx)))
        } else {
            Err(Fault::WriteOutOfRange { address: MEMORY_SIZE as u16 })
        }
    } else if n2 == 0x5 && n3 == 0x5 {
        if i + x < MEMORY_SIZE {
            Ok(s.set_memory(store_registers(s.memory, i, s.registers.v, x + 1)))
        } else {
            Err(Fault::WriteOutOfRange { address: MEMORY_SIZE as u16 })
        }
    } else if n2 == 0x6 && n3 == 0x5 {
        Ok(
            MachineState {
                registers: RegistersView {
                    v: load_registers(s.memory, i, s.registers.v, x + 1),
                    ..s.registers
                },
                ..s
            },
        )
    } else {
        Err(Fault::UnrecognizedInstruction)
    }
}

/// The state that the instruction `op` makes of `s`, or the fault that it ends in. `random`
/// is the random byte that `C x NN` uses.
///
/// The program counter of `s` is already past `op`: at the instruction that follows it.
pub open spec fn execute_spec(s: MachineState, op: Digits, random: u8) -> Result<
    MachineState,
    Fault,
> {
    let (n0, x, y, n) = op;
    if !recognized(op) {
        Err(Fault::UnrecognizedInstruction)
    } else if n0 == 0 {
        if x == 0 && y == 0xE && n == 0 {
            Ok(s.set_memory(cleared(s.memory)))
        } else if x == 0 && y == 0xE && n == 0xE {
            if s.stack.len() > 0 {
                Ok(MachineState { pc: s.stack.last(), stack: s.stack.drop_last(), ..s })
            } else {
                Err(Fault::ReturnWithoutCall)
            }
        } else {
            // a call of machine code, which is ignored
            Ok(s)
        }
    } else if n0 == 1 {
        Ok(s.jump(operand_address(op)))
    } else if n0 == 2 {
        Ok(MachineState { pc: operand_address(op), stack: s.stack.push(s.pc), ..s })
    } else if n0 == 3 || n0 == 4 || n0 == 5 || n0 == 9 || n0 == 0xE {
        if skips(s, op) {
            Ok(s.jump((s.pc + 2) as u16))
        } else {
            Ok(s)
        }
    } else if n0 == 6 {
        Ok(s.set_v(x as int, operand_byte(op)))
    } else if n0 == 7 {
        Ok(s.set_v(x as int, ((s.v(x as int) + operand_byte(op)) % 0x100) as u8))
    } else if n0 == 8 {
        Ok(s.set_registers(arithmetic_spec(s.registers, x, y, n)))
    } else if n0 == 0xA {
        Ok(s.set_i(operand_address(op)))
    } else if n0 == 0xB {
        Ok(s.jump((operand_address(op) + s.v(0)) as u16))
    } else if n0 == 0xC {
        Ok(s.set_v(x as int, random & operand_byte(op)))
    } else if n0 == 0xD {
        Ok(draw_spec(s, x, y, n))
    } else {
        misc_spec(s, x, y, n)
    }
}

/// Whether `result` and the state `after` are what executing `op` in the state `before`
/// gives, with `random` as the random byte: on success the state that `execute_spec` names,
/// on a fault that fault and the state as it was.
pub open spec fn executed(
    before: MachineState,
    op: Digits,
    random: u8,
    result: Result<(), Fault>,
    after: MachineState,
) -> bool {
    match result {
        Ok(_) => execute_spec(before, op, random) == Ok::<MachineState, Fault>(after),
        Err(fault) => execute_spec(before, op, random) == Err::<MachineState, Fault>(fault)
            && after == before,
    }
}

/// Whether `op` asks for a random byte.
pub open spec fn is_random(op: Digits) -> bool {
    op.0 == 0xC
}

/// The memory with `bytes` from `PROGRAM_START` on.
pub open spec fn loaded(mem: Seq<u8>, bytes: Seq<u8>) -> Seq<u8> {
    Seq::new(
        mem.len(),
        |a: int|
            if PROGRAM_START <= a < PROGRAM_START + bytes.len() {
                bytes[a - PROGRAM_START]
            } else {
                mem[a]
            },
    )
}

/// The instruction word at the program counter of `s`, high byte first.
pub open spec fn fetched_word(s: MachineState) -> u16 {
    (0x100 * read(s.memory, s.pc as int) + read(s.memory, s.pc + 1)) as u16
}

/// The state at the start of a cycle at time `now` with the keys `pressed`: both timers
/// are updated, and the keyboard is replaced by the new snapshot.
pub open spec fn refreshed(s: MachineState, now: u128, pressed: Seq<bool>) -> MachineState {
    MachineState {
        delay_timer: s.delay_timer.update(now),
        sound_timer: s.sound_timer.update(now),
        keyboard: KeyboardView { keys: pressed, latest: latest_pressed(pressed, 16) },
        ..s
    }
}

/// One cycle of the machine in state `s`, at time `now`, with the keys `pressed` and the
/// random byte `random`: the timers and the keyboard are refreshed, the word at the
/// program counter is fetched, the counter moves past it, and the word is executed unless
/// it is zero.
pub open spec fn cycle_spec(s: MachineState, now: u128, pressed: Seq<bool>, random: u8) -> (
    MachineState,
    Status,
) {
    let fetched = refreshed(s, now, pressed).jump((s.pc + 2) as u16);
    let word = fetched_word(s);
    if word == 0 {
        (fetched, Status::Halted)
    } else {
        match execute_spec(fetched, decode(word), random) {
            Ok(next) => (next, Status::Running),
            Err(fault) => (fetched, Status::Faulted { address: s.pc, opcode: word, fault }),
        }
    }
}

} // verus!
