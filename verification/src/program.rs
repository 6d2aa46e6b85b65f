//! Contains structs related to input programs that can be run on the system. The `Program`
//! struct holds the bytes of a program. The `Instruction` struct contains the four
//! hexadecimal digits that represent a single instruction, and the functionality to run it
//! on a given system state.

use crate::random::random_byte;
use crate::semantics::{
    arithmetic_spec, counter_fits, decode, digits_wf, draw_row, draw_rows, encode, executed, flag,
    has_right_byte, is_random, load_registers, misc_spec, row_address, row_collides,
    store_registers, Digits,
};
use crate::system::{MachineState, Memory, Registers, RegistersView, System, MEMORY_SIZE};
use crate::text::{numeral, push_numeral, string_of};
use crate::utils::{big_endian_4_2, big_endian_4_3};
use vstd::prelude::*;

verus! {

/// Why an instruction could not be executed. The run of a program ends with it.
#[derive(Clone, Copy, Debug, PartialEq, Eq)]
pub enum Fault {
    /// The digits are no instruction of the machine.
    UnrecognizedInstruction,
    /// A return was asked for while no subroutine was running.
    ReturnWithoutCall,
    /// The instruction had to write outside the memory. `address` is the first address
    /// outside the memory that it had to write.
    WriteOutOfRange { address: u16 },
}

/// Represents the instructions of a program's byte code as four hexadecimal digits
/// (unsigned 4-bit integers).
///
/// Instructions can be parsed from a single 16-bit unsigned integer, and, given a system
/// state, run to update the state.
#[derive(Copy, Clone)]
pub struct Instruction(u8, u8, u8, u8);

impl View for Instruction {
    type V = Digits;

    closed spec fn view(&self) -> Digits {
        (self.0, self.1, self.2, self.3)
    }
}

impl From<u16> for Instruction {
    /// Parses an instruction from a single 16-bit unsigned integer.
    fn from(value: u16) -> (instruction: Self)
        ensures
            instruction@ == decode(value),
            digits_wf(instruction@),
            encode(instruction@) == value,
    {
        let b1 = (value & 0b1111000000000000) >> 12;
        let b2 = (value & 0b0000111100000000) >> 8;
        let b3 = (value & 0b0000000011110000) >> 4;
        let b4 = value & 0b0000000000001111;
        assert(b1 == value / 0x1000 && b2 == value / 0x100 % 0x10 && b3 == value / 0x10 % 0x10
            && b4 == value % 0x10 && b1 < 16 && b2 < 16 && b3 < 16 && b4 < 16 && 0x1000 * b1
            + 0x100 * b2 + 0x10 * b3 + b4 == value) by (bit_vector)
            requires
                b1 == (value & 0b1111000000000000) >> 12,
                b2 == (value & 0b0000111100000000) >> 8,
                b3 == (value & 0b0000000011110000) >> 4,
                b4 == value & 0b0000000000001111,
        ;
        Instruction(b1 as u8, b2 as u8, b3 as u8, b4 as u8)
    }
}

impl vstd::std_specs::convert::FromSpecImpl<u16> for Instruction {
    open spec fn obeys_from_spec() -> bool {
        true
    }

    closed spec fn from_spec(value: u16) -> Self {
        Instruction(
            (value / 0x1000) as u8,
            (value / 0x100 % 0x10) as u8,
            (value / 0x10 % 0x10) as u8,
            (value % 0x10) as u8,
        )
    }
}

impl Instruction {
    /// Each of the four digits is below sixteen.
    #[verifier::type_invariant]
    spec fn digits_in_range(self) -> bool {
        self.0 < 16 && self.1 < 16 && self.2 < 16 && self.3 < 16
    }

    /// The four hexadecimal digits of the instruction, most significant first.
    pub fn digits(&self) -> (digits: (u8, u8, u8, u8))
        ensures
            digits == self@,
            digits_wf(digits),
    {
        proof {
            use_type_invariant(self);
        }
        (self.0, self.1, self.2, self.3)
    }
}

/// The `j` leftmost pixels of the sprite row `sprite`.
spec fn top_bits(sprite: u8, j: u8) -> u8 {
    sprite & !(0xFFu8 >> j)
}

/// A sprite row is complete once its eight pixels are taken, and as far as it is drawn
/// once the taken pixels reach the right edge of the screen.
proof fn lemma_top_bits_done(sprite: u8, shift: u8, j: u8)
    by (bit_vector)
    requires
        shift < 8,
        j <= 8,
    ensures
        j == 8 ==> sprite & !(0xFFu8 >> j) == sprite,
        j == 0 ==> sprite & !(0xFFu8 >> j) == 0,
        j + shift >= 8 ==> (sprite & !(0xFFu8 >> j)) >> shift == sprite >> shift,
        0u8 >> shift == 0,
        shift > 0 ==> 0u8 << ((8 - shift) as u8) == 0,
{
}

/// A pixel of the sprite row that is not set adds nothing to the pixels taken.
proof fn lemma_column_clear(sprite: u8, j: u8)
    by (bit_vector)
    requires
        j < 8,
        sprite & (1u8 << ((7 - j) as u8)) == 0,
    ensures
        sprite & !(0xFFu8 >> ((j + 1) as u8)) == sprite & !(0xFFu8 >> j),
{
}

/// A set pixel of the sprite row that falls into the display byte where the row starts:
/// what it adds to the part of the row in that byte, and what it meets there.
proof fn lemma_column_left(sprite: u8, shift: u8, j: u8, b: u8)
    by (bit_vector)
    requires
        shift < 8,
        j < 8,
        shift + j < 8,
        sprite & (1u8 << ((7 - j) as u8)) != 0,
    ensures
        ({
            let t = sprite & !(0xFFu8 >> j);
            let t2 = sprite & !(0xFFu8 >> ((j + 1) as u8));
            let mask = 1u8 << ((7 - (shift + j)) as u8);
            &&& (b ^ (t >> shift)) ^ mask == b ^ (t2 >> shift)
            &&& ((b ^ (t >> shift)) & mask != 0) == (b & mask != 0)
            &&& (b & (t2 >> shift) != 0) == (b & (t >> shift) != 0 || b & mask != 0)
            &&& shift > 0 ==> t2 << ((8 - shift) as u8) == t << ((8 - shift) as u8)
        }),
{
}

/// A set pixel of the sprite row that falls into the display byte after the one where the
/// row starts: what it adds to the part of the row in that byte, and what it meets there.
proof fn lemma_column_right(sprite: u8, shift: u8, j: u8, b: u8)
    by (bit_vector)
    requires
        shift < 8,
        j < 8,
        shift + j >= 8,
        sprite & (1u8 << ((7 - j) as u8)) != 0,
    ensures
        ({
            let t = sprite & !(0xFFu8 >> j);
            let t2 = sprite & !(0xFFu8 >> ((j + 1) as u8));
            let mask = 1u8 << ((15 - (shift + j)) as u8);
            let r = t << ((8 - shift) as u8);
            let r2 = t2 << ((8 - shift) as u8);
            &&& (b ^ r) ^ mask == b ^ r2
            &&& ((b ^ r) & mask != 0) == (b & mask != 0)
            &&& (b & r2 != 0) == (b & r != 0 || b & mask != 0)
            &&& t2 >> shift == t >> shift
        }),
{
}

/// Draws one sprite row with its leftmost pixel at `(x_pos, row)`, pixel by pixel, and sets
/// `VF` where a pixel is reset. What would lie beyond `screen_width` is left out.
fn draw_sprite_row(
    memory: &mut Memory,
    registers: &mut Registers,
    x_pos: u8,
    row: u8,
    sprite: u8,
    screen_width: u8,
)
    requires
        x_pos < 64,
        row < 32,
        screen_width == 64,
    ensures
        final(memory)@ == draw_row(old(memory)@, x_pos, row, sprite),
        final(registers)@ == if row_collides(old(memory)@, x_pos, row, sprite) {
            old(registers)@.set_flag(1)
        } else {
            old(registers)@
        },
{
    let ghost base = memory@;
    let ghost regs = registers@;
    let ghost shift = x_pos % 8;
    let ghost a = row_address(x_pos, row);
    proof {
        memory.lemma_size();
        registers.lemma_size();
        lemma_top_bits_done(sprite, shift, 0);
        let b0 = base[a];
        assert(b0 ^ 0 == b0 && b0 & 0 == 0) by (bit_vector);
        if has_right_byte(x_pos) {
            let b1 = base[a + 1];
            assert(b1 ^ 0 == b1 && b1 & 0 == 0) by (bit_vector);
        }
    }
    let mut j: u8 = 0;
    while j < 8 && x_pos + j < screen_width
        invariant
            j <= 8,
            x_pos < 64,
            row < 32,
            screen_width == 64,
            shift == x_pos % 8,
            a == row_address(x_pos, row),
            base.len() == MEMORY_SIZE,
            regs.v.len() == 16,
            memory@ == draw_row(base, x_pos, row, top_bits(sprite, j)),
            registers@ == if row_collides(base, x_pos, row, top_bits(sprite, j)) {
                regs.set_flag(1)
            } else {
                regs
            },
        decreases 8 - j,
    {
        if sprite & (1 << (7 - j)) != 0 {
            let reset = memory.flip_pixel(x_pos + j, row);
            proof {
                if shift + j < 8 {
                    lemma_column_left(sprite, shift, j, base[a]);
                } else {
                    lemma_column_right(sprite, shift, j, base[a + 1]);
                }
            }
            if reset {
                registers.set_vF(1);
                assert(regs.set_flag(1).set_flag(1).v =~= regs.set_flag(1).v);
            }
        } else {
            proof {
                lemma_column_clear(sprite, j);
            }
        }
        j += 1;
    }
    proof {
        lemma_top_bits_done(sprite, shift, j);
    }
}

/// Rows below the lower edge of the screen change nothing.
proof fn lemma_rows_clipped(mem: Seq<u8>, index: u16, x: u8, y: u8, drawn: nat, rows: nat)
    requires
        drawn <= rows,
        y + drawn >= 32,
    ensures
        draw_rows(mem, index, x, y, rows) == draw_rows(mem, index, x, y, drawn),
    decreases rows,
{
    if rows > drawn {
        lemma_rows_clipped(mem, index, x, y, drawn, (rows - 1) as nat);
    }
}

/// Draws the sprite of `n` rows at `I` with its upper left corner at
/// `(V[x] mod 64, V[y] mod 32)`. `VF` is set if a pixel was reset, and cleared otherwise.
fn draw_sprite(
    memory: &mut Memory,
    registers: &mut Registers,
    x: u8,
    y: u8,
    n: u8,
    screen_width: u8,
    screen_height: u8,
)
    requires
        old(registers)@.wf(),
        n < 16,
        screen_width == 64,
        screen_height == 32,
    ensures
        ({
            let s = old(registers)@;
            let drawn = draw_rows(
                old(memory)@,
                s.i,
                s.get(x as int) % 64,
                s.get(y as int) % 32,
                n as nat,
            );
            &&& final(memory)@ == drawn.0
            &&& final(registers)@ == s.set_flag(flag(drawn.1))
        }),
        final(memory)@.len() == MEMORY_SIZE,
{
    let x_pos = registers.get(x) % 64;
    let y_pos = registers.get(y) % 32;
    let ghost base = memory@;
    let ghost regs = registers@;
    proof {
        memory.lemma_size();
    }
    registers.set_vF(0);
    let mut i: u8 = 0;
    while i < n && y_pos + i < screen_height
        invariant
            i <= n,
            n < 16,
            x_pos < 64,
            y_pos < 32,
            screen_width == 64,
            screen_height == 32,
            regs.wf(),
            memory@.len() == MEMORY_SIZE,
            memory@ == draw_rows(base, regs.i, x_pos, y_pos, i as nat).0,
            registers@ == regs.set_flag(flag(draw_rows(base, regs.i, x_pos, y_pos, i as nat).1)),
        decreases n - i,
    {
        let sprite_byte = memory.get(registers.i() + i as u16);
        draw_sprite_row(memory, registers, x_pos, y_pos + i, sprite_byte, screen_width);
        proof {
            memory.lemma_size();
            assert(regs.set_flag(0).set_flag(1).v =~= regs.set_flag(1).v);
            assert(regs.set_flag(1).set_flag(1).v =~= regs.set_flag(1).v);
        }
        i += 1;
    }
    proof {
        if i < n {
            lemma_rows_clipped(base, regs.i, x_pos, y_pos, i as nat, n as nat);
        }
    }
}

/// Stores `V0` to `V[x]` in memory from the address in `I` on.
fn store_register_range(memory: &mut Memory, registers: &Registers, x: u8)
    requires
        x < 16,
        registers@.i + x < MEMORY_SIZE,
    ensures
        final(memory)@ == store_registers(old(memory)@, registers@.i, registers@.v, x + 1),
{
    proof {
        memory.lemma_size();
    }
    let mut i: u8 = 0;
    while i <= x
        invariant
            i <= x + 1,
            x < 16,
            registers@.i + x < MEMORY_SIZE,
            memory@.len() == MEMORY_SIZE,
            memory@ == store_registers(old(memory)@, registers@.i, registers@.v, i as int),
        decreases x + 1 - i,
    {
        let value = registers.get(i);
        memory.store(registers.i() + i as u16, value);
        i += 1;
    }
}

/// Loads `V0` to `V[x]` from memory from the address in `I` on.
fn load_register_range(memory: &Memory, registers: &mut Registers, x: u8)
    requires
        x < 16,
        old(registers)@.wf(),
    ensures
        final(registers)@ == (RegistersView {
            v: load_registers(memory@, old(registers)@.i, old(registers)@.v, x + 1),
            ..old(registers)@
        }),
{
    let ghost regs = registers@;
    proof {
        assert(regs.v =~= load_registers(memory@, regs.i, regs.v, 0));
    }
    let mut i: u8 = 0;
    while i <= x
        invariant
            i <= x + 1,
            x < 16,
            regs.wf(),
            registers@ == (RegistersView {
                v: load_registers(memory@, regs.i, regs.v, i as int),
                ..regs
            }),
        decreases x + 1 - i,
    {
        let value = memory.get(registers.i() + i as u16);
        registers.set(i, value);
        assert(registers@.v =~= load_registers(memory@, regs.i, regs.v, i as int + 1));
        i += 1;
    }
}

/// Executes an instruction of the family `8 x y n`: arithmetic and logic on `V[x]` and
/// `V[y]`.
fn execute_arithmetic(registers: &mut Registers, x: u8, y: u8, n: u8) -> (result: Result<
    (),
    Fault,
>)
    requires
        x < 16,
        y < 16,
    ensures
        match result {
            Ok(_) => (n <= 7 || n == 0xE) && final(registers)@ == arithmetic_spec(
                old(registers)@,
                x,
                y,
                n,
            ),
            Err(fault) => !(n <= 7 || n == 0xE) && fault == Fault::UnrecognizedInstruction
                && final(registers)@ == old(registers)@,
        },
{
    let vx = registers.get(x);
    let vy = registers.get(y);
    match n {
        0 => {
            //VX = VY
            registers.set(x, vy);
        },
        1 => {
            //VX |= VY
            registers.set(x, vx | vy);
        },
        2 => {
            //VX &= VY
            registers.set(x, vx & vy);
        },
        3 => {
            //VX ^= VY
            registers.set(x, vx ^ vy);
        },
        4 => {
            //VX += VY (may set VF carry flag)
            let mut sum = vx as u16 + vy as u16;
            registers.set_vF(0);
            if sum >= 0x100 {
                sum -= 0x100;
                registers.set_vF(1);
            }
            registers.set(x, sum as u8);
            assert(registers@.v =~= arithmetic_spec(old(registers)@, x, y, n).v);
        },
        5 => {
            //VX -= VY (may un-set VF carry flag on borrow)
            let mut sum = 0x100 + vx as u16 - vy as u16;
            registers.set_vF(0);
            if sum >= 0x100 {
                sum -= 0x100;
                registers.set_vF(1);
            }
            registers.set(x, sum as u8);
            assert(registers@.v =~= arithmetic_spec(old(registers)@, x, y, n).v);
        },
        6 => {
            //VX shifted right by 1, VF set from the index of the register
            assert(x & 1 == x % 2 && vx >> 1 == vx / 2) by (bit_vector);
            registers.set_vF(x & 1);
            registers.set(x, vx >> 1);
        },
        7 => {
            //VX = VY - VX (may un-set VF carry flag on borrow)
            let mut sum = 0x100 + vy as u16 - vx as u16;
            registers.set_vF(0);
            if sum >= 0x100 {
                sum -= 0x100;
                registers.set_vF(1);
            }
            registers.set(x, sum as u8);
            assert(registers@.v =~= arithmetic_spec(old(registers)@, x, y, n).v);
        },
        0xE => {
            //VX shifted left by 1, VF set from the index of the register
            let mut val = vx as u16;
            assert((x & 0b10000000) >> 7 == x / 0x80) by (bit_vector);
            registers.set_vF((x & 0b10000000) >> 7);
            assert(val << 1 == 2 * val) by (bit_vector)
                requires
                    val < 0x100,
            ;
            val <<= 1;
            if val >= 0x100 {
                val -= 0x100;
            }
            registers.set(x, val as u8);
        },
        _ => {
            return Err(Fault::UnrecognizedInstruction);
        },
    }
    Ok(())
}

/// Executes an instruction of the family `F x n2 n3`: timers, keyboard, index register,
/// and transfers between registers and memory.
fn execute_misc(sys: &mut System, x: u8, n2: u8, n3: u8) -> (result: Result<(), Fault>)
    requires
        old(sys).wf(),
        x < 16,
        n2 == 0x0 && n3 == 0xA && old(sys)@.keyboard.latest == 16 ==> old(sys).pc >= 2,
    ensures
        old(sys).same_settings(final(sys)),
        match result {
            Ok(_) => misc_spec(old(sys)@, x, n2, n3) == Ok::<MachineState, Fault>(final(sys)@),
            Err(fault) => misc_spec(old(sys)@, x, n2, n3) == Err::<MachineState, Fault>(fault)
                && final(sys)@ == old(sys)@,
        },
{
    let vx = sys.registers.get(x);
    let index = sys.registers.i();
    match (n2, n3) {
        (0x0, 0x7) => {
            //VX = delay timer
            let value = sys.delay_timer.get();
            sys.registers.set(x, value);
        },
        (0x0, 0xA) => {
            //VX = await key()
            let l = sys.keyboard.latest();
            if l == 16 {
                sys.pc -= 2;
            } else {
                sys.registers.set(x, l);
            }
        },
        (0x1, 0x5) => {
            //delay timer = VX
            sys.delay_timer.set(vx);
        },
        (0x1, 0x8) => {
            //sound timer = VX
            sys.sound_timer.set(vx);
        },
        (0x1, 0xE) => {
            //I += VX
            let mut val = index + vx as u16;
            if val >= 0x1000 {
                val -= 0x1000;
                sys.registers.set_vF(1);
            }
            sys.registers.set_i(val);
        },
        (0x2, 0x9) => {
            //I = address of sprite VX
            assert(vx & 0xF == vx % 16) by (bit_vector);
            let c = vx & 0xF;
            sys.registers.set_i(0x50u16 + 5u16 * c as u16);
        },
        (0x3, 0x3) => {
            //Convert VX to decimal. Store 100-digit at *I, 10-digit at *(I+1) and 1-digit at *(I+2).
            if index + 2 >= 4096 {
                return Err(Fault::WriteOutOfRange { address: 4096 });
            }
            sys.memory.store(index, vx / 100);
            sys.memory.store(index + 1, (vx % 100) / 10);
            sys.memory.store(index + 2, vx % 10);
        },
        (0x5, 0x5) => {
            //Store [V0..VX] in memory at [*I, *(I+1),...]
            if index + x as u16 >= 4096 {
                return Err(Fault::WriteOutOfRange { address: 4096 });
            }
            store_register_range(&mut sys.memory, &sys.registers, x);
        },
        (0x6, 0x5) => {
            //Loads [V0..VX] from memory at [*I, *(I+1),...]
            load_register_range(&sys.memory, &mut sys.registers, x);
        },
        _ => {
            return Err(Fault::UnrecognizedInstruction);
        },
    }
    Ok(())
}

impl Instruction {
    /// Decodes and executes an instruction given the mutable state of a `System`, with
    /// `random` as the random byte that the instruction `C x NN` uses.
    ///
    /// The exact action taken by this method depends on the instruction itself. Typically,
    /// the first digit represents the action to be made, and the remaining digits contain
    /// additional information, such as parameters, for the execution.
    ///
    /// The program counter of `sys` has to be past the instruction already, and the counter
    /// that the instruction leaves behind has to fit into its 16 bits: there have to be two
    /// more addresses where the instruction skips, and two less where it waits for a key.
    /// An instruction that cannot be executed leaves the state as it is and returns the
    /// fault.
    pub fn execute_with(self, sys: &mut System, random: u8) -> (result: Result<(), Fault>)
        requires
            old(sys).wf(),
            counter_fits(old(sys)@, self@),
        ensures
            final(sys).wf(),
            old(sys).same_settings(final(sys)),
            executed(old(sys)@, self@, random, result, final(sys)@),
    {
        proof {
            use_type_invariant(self);
            sys.memory.lemma_size();
        }
        let result = match self {
            Instruction(0, 0, 0xE, 0) => {
                //DISPLAY Clear
                sys.memory.clear_display();
                Ok(())
            },
            Instruction(0, 0, 0xE, 0xE) => {
                //RETURN
                match sys.stack.pop() {
                    Some(address) => {
                        sys.pc = address;
                        Ok(())
                    },
                    None => Err(Fault::ReturnWithoutCall),
                }
            },
            Instruction(1, n1, n2, n3) => {
                //JUMP
                let address = big_endian_4_3(n1, n2, n3);
                sys.pc = address;
                Ok(())
            },
            Instruction(2, n1, n2, n3) => {
                //CALL
                let address = big_endian_4_3(n1, n2, n3);
                sys.stack.push(sys.pc);
                sys.pc = address;
                Ok(())
            },
            Instruction(0, n1, n2, n3) => {
                //CALL MACHINE
                let _address = big_endian_4_3(n1, n2, n3);
                //SKIP
                Ok(())
            },
            Instruction(3, x, n1, n2) => {
                //Skip if VX == NN
                let val = big_endian_4_2(n1, n2);
                let v_val = sys.registers.get(x);
                if val == v_val {
                    sys.increment_pc();
                }
                Ok(())
            },
            Instruction(4, x, n1, n2) => {
                //Skip if VX != NN
                let val = big_endian_4_2(n1, n2);
                let v_val = sys.registers.get(x);
                if val != v_val {
                    sys.increment_pc();
                }
                Ok(())
            },
            Instruction(5, x, y, 0) => {
                //Skip if VX == VY
                let vx_val = sys.registers.get(x);
                let vy_val = sys.registers.get(y);
                if vx_val == vy_val {
                    sys.increment_pc();
                }
                Ok(())
            },
            Instruction(6, x, n1, n2) => {
                //VX = NN
                let val = big_endian_4_2(n1, n2);
                sys.registers.set(x, val);
                Ok(())
            },
            Instruction(7, x, n1, n2) => {
                //VX += NN (no carry)
                let val = big_endian_4_2(n1, n2);
                let sum = val as u16 + sys.registers.get(x) as u16;
                sys.registers.set(x, (sum % 0x100) as u8);
                Ok(())
            },
            Instruction(8, x, y, n) => {
                //VX = VX op VY
                execute_arithmetic(&mut sys.registers, x, y, n)
            },
            Instruction(9, x, y, 0) => {
                //Skip if VX != VY
                let vx_val = sys.registers.get(x);
                let vy_val = sys.registers.get(y);
                if vx_val != vy_val {
                    sys.increment_pc();
                }
                Ok(())
            },
            Instruction(0xA, n1, n2, n3) => {
                //I = NNN
                let address = big_endian_4_3(n1, n2, n3);
                sys.registers.set_i(address);
                Ok(())
            },
            Instruction(0xB, n1, n2, n3) => {
                //Jump to NNN + V0
                let address = big_endian_4_3(n1, n2, n3);
                let v0_val = sys.registers.get(0);
                sys.pc = address + v0_val as u16;
                Ok(())
            },
            Instruction(0xC, x, n1, n2) => {
                //VX = random byte & NN
                let val = big_endian_4_2(n1, n2);
                let r = random & val;
                sys.registers.set(x, r);
                Ok(())
            },
            Instruction(0xD, x, y, n) => {
                //draw(sprite(x: VX, y: VY, w: 8, h: N)), sprite defined at I, VF set on collision
                draw_sprite(
                    &mut sys.memory,
                    &mut sys.registers,
                    x,
                    y,
                    n,
                    sys.screen_width,
                    sys.screen_height,
                );
                Ok(())
            },
            Instruction(0xE, x, 0x9, 0xE) => {
                //Skip if key VX is pressed
                let key = sys.registers.get(x);
                if sys.keyboard.get(key) {
                    sys.increment_pc();
                }
                Ok(())
            },
            Instruction(0xE, x, 0xA, 0x1) => {
                //Skip if key VX is not pressed
                let key = sys.registers.get(x);
                if !sys.keyboard.get(key) {
                    sys.increment_pc();
                }
                Ok(())
            },
            Instruction(0xF, x, n2, n3) => {
                //timers, keyboard, I, transfers
                execute_misc(sys, x, n2, n3)
            },
            _ => Err(Fault::UnrecognizedInstruction),
        };
        proof {
            sys.memory.lemma_size();
            sys.registers.lemma_size();
            sys.keyboard.lemma_size();
        }
        result
    }
}

impl Instruction {
    /// Decodes and executes an instruction given the mutable state of a `System`.
    ///
    /// This is `execute_with`, with a random byte from the generator of `sys` where the
    /// instruction asks for one: the outcome of `C x NN` is that of `execute_with` for some
    /// byte, the outcome of every other instruction that of `execute_with` for any byte.
    pub fn execute(self, sys: &mut System) -> (result: Result<(), Fault>)
        requires
            old(sys).wf(),
            counter_fits(old(sys)@, self@),
        ensures
            final(sys).wf(),
            old(sys).same_settings(final(sys)),
            exists|random: u8| executed(old(sys)@, self@, random, result, final(sys)@),
            !is_random(self@) ==> forall|random: u8|
                executed(old(sys)@, self@, random, result, final(sys)@),
    {
        let random: u8 = if self.0 == 0xC {
            random_byte(&mut sys.rng)
        } else {
            0
        };
        let result = self.execute_with(sys, random);
        result
    }
}

/// Represents a program's bytecode as a list of bytes: the instruction words, high byte
/// first, without a header.
pub struct Program {
    /// The bytes of the program.
    pub instructions: Vec<u8>,
}

/// The text of an instruction: its four digits in hexadecimal.
pub open spec fn instruction_text(op: Digits) -> Seq<char> {
    seq!['I', 'N', 'S', 'T', 'R', ':', ' '] + numeral(op.0 as nat, 16, 1) + seq![' '] + numeral(
        op.1 as nat,
        16,
        1,
    ) + seq![' '] + numeral(op.2 as nat, 16, 1) + seq![' '] + numeral(op.3 as nat, 16, 1)
}

impl Instruction {
    /// Formats the instruction as `INSTR: X X X X` where each `X` represents a hexadecimal
    /// digit.
    pub fn to_string(&self) -> (text: String)
        ensures
            text@ == instruction_text(self@),
    {
        let mut out: Vec<char> = Vec::new();
        out.push('I');
        out.push('N');
        out.push('S');
        out.push('T');
        out.push('R');
        out.push(':');
        out.push(' ');
        push_numeral(&mut out, self.0 as usize, 16, 1);
        out.push(' ');
        push_numeral(&mut out, self.1 as usize, 16, 1);
        out.push(' ');
        push_numeral(&mut out, self.2 as usize, 16, 1);
        out.push(' ');
        push_numeral(&mut out, self.3 as usize, 16, 1);
        string_of(out)
    }
}

/// The instruction word number `line` of a program: two bytes, high byte first.
pub open spec fn program_word(bytes: Seq<u8>, line: int) -> nat {
    (0x100 * bytes[2 * line] + bytes[2 * line + 1]) as nat
}

/// The first `count` lines of the listing of a program: the number of each instruction
/// word as at least two hexadecimal digits, a colon, and the word as four.
pub open spec fn listing(bytes: Seq<u8>, count: nat) -> Seq<char>
    decreases count,
{
    if count == 0 {
        Seq::empty()
    } else {
        listing(bytes, (count - 1) as nat) + numeral((count - 1) as nat, 16, 2) + seq![':', ' ']
            + numeral(program_word(bytes, count - 1), 16, 4) + seq!['\n']
    }
}

impl Program {
    /// Formats the program as lines of `<line>: <instruction>` where `line` and
    /// `instruction` are both represented as hexadecimal numbers. A byte that is left over
    /// at the end is not listed.
    pub fn to_string(&self) -> (text: String)
        ensures
            text@ == listing(self.instructions@, (self.instructions@.len() / 2) as nat),
    {
        let mut out: Vec<char> = Vec::new();
        let length = self.instructions.len();
        let lines = length / 2;
        let mut i: usize = 0;
        while i < lines
            invariant
                i <= lines,
                length == self.instructions@.len(),
                lines == length / 2,
                out@ == listing(self.instructions@, i as nat),
            decreases lines - i,
        {
            let high = self.instructions[2 * i];
            let low = self.instructions[2 * i + 1];
            let x = 0x100u16 * high as u16 + low as u16;
            push_numeral(&mut out, i, 16, 2);
            out.push(':');
            out.push(' ');
            push_numeral(&mut out, x as usize, 16, 4);
            out.push('\n');
            i += 1;
        }
        string_of(out)
    }
}

} // verus!
