//! The state of a CHIP-8 system: main memory with its memory-mapped display,
//! the register file, the call stack, the timers and the keyboard latch.

use crate::program::{Fault, Instruction, Program};
use crate::random::thread_rng;
use crate::semantics::{cycle_spec, decode, executed, fetched_word, is_random, loaded};
use crate::text::{numeral, push_numeral, push_repeated, repeated, string_of};
use crate::utils::big_endian_8_2;
use vstd::prelude::*;

verus! {

/// Number of bytes of the main memory.
pub const MEMORY_SIZE: usize = 4096;

/// Address of the first byte of the font sprites.
pub const FONT_START: u16 = 0x50;

/// Address at which programs are loaded and start to run.
pub const PROGRAM_START: u16 = 0x200;

/// Address of the first byte of the display buffer, which reaches to the end of the memory.
pub const DISPLAY_START: u16 = 0xF00;

/// Number of pixels of one display row.
pub const SCREEN_WIDTH: u8 = 64;

/// Number of display rows.
pub const SCREEN_HEIGHT: u8 = 32;

/// Number of pixels of the display.
pub const SCREEN_PIXELS: u16 = 2048;

/// The sprites of the hexadecimal digits `0` to `F`, five bytes each.
pub const FONT_SPRITES: [u8; 80] = [
    0xF0, 0x90, 0x90, 0x90, 0xF0,
    0x20, 0x60, 0x20, 0x20, 0x70,
    0xF0, 0x10, 0xF0, 0x80, 0xF0,
    0xF0, 0x10, 0xF0, 0x10, 0xF0,
    0x90, 0x90, 0xF0, 0x10, 0x10,
    0xF0, 0x80, 0xF0, 0x10, 0xF0,
    0xF0, 0x80, 0xF0, 0x90, 0xF0,
    0xF0, 0x10, 0x20, 0x40, 0x40,
    0xF0, 0x90, 0xF0, 0x90, 0xF0,
    0xF0, 0x90, 0xF0, 0x10, 0xF0,
    0xF0, 0x90, 0xF0, 0x90, 0x90,
    0xE0, 0x90, 0xE0, 0x90, 0xE0,
    0xF0, 0x80, 0x80, 0x80, 0xF0,
    0xE0, 0x90, 0x90, 0x90, 0xE0,
    0xF0, 0x80, 0xF0, 0x80, 0xF0,
    0xF0, 0x80, 0xF0, 0x80, 0x80,
];

/// The byte that a read of `address` yields: the stored byte inside the memory, `0` outside.
pub open spec fn read(mem: Seq<u8>, address: int) -> u8 {
    if 0 <= address < mem.len() {
        mem[address]
    } else {
        0
    }
}

/// Address of the display byte that holds pixel number `p` (`x + 64 * y`, row-major).
pub open spec fn pixel_address(p: int) -> int {
    DISPLAY_START + p / 8
}

/// The bit of its display byte that stands for pixel number `p`: the leftmost pixel of a
/// byte is its most significant bit.
pub open spec fn pixel_mask(p: int) -> u8 {
    1u8 << ((7 - p % 8) as u8)
}

/// Whether pixel number `p` is set.
pub open spec fn pixel_at(mem: Seq<u8>, p: int) -> bool {
    mem[pixel_address(p)] & pixel_mask(p) != 0
}

/// The memory after pixel number `p` was toggled.
pub open spec fn flip(mem: Seq<u8>, p: int) -> Seq<u8> {
    mem.update(pixel_address(p), mem[pixel_address(p)] ^ pixel_mask(p))
}

/// The memory with the whole display buffer zeroed.
pub open spec fn cleared(mem: Seq<u8>) -> Seq<u8> {
    Seq::new(mem.len(), |a: int| if a >= DISPLAY_START { 0u8 } else { mem[a] })
}

/// The memory of a system that was just switched on: the font sprites from `FONT_START` on,
/// zero everywhere else.
pub open spec fn initial_memory() -> Seq<u8> {
    Seq::new(
        MEMORY_SIZE as nat,
        |a: int| if FONT_START <= a < FONT_START + 80 { FONT_SPRITES@[a - FONT_START] } else { 0u8 },
    )
}

/// Represents the main memory of a CHIP-8 system: 4096 bytes that can be accessed and
/// modified using the `get(...)` and `store(...)` methods.
///
/// The display buffer is stored in the last 0x100 bytes of the memory, one bit per pixel.
pub struct Memory {
    memory: [u8; 4096],
}

impl View for Memory {
    type V = Seq<u8>;

    closed spec fn view(&self) -> Seq<u8> {
        self.memory@
    }
}

impl Memory {
    /// Every memory holds `MEMORY_SIZE` bytes.
    pub proof fn lemma_size(&self)
        ensures
            self@.len() == MEMORY_SIZE,
    {
    }

    /// Creates a new `Memory` object.
    ///
    /// Font data for the sprites of all 16 hexadecimal digits is immediately loaded into the
    /// address space 0x50-0x9F.
    pub fn new() -> (mem: Memory)
        ensures
            mem@ == initial_memory(),
    {
        let mut mem = Memory { memory: [0u8; 4096] };
        let mut idx: usize = 0;
        while idx < 80
            invariant
                idx <= 80,
                mem@.len() == MEMORY_SIZE,
                forall|a: int|
                    0 <= a < MEMORY_SIZE ==> mem@[a] == if FONT_START <= a < FONT_START + idx {
                        FONT_SPRITES@[a - FONT_START]
                    } else {
                        0u8
                    },
            decreases 80 - idx,
        {
            mem.store(0x50 + idx as u16, FONT_SPRITES[idx]);
            idx += 1;
        }
        mem
    }

    /// Fetches the value of the byte at a given 12-bit address.
    ///
    /// The address is represented as a `u16`, but the address space only has a size of 12
    /// bits. Accessing a higher address will return `0`.
    pub fn get(&self, address: u16) -> (value: u8)
        ensures
            self@.len() == MEMORY_SIZE,
            value == read(self@, address as int),
    {
        if address as usize >= 4096 {
            return 0;
        }
        self.memory[address as usize]
    }

    /// Stores a given 8-bit value to a 12-bit address.
    ///
    /// The address is represented as a `u16`, but the address space only has a size of 12
    /// bits: a higher address is outside the memory and must not be passed.
    pub fn store(&mut self, address: u16, value: u8)
        requires
            address < MEMORY_SIZE,
        ensures
            final(self)@ == old(self)@.update(address as int, value),
            final(self)@.len() == MEMORY_SIZE,
    {
        self.memory[address as usize] = value;
    }

    /// Sets or resets the pixel at the given coordinates.
    ///
    /// If the pixel was already set, it will be reset and `true` will be returned.
    /// Otherwise, it will be set and `false` is returned. The pixel is number `x + 64 * y`
    /// of the display, which has to be one of its 2048 pixels.
    pub fn flip_pixel(&mut self, x: u8, y: u8) -> (reset: bool)
        requires
            x + 64 * y < SCREEN_PIXELS,
        ensures
            reset == pixel_at(old(self)@, x + 64 * y),
            final(self)@ == flip(old(self)@, x + 64 * y),
            final(self)@.len() == MEMORY_SIZE,
    {
        let idx: u16 = 0xF00 + (x as u16 + y as u16 * 64u16) / 8;
        let value: u8 = 1 << (7 - x % 8);
        let current = self.get(idx);
        let reset = (current & value) > 0;
        self.store(idx, current ^ value);
        reset
    }

    /// Clears the display buffer.
    ///
    /// The display buffer occupies address space 0xF00-0xFFF. This method resets all bytes
    /// in this space to 0.
    pub fn clear_display(&mut self)
        ensures
            final(self)@ == cleared(old(self)@),
            final(self)@.len() == MEMORY_SIZE,
    {
        let mut i: u16 = 0xF00;
        while i <= 0xFFF
            invariant
                0xF00 <= i <= 0x1000,
                self@.len() == MEMORY_SIZE,
                forall|a: int|
                    0 <= a < MEMORY_SIZE ==> self@[a] == if 0xF00 <= a < i {
                        0u8
                    } else {
                        old(self)@[a]
                    },
            decreases 0x1000 - i,
        {
            self.store(i, 0);
            i += 1;
        }
    }
}

/// The cells of the first `count` bytes of row `row` of the memory table: each byte as two
/// hexadecimal digits and a space.
pub open spec fn table_cells(mem: Seq<u8>, row: nat, count: nat) -> Seq<char>
    decreases count,
{
    if count == 0 {
        Seq::empty()
    } else {
        table_cells(mem, row, (count - 1) as nat) + numeral(
            mem[row * 32 + count - 1] as nat,
            16,
            2,
        ) + seq![' ']
    }
}

/// Row `row` of the memory table: the address of its first byte as three hexadecimal
/// digits, a colon, and the cells of its 32 bytes.
pub open spec fn table_row(mem: Seq<u8>, row: nat) -> Seq<char> {
    numeral(row * 32, 16, 3) + seq![':', ' '] + table_cells(mem, row, 32) + seq!['\n']
}

/// The first `count` rows of the memory table.
pub open spec fn table_rows(mem: Seq<u8>, count: nat) -> Seq<char>
    decreases count,
{
    if count == 0 {
        Seq::empty()
    } else {
        table_rows(mem, (count - 1) as nat) + table_row(mem, (count - 1) as nat)
    }
}

/// The first `count` column titles of the memory table: the offsets in a row as two
/// hexadecimal digits and a space.
pub open spec fn table_titles(count: nat) -> Seq<char>
    decreases count,
{
    if count == 0 {
        Seq::empty()
    } else {
        table_titles((count - 1) as nat) + numeral((count - 1) as nat, 16, 2) + seq![' ']
    }
}

/// The memory as a table of width 32 and height 128, under a line of column titles and a
/// rule.
pub open spec fn table(mem: Seq<u8>) -> Seq<char> {
    repeated(' ', 5) + table_titles(32) + seq!['\n'] + repeated(' ', 5) + repeated('-', 96)
        + seq!['\n'] + table_rows(mem, 128)
}

impl Memory {
    /// Formats the memory as a table of width 32 and height 128, where each cell
    /// corresponds to the current value of the byte it represents in storage.
    pub fn to_string(&self) -> (text: String)
        ensures
            text@ == table(self@),
    {
        let mut out: Vec<char> = Vec::new();
        push_repeated(&mut out, ' ', 5);
        let ghost start = out@;
        let mut i: usize = 0;
        while i < 32
            invariant
                i <= 32,
                out@ == start + table_titles(i as nat),
            decreases 32 - i,
        {
            push_numeral(&mut out, i, 16, 2);
            out.push(' ');
            i += 1;
        }
        out.push('\n');
        push_repeated(&mut out, ' ', 5);
        push_repeated(&mut out, '-', 96);
        out.push('\n');
        let ghost head = out@;
        let mut i: usize = 0;
        while i < 128
            invariant
                i <= 128,
                out@ == head + table_rows(self@, i as nat),
            decreases 128 - i,
        {
            push_numeral(&mut out, i * 32, 16, 3);
            out.push(':');
            out.push(' ');
            let ghost lead = out@;
            let mut j: usize = 0;
            while j < 32
                invariant
                    i < 128,
                    j <= 32,
                    out@ == lead + table_cells(self@, i as nat, j as nat),
                decreases 32 - j,
            {
                let value = self.get((i * 32 + j) as u16);
                push_numeral(&mut out, value as usize, 16, 2);
                out.push(' ');
                j += 1;
            }
            out.push('\n');
            i += 1;
        }
        string_of(out)
    }
}

/// What a `Registers` value holds: the sixteen `V` registers and the `I` register.
pub struct RegistersView {
    /// The registers `V0` to `VF`, in this order.
    pub v: Seq<u8>,
    /// The index register `I`.
    pub i: u16,
}

impl RegistersView {
    /// There are sixteen `V` registers, and `I` holds a 12-bit address.
    pub open spec fn wf(self) -> bool {
        &&& self.v.len() == 16
        &&& self.i <= 0xFFF
    }

    /// The value read from register `idx`: `0` where there is no such register.
    pub open spec fn get(self, idx: int) -> u8 {
        if 0 <= idx < self.v.len() {
            self.v[idx]
        } else {
            0
        }
    }

    /// The registers after `val` was written to `V[idx]`.
    pub open spec fn set(self, idx: int, val: u8) -> RegistersView {
        RegistersView { v: self.v.update(idx, val), ..self }
    }

    /// The registers after `val` was written to the flag register `VF`.
    pub open spec fn set_flag(self, val: u8) -> RegistersView {
        self.set(15, val)
    }

    /// The registers after `val` was written to `I`.
    pub open spec fn set_i(self, val: u16) -> RegistersView {
        RegistersView { i: val, ..self }
    }
}

/// Represents the register array of the CHIP-8 processor.
///
/// A CHIP-8 processor consists of 16 `V` registers and one `I` register.
/// The `V` registers each hold a single unsigned byte and are named `V0, V1, ..., VF`
/// respectively. `VF` is generally used as a flag register to be set and reset by specific
/// instructions under certain conditions.
/// The `I` register holds a single 12-bit unsigned integer value that can be used to address
/// the main memory.
pub struct Registers {
    v: [u8; 16],
    i: u16,
}

impl View for Registers {
    type V = RegistersView;

    closed spec fn view(&self) -> RegistersView {
        RegistersView { v: self.v@, i: self.i }
    }
}

impl Registers {
    /// Every register file holds sixteen `V` registers.
    pub proof fn lemma_size(&self)
        ensures
            self@.v.len() == 16,
    {
    }

    /// Creates a new `Registers` object.
    ///
    /// All 16 `V` registers, as well as the `I` register are initialized as `0`.
    pub fn new() -> (reg: Registers)
        ensures
            reg@.wf(),
            reg@.i == 0,
            forall|idx: int| 0 <= idx < 16 ==> reg@.v[idx] == 0,
    {
        Registers { v: [0u8; 16], i: 0 }
    }

    /// Fetches the value of the byte in the `V` register addressed by `idx`.
    ///
    /// The index is represented as a `u8`, but CHIP-8 only has a total of 16 `V` registers.
    /// Accessing a higher index will return 0.
    pub fn get(&self, idx: u8) -> (value: u8)
        ensures
            self@.v.len() == 16,
            value == self@.get(idx as int),
    {
        if idx as usize >= 16 {
            return 0;
        }
        self.v[idx as usize]
    }

    /// Stores a given 8-bit value in the `V` register addressed by `idx`.
    ///
    /// The index is represented as a `u8`, but CHIP-8 only has a total of 16 `V` registers:
    /// a higher index names no register and must not be passed.
    pub fn set(&mut self, idx: u8, val: u8)
        requires
            idx < 16,
        ensures
            final(self)@ == old(self)@.set(idx as int, val),
            final(self)@.v.len() == 16,
    {
        self.v[idx as usize] = val;
    }

    /// Fetches the current value inside the `I` register.
    pub fn i(&self) -> (value: u16)
        ensures
            value == self@.i,
    {
        self.i
    }

    /// Stores a given 12-bit value in the `I` register.
    ///
    /// The value is passed as a `u16`. However, the `I` register can only hold up to 12 bits,
    /// so values larger than 0xFFF must not be passed.
    pub fn set_i(&mut self, val: u16)
        requires
            val <= 0xFFF,
        ensures
            final(self)@ == old(self)@.set_i(val),
    {
        self.i = val;
    }

    #[allow(non_snake_case)]
    /// Sets the value of the `VF` flag register specifically.
    pub fn set_vF(&mut self, value: u8)
        ensures
            final(self)@ == old(self)@.set_flag(value),
            final(self)@.v.len() == 16,
    {
        self.v[15] = value;
    }
}

/// Represents the stack used to store return addresses for `CALL` and `RETURN` instructions
/// in the CHIP-8 instruction set. While the stack was typically located inside the main
/// memory on real CHIP-8 devices, it is a separate data structure with (practically)
/// unlimited storage here.
pub struct Stack {
    stack: Vec<u16>,
}

impl View for Stack {
    type V = Seq<u16>;

    /// The return addresses, the most recently pushed one last.
    closed spec fn view(&self) -> Seq<u16> {
        self.stack@
    }
}

impl Stack {
    /// Creates a new instance of the `Stack` struct.
    ///
    /// The stack starts with size `0`.
    pub fn new() -> (stack: Stack)
        ensures
            stack@ == Seq::<u16>::empty(),
    {
        Stack { stack: Vec::new() }
    }

    /// Pushes a value to the top of the stack.
    pub fn push(&mut self, val: u16)
        ensures
            final(self)@ == old(self)@.push(val),
    {
        self.stack.push(val);
    }

    /// Removes the topmost value from the stack and returns it as an `Option`.
    ///
    /// If the stack was empty, returns `None` instead.
    pub fn pop(&mut self) -> (top: Option<u16>)
        ensures
            old(self)@.len() == 0 ==> top.is_none() && final(self)@ == old(self)@,
            old(self)@.len() > 0 ==> top == Some(old(self)@.last()) && final(self)@ == old(
                self,
            )@.drop_last(),
    {
        self.stack.pop()
    }
}

/// Number of milliseconds that have to pass between two decrements of a timer.
pub const TIMER_PERIOD_MS: u128 = 16;

/// What a `Timer` holds.
pub struct TimerView {
    /// The current value of the countdown.
    pub value: u8,
    /// The time, in milliseconds, at which the value was last decremented.
    pub last_update: u128,
}

impl TimerView {
    /// Whether an update at time `now` decrements the timer: it is armed, and at least
    /// `TIMER_PERIOD_MS` milliseconds have passed since the last decrement.
    pub open spec fn due(self, now: u128) -> bool {
        self.value > 0 && now - self.last_update >= TIMER_PERIOD_MS
    }

    /// The timer after one decrement, which stops at zero.
    pub open spec fn tick(self) -> TimerView {
        if self.value > 0 {
            TimerView { value: (self.value - 1) as u8, ..self }
        } else {
            self
        }
    }

    /// The timer after an update at time `now`.
    pub open spec fn update(self, now: u128) -> TimerView {
        if self.due(now) {
            TimerView { value: (self.value - 1) as u8, last_update: now }
        } else {
            self
        }
    }
}

/// Represents a timer in the CHIP-8 system. Timers can be set to 8-bit values and will then
/// decrement at a rate of about 60Hz until they reach `0`.
/// CHIP-8 has a delay timer and a sound timer with similar functionalities. Both of them
/// are represented by a `Timer`.
///
/// The timer does not read a clock itself: the current time, in milliseconds, is handed to
/// `update`. The time of the last decrement is only moved by a decrement. Neither `set` nor
/// an update of a timer at zero touches it, so the first decrement after the timer is armed
/// again may come less than a full period after `set`.
pub struct Timer {
    value: u8,
    last_update: u128,
}

impl View for Timer {
    type V = TimerView;

    closed spec fn view(&self) -> TimerView {
        TimerView { value: self.value, last_update: self.last_update }
    }
}

impl Timer {
    /// Creates a new instance of the `Timer` struct, starting at value `0`.
    pub fn new() -> (timer: Timer)
        ensures
            timer@ == (TimerView { value: 0, last_update: 0 }),
    {
        Timer { value: 0, last_update: 0 }
    }

    /// Ticks down the timer by `1` if it is larger than `0`.
    pub fn tick(&mut self)
        ensures
            final(self)@ == old(self)@.tick(),
    {
        if self.value > 0 {
            self.value -= 1;
        }
    }

    /// Sets the timer to a given 8-bit value.
    ///
    /// After being set, the timer will decrement with each due update until it reaches `0`.
    pub fn set(&mut self, value: u8)
        ensures
            final(self)@ == (TimerView { value, ..old(self)@ }),
    {
        self.value = value
    }

    /// Gets the current value of the timer.
    pub fn get(&self) -> (value: u8)
        ensures
            value == self@.value,
    {
        self.value
    }

    /// Decrements the timer if it is armed and the last decrement was at least 16 ms before
    /// `current_time`, which then becomes the time of the last decrement. Otherwise nothing
    /// changes.
    pub fn update(&mut self, current_time: u128)
        ensures
            final(self)@ == old(self)@.update(current_time),
    {
        if self.value > 0 && current_time >= self.last_update && current_time
            - self.last_update >= 16 {
            self.tick();
            self.last_update = current_time;
        }
    }
}

/// Number of keys of the CHIP-8 keyboard, and the value that stands for "no key".
pub const NO_KEY: u8 = 16;

/// Maps the 16 CHIP-8 keys `0` to `F`, in this order, to the keys of a QWERTY keyboard that
/// stand for them, each given by the code of its upper-case letter or digit.
pub const KEYBOARD_KEYS: [u8; 16] = [
    0x58,  // X
    0x31,  // 1
    0x32,  // 2
    0x33,  // 3
    0x51,  // Q
    0x57,  // W
    0x45,  // E
    0x41,  // A
    0x53,  // S
    0x44,  // D
    0x5A,  // Z
    0x43,  // C
    0x34,  // 4
    0x52,  // R
    0x46,  // F
    0x56,  // V
];

/// The state that the operating system reports of a key that is down and was pressed since
/// it was last asked for. A key counts as pressed in a snapshot if and only if its state is
/// this value.
pub const KEY_PRESSED_STATE: i16 = -32767;

/// The highest of the first `n` keys that is pressed, `NO_KEY` if none is.
pub open spec fn latest_pressed(pressed: Seq<bool>, n: nat) -> u8
    decreases n,
{
    if n == 0 {
        NO_KEY
    } else if pressed[n - 1] {
        (n - 1) as u8
    } else {
        latest_pressed(pressed, (n - 1) as nat)
    }
}

/// What a `Keyboad` holds.
pub struct KeyboardView {
    /// For each of the sixteen keys, whether it is pressed.
    pub keys: Seq<bool>,
    /// The key that was pressed latest, `NO_KEY` if none was.
    pub latest: u8,
}

impl KeyboardView {
    /// There are sixteen keys.
    pub open spec fn wf(self) -> bool {
        self.keys.len() == 16
    }

    /// Whether `key` is pressed: no key above the sixteenth ever is.
    pub open spec fn get(self, key: int) -> bool {
        0 <= key < self.keys.len() && self.keys[key]
    }
}

/// Represents the state of the 16-key CHIP-8 keyboard.
pub struct Keyboad {
    keys: [bool; 16],
    latest: u8,
}

impl View for Keyboad {
    type V = KeyboardView;

    closed spec fn view(&self) -> KeyboardView {
        KeyboardView { keys: self.keys@, latest: self.latest }
    }
}

impl Keyboad {
    /// Every keyboard has sixteen keys.
    pub proof fn lemma_size(&self)
        ensures
            self@.keys.len() == 16,
    {
    }

    /// Creates a new instance of the `Keyboad` struct.
    ///
    /// All keys are initialized as "not pressed".
    pub fn new() -> (kb: Keyboad)
        ensures
            kb@.wf(),
            kb@.latest == NO_KEY,
            forall|key: int| 0 <= key < 16 ==> !kb@.keys[key],
    {
        Keyboad { keys: [false; 16], latest: 16 }
    }

    /// Gets the current state of the key with the given index.
    ///
    /// `true` indicates that the key is currently pressed, `false` indicates it is not
    /// pressed.
    pub fn get(&self, key: u8) -> (pressed: bool)
        ensures
            self@.keys.len() == 16,
            pressed == self@.get(key as int),
    {
        if key as usize >= 16 {
            return false;
        }
        self.keys[key as usize]
    }

    /// Updates the state of the keyboard from a snapshot of all sixteen keys.
    ///
    /// The snapshot replaces the stored key states as a whole. It also updates the latest
    /// key that was pressed: the highest pressed key of the snapshot, or 0x10 if no key is
    /// pressed.
    pub fn update(&mut self, pressed: &[bool; 16])
        ensures
            final(self)@.keys == pressed@,
            final(self)@.latest == latest_pressed(pressed@, 16),
            final(self)@.wf(),
    {
        self.latest = 16;
        let mut idx: usize = 0;
        while idx < 16
            invariant
                idx <= 16,
                self.latest == latest_pressed(pressed@, idx as nat),
                forall|k: int| 0 <= k < idx ==> self.keys@[k] == pressed@[k],
            decreases 16 - idx,
        {
            if pressed[idx] {
                self.latest = idx as u8;
                self.keys[idx] = true;
            } else {
                self.keys[idx] = false;
            }
            idx += 1;
        }
    }

    /// Gets the index of the latest key that was pressed (or 0x10 if no key was pressed).
    pub fn latest(&self) -> (key: u8)
        ensures
            key == self@.latest,
    {
        self.latest
    }
}

/// The brightness of a pixel that was just seen set in the display buffer. A pixel that is
/// no longer set fades by one level with each update, and is dark at level 0.
pub const FULL_LEVEL: u8 = 4;

/// The level of a pixel after an update: a set pixel is at the full level, another one has
/// faded by one level, down to 0.
pub open spec fn fade(level: u8, lit: bool) -> u8 {
    if lit {
        FULL_LEVEL
    } else if level > 0 {
        (level - 1) as u8
    } else {
        0
    }
}

/// The levels of all pixels after an update from the memory `mem`.
pub open spec fn faded(levels: Seq<u8>, mem: Seq<u8>) -> Seq<u8> {
    Seq::new(SCREEN_PIXELS as nat, |p: int| fade(levels[p], pixel_at(mem, p)))
}

/// Whether pixel `p` is dark at the levels `before` and shows at the levels `after`, or the
/// other way round.
pub open spec fn pixel_differs(before: Seq<u8>, after: Seq<u8>, p: int) -> bool {
    (before[p] == 0) != (after[p] == 0)
}

/// Whether the picture at the levels `after` is another than at the levels `before`: some
/// pixel went dark or came up.
pub open spec fn picture_differs(before: Seq<u8>, after: Seq<u8>) -> bool {
    exists|p: int| 0 <= p < SCREEN_PIXELS && pixel_differs(before, after, p)
}

/// A simulated display for the CHIP-8. It keeps a level of brightness for each pixel, so
/// that a pixel which is switched off stays visible for a few updates, and is drawn as long
/// as its level is larger than `0`.
pub struct Display {
    pixels: [u8; 2048],
}

impl View for Display {
    type V = Seq<u8>;

    /// The levels of the pixels, row by row: pixel `(x, y)` is number `x + 64 * y`.
    closed spec fn view(&self) -> Seq<u8> {
        self.pixels@
    }
}

impl Display {
    /// Every display holds a level for each of its 2048 pixels.
    pub proof fn lemma_size(&self)
        ensures
            self@.len() == SCREEN_PIXELS,
    {
    }

    /// Creates a new instance of the `Display` struct, initializing its 32x64 pixel matrix
    /// as dark.
    pub fn new() -> (display: Display)
        ensures
            display@.len() == SCREEN_PIXELS,
            forall|p: int| 0 <= p < SCREEN_PIXELS ==> display@[p] == 0,
    {
        Display { pixels: [0u8; 2048] }
    }

    /// Updates the current state of the display by using the `Memory` component of the
    /// current `System` state.
    ///
    /// If a pixel is set in the memory, its level will be set to `4`. If it was not set, its
    /// level will be decremented by `1` instead, down to `0`. Returns whether a pixel went
    /// dark or came up, which is when the display has to be rendered again.
    pub fn update(&mut self, sys: &System) -> (changes: bool)
        requires
            sys.screen_width == SCREEN_WIDTH,
        ensures
            final(self)@ == faded(old(self)@, sys@.memory),
            changes == picture_differs(old(self)@, final(self)@),
    {
        let mut changes = false;
        let bytes_per_row: u16 = sys.screen_width as u16 / 8;
        let mut i: u16 = 0xF00;
        while i <= 0xFFF
            invariant
                0xF00 <= i <= 0x1000,
                bytes_per_row == 8,
                self@.len() == SCREEN_PIXELS,
                forall|p: int|
                    0 <= p < 8 * (i - 0xF00) ==> self@[p] == fade(
                        old(self)@[p],
                        pixel_at(sys@.memory, p),
                    ),
                forall|p: int| 8 * (i - 0xF00) <= p < SCREEN_PIXELS ==> self@[p] == old(self)@[p],
                changes == exists|p: int|
                    0 <= p < 8 * (i - 0xF00) && pixel_differs(old(self)@, self@, p),
            decreases 0x1000 - i,
        {
            let byte = sys.memory.get(i);
            let pos = i - 0xF00;
            let y = pos / bytes_per_row;
            let x = (pos % bytes_per_row) * 8;
            let mut j: u16 = 0;
            while j < 8
                invariant
                    0xF00 <= i <= 0xFFF,
                    pos == i - 0xF00,
                    y == pos / 8,
                    x == (pos % 8) * 8,
                    j <= 8,
                    byte == sys@.memory[i as int],
                    sys@.memory.len() == MEMORY_SIZE,
                    self@.len() == SCREEN_PIXELS,
                    forall|p: int|
                        0 <= p < 8 * pos + j ==> self@[p] == fade(
                            old(self)@[p],
                            pixel_at(sys@.memory, p),
                        ),
                    forall|p: int| 8 * pos + j <= p < SCREEN_PIXELS ==> self@[p] == old(self)@[p],
                    changes == exists|p: int|
                        0 <= p < 8 * pos + j && pixel_differs(old(self)@, self@, p),
                decreases 8 - j,
            {
                let idx: usize = y as usize * 64 + (x + j) as usize;
                let ghost p = 8 * pos + j;
                let ghost levels = self@;
                if (byte & (1 << (7 - j))) > 0 {
                    if self.pixels[idx] == 0 {
                        changes = true;
                    }
                    self.pixels[idx] = 4;
                } else if self.pixels[idx] > 0 {
                    self.pixels[idx] -= 1;
                    if self.pixels[idx] == 0 {
                        changes = true;
                    }
                }
                proof {
                    let was = exists|q: int|
                        0 <= q < p && pixel_differs(old(self)@, levels, q);
                    let now = exists|q: int|
                        0 <= q < p + 1 && pixel_differs(old(self)@, self@, q);
                    if was {
                        let q = choose|q: int|
                            0 <= q < p && pixel_differs(old(self)@, levels, q);
                        assert(pixel_differs(old(self)@, self@, q));
                    }
                    assert(pixel_differs(old(self)@, self@, p) ==> now);
                    if now {
                        let q = choose|q: int|
                            0 <= q < p + 1 && pixel_differs(old(self)@, self@, q);
                        if q < p {
                            assert(pixel_differs(old(self)@, levels, q));
                        }
                    }
                }
                j += 1;
            }
            i += 1;
        }
        changes
    }
}

/// The character that starts a command to the terminal.
pub const ESCAPE: char = '\u{1b}';

/// Upper left corner of the frame around the picture.
pub const CORNER_UPPER_LEFT: char = '\u{2554}';

/// Upper right corner of the frame around the picture.
pub const CORNER_UPPER_RIGHT: char = '\u{2557}';

/// Lower left corner of the frame around the picture.
pub const CORNER_LOWER_LEFT: char = '\u{255a}';

/// Lower right corner of the frame around the picture.
pub const CORNER_LOWER_RIGHT: char = '\u{255d}';

/// A piece of the upper or lower side of the frame around the picture.
pub const SIDE_HORIZONTAL: char = '\u{2550}';

/// A piece of the left or right side of the frame around the picture.
pub const SIDE_VERTICAL: char = '\u{2551}';

/// A pixel that shows: a full block.
pub const BLOCK: char = '\u{2588}';

/// The command that moves the cursor of the terminal to the given row and column.
pub open spec fn cursor_to(row: nat, column: nat) -> Seq<char> {
    seq![ESCAPE, '['] + numeral(row, 10, 1) + seq![';'] + numeral(column, 10, 1) + seq!['H']
}

/// The upper or the lower side of the frame, between the corners `left` and `right`.
pub open spec fn frame_side(left: char, right: char) -> Seq<char> {
    seq![left] + repeated(SIDE_HORIZONTAL, 128) + seq![right]
}

/// The character that draws a pixel of the given level.
pub open spec fn pixel_char(level: u8) -> char {
    if level == 0 {
        ' '
    } else {
        BLOCK
    }
}

/// The first `count` pixels of row `row` of the picture, two characters wide each.
pub open spec fn picture_cells(levels: Seq<u8>, row: nat, count: nat) -> Seq<char>
    decreases count,
{
    if count == 0 {
        Seq::empty()
    } else {
        let c = pixel_char(levels[row * 64 + count - 1]);
        picture_cells(levels, row, (count - 1) as nat) + seq![c, c]
    }
}

/// Line `line` of the 34 lines of the frame: the command that moves the cursor to the
/// start of the line, and then a side of the frame or a row of the picture between the
/// left and the right side.
pub open spec fn frame_line(levels: Seq<u8>, line: nat) -> Seq<char> {
    cursor_to(line + 1, 1) + if line == 0 {
        frame_side(CORNER_UPPER_LEFT, CORNER_UPPER_RIGHT)
    } else if line == 33 {
        frame_side(CORNER_LOWER_LEFT, CORNER_LOWER_RIGHT)
    } else {
        seq![SIDE_VERTICAL] + picture_cells(levels, (line - 1) as nat, 64) + seq![SIDE_VERTICAL]
    }
}

/// The first `count` lines of the frame.
pub open spec fn frame_lines(levels: Seq<u8>, count: nat) -> Seq<char>
    decreases count,
{
    if count == 0 {
        Seq::empty()
    } else {
        frame_lines(levels, (count - 1) as nat) + frame_line(levels, (count - 1) as nat)
    }
}

/// The text that draws the picture with the levels `levels` in a frame on a terminal, and
/// leaves the cursor below it.
pub open spec fn frame(levels: Seq<u8>) -> Seq<char> {
    frame_lines(levels, 34) + cursor_to(36, 0) + seq!['\n']
}

/// Appends the command that moves the cursor to `row` and `column` to `out`.
fn push_cursor_to(out: &mut Vec<char>, row: usize, column: usize)
    ensures
        final(out)@ == old(out)@ + cursor_to(row as nat, column as nat),
{
    out.push(ESCAPE);
    out.push('[');
    push_numeral(out, row, 10, 1);
    out.push(';');
    push_numeral(out, column, 10, 1);
    out.push('H');
}

impl Display {
    /// Renders the current state of the pixel matrix as the text that draws it on a
    /// terminal: 34 lines of 130 characters, each after the command that moves the cursor
    /// to its start. A pixel is drawn as long as its level is larger than `0`.
    pub fn render(&self) -> (text: String)
        ensures
            text@ == frame(self@),
    {
        let mut out: Vec<char> = Vec::new();
        let mut y: usize = 0;
        while y < 34
            invariant
                y <= 34,
                out@ == frame_lines(self@, y as nat),
            decreases 34 - y,
        {
            push_cursor_to(&mut out, y + 1, 1);
            if y == 0 || y == 33 {
                let left = if y == 0 {
                    CORNER_UPPER_LEFT
                } else {
                    CORNER_LOWER_LEFT
                };
                let right = if y == 0 {
                    CORNER_UPPER_RIGHT
                } else {
                    CORNER_LOWER_RIGHT
                };
                out.push(left);
                push_repeated(&mut out, SIDE_HORIZONTAL, 128);
                out.push(right);
            } else {
                out.push(SIDE_VERTICAL);
                let ghost lead = out@;
                let mut x: usize = 0;
                while x < 64
                    invariant
                        0 < y < 33,
                        x <= 64,
                        out@ == lead + picture_cells(self@, (y - 1) as nat, x as nat),
                    decreases 64 - x,
                {
                    let pixel = self.pixels[(y - 1) * 64 + x];
                    let c = if pixel == 0 {
                        ' '
                    } else {
                        BLOCK
                    };
                    out.push(c);
                    out.push(c);
                    x += 1;
                }
                out.push(SIDE_VERTICAL);
            }
            y += 1;
        }
        push_cursor_to(&mut out, 36, 0);
        out.push('\n');
        string_of(out)
    }
}

/// What a `System` holds, but for its random number generator: the state of the machine
/// that instructions read and change.
pub struct MachineState {
    /// The main memory, display buffer included.
    pub memory: Seq<u8>,
    /// The `V` registers and the `I` register.
    pub registers: RegistersView,
    /// The return addresses of the running subroutines, the innermost last.
    pub stack: Seq<u16>,
    /// The delay timer.
    pub delay_timer: TimerView,
    /// The sound timer.
    pub sound_timer: TimerView,
    /// The keyboard as it was last polled.
    pub keyboard: KeyboardView,
    /// The program counter: the address of the next instruction.
    pub pc: u16,
}

impl MachineState {
    /// The parts have their sizes, and `I` holds a 12-bit address.
    pub open spec fn wf(self) -> bool {
        &&& self.memory.len() == MEMORY_SIZE
        &&& self.registers.wf()
        &&& self.keyboard.wf()
    }

    /// Register `V[idx]`.
    pub open spec fn v(self, idx: int) -> u8 {
        self.registers.get(idx)
    }
}

/// How a cycle of the machine ended.
#[derive(Clone, Copy, Debug, PartialEq, Eq)]
pub enum Status {
    /// An instruction was executed; the machine goes on with the next cycle.
    Running,
    /// The word that was fetched is zero, which marks the end of the program: nothing was
    /// executed and the run is over.
    Halted,
    /// The instruction `opcode`, fetched at `address`, could not be executed: the run ends
    /// with `fault`.
    Faulted { address: u16, opcode: u16, fault: Fault },
}

/// A struct representing the state of a CHIP-8 processor and its peripherals.
pub struct System {
    /// The main memory, display buffer included.
    pub memory: Memory,
    /// The `V` registers and the `I` register.
    pub registers: Registers,
    /// The return addresses of the running subroutines.
    pub stack: Stack,
    /// The delay timer.
    pub delay_timer: Timer,
    /// The sound timer.
    pub sound_timer: Timer,
    /// The keyboard as it was last polled.
    pub keyboard: Keyboad,
    /// The source of the random bytes that programs ask for.
    pub rng: rand::rngs::ThreadRng,
    /// The program counter: the address of the next instruction.
    pub pc: u16,
    /// Number of pixels of one display row: always 64.
    pub screen_width: u8,
    /// Number of display rows: always 32.
    pub screen_height: u8,
    /// Number of cycles that the system runs per second.
    pub loop_frequency: u16,
}

impl View for System {
    type V = MachineState;

    open spec fn view(&self) -> MachineState {
        MachineState {
            memory: self.memory@,
            registers: self.registers@,
            stack: self.stack@,
            delay_timer: self.delay_timer@,
            sound_timer: self.sound_timer@,
            keyboard: self.keyboard@,
            pc: self.pc,
        }
    }
}

impl System {
    /// The system is consistent: the screen has its 64 by 32 pixels, the cycle frequency is
    /// not zero, and the machine state is well-formed.
    pub open spec fn wf(&self) -> bool {
        &&& self.screen_width == SCREEN_WIDTH
        &&& self.screen_height == SCREEN_HEIGHT
        &&& self.loop_frequency > 0
        &&& self@.wf()
    }

    /// Whether `other` has the screen and the cycle frequency of this system.
    pub open spec fn same_settings(&self, other: &System) -> bool {
        &&& self.screen_width == other.screen_width
        &&& self.screen_height == other.screen_height
        &&& self.loop_frequency == other.loop_frequency
    }

    /// Creates a new instance of the `System` struct.
    ///
    /// The parts are initialized using their individual `new()` methods, the program
    /// counter is `0`, and the system runs at 700 cycles per second.
    pub fn new() -> (sys: System)
        ensures
            sys.wf(),
            sys.loop_frequency == 700,
            sys@.memory == initial_memory(),
            sys@.registers.i == 0,
            forall|idx: int| 0 <= idx < 16 ==> sys@.registers.v[idx] == 0,
            sys@.stack == Seq::<u16>::empty(),
            sys@.delay_timer == (TimerView { value: 0, last_update: 0 }),
            sys@.sound_timer == (TimerView { value: 0, last_update: 0 }),
            sys@.keyboard.latest == NO_KEY,
            forall|key: int| 0 <= key < 16 ==> !sys@.keyboard.keys[key],
            sys@.pc == 0,
    {
        System {
            memory: Memory::new(),
            registers: Registers::new(),
            stack: Stack::new(),
            delay_timer: Timer::new(),
            sound_timer: Timer::new(),
            keyboard: Keyboad::new(),
            rng: thread_rng(),
            pc: 0,
            screen_width: 64,
            screen_height: 32,
            loop_frequency: 700,
        }
    }

    /// Increments the CHIP-8's program counter by two, to the next instruction.
    pub fn increment_pc(&mut self)
        requires
            old(self).pc <= u16::MAX - 2,
        ensures
            final(self)@ == (MachineState { pc: (old(self).pc + 2) as u16, ..old(self)@ }),
            old(self).same_settings(final(self)),
    {
        self.pc += 2;
    }
}

impl System {
    /// Loads a program into the system's main memory.
    ///
    /// The loaded program's address space starts at 0x200, and the program counter is
    /// initialized to 0x200. The program has to fit between that address and the end of
    /// the memory.
    pub fn load(&mut self, program: Program)
        requires
            program.instructions@.len() <= MEMORY_SIZE - PROGRAM_START,
        ensures
            final(self)@ == (MachineState {
                memory: loaded(old(self)@.memory, program.instructions@),
                pc: PROGRAM_START,
                ..old(self)@
            }),
            old(self).same_settings(final(self)),
            old(self).wf() ==> final(self).wf(),
    {
        proof {
            self.memory.lemma_size();
        }
        let mut idx: usize = 0;
        while idx < program.instructions.len()
            invariant
                idx <= program.instructions@.len() <= MEMORY_SIZE - PROGRAM_START,
                self.memory@.len() == MEMORY_SIZE,
                self.memory@ == loaded(
                    old(self)@.memory,
                    program.instructions@.subrange(0, idx as int),
                ),
                *self == (System { memory: self.memory, ..*old(self) }),
            decreases program.instructions@.len() - idx,
        {
            self.memory.store(0x200 + idx as u16, program.instructions[idx]);
            idx += 1;
        }
        assert(program.instructions@.subrange(0, idx as int) =~= program.instructions@);
        self.pc = 0x200;
    }

    /// The time to wait between two cycles, in microseconds, that holds the system at its
    /// number of cycles per second.
    pub fn cycle_delay(&self) -> (micros: u64)
        requires
            self.loop_frequency > 0,
        ensures
            micros == 1_000_000int / (self.loop_frequency as int),
    {
        1000000u64 / self.loop_frequency as u64
    }

    /// Runs one cycle of the fetch/decode/execute loop at the time `current_time`, in
    /// milliseconds, with the snapshot `pressed` of the keys. The cycle consists of the
    /// following steps, in order:
    /// - Update timers
    /// - Replace the keyboard state
    /// - Fetch next instruction
    /// - Increment the program counter
    /// - Decode & execute instruction
    ///
    /// A fetched word of zero ends the run: nothing is executed then. The caller is to
    /// refresh the display, wait for `cycle_delay()` and go on, as long as the status is
    /// `Running`.
    pub fn step(&mut self, current_time: u128, pressed: &[bool; 16]) -> (status: Status)
        requires
            old(self).wf(),
            old(self).pc <= u16::MAX - 2,
        ensures
            final(self).wf(),
            old(self).same_settings(final(self)),
            exists|random: u8| #[trigger]
                cycle_spec(old(self)@, current_time, pressed@, random) == (final(self)@, status),
            !is_random(decode(fetched_word(old(self)@))) ==> forall|random: u8| #[trigger]
                cycle_spec(old(self)@, current_time, pressed@, random) == (final(self)@, status),
    {
        let ghost before = self@;
        self.delay_timer.update(current_time);
        self.sound_timer.update(current_time);
        self.keyboard.update(pressed);

        //Fetch
        let address = self.pc;
        let op1 = self.memory.get(self.pc);
        let op2 = self.memory.get(self.pc + 1);
        self.increment_pc();
        let ghost fetched = self@;

        //Decode & Execute
        if op1 == 0 && op2 == 0 {
            assert(cycle_spec(before, current_time, pressed@, 0) == (self@, Status::Halted));
            return Status::Halted;
        }
        let word = big_endian_8_2(op1, op2);
        let op: Instruction = Instruction::from(word);
        let result = op.execute(self);
        let status = match result {
            Ok(_) => Status::Running,
            Err(fault) => Status::Faulted { address, opcode: word, fault },
        };
        proof {
            let random = choose|random: u8| executed(fetched, op@, random, result, self@);
            assert(cycle_spec(before, current_time, pressed@, random) == (self@, status));
        }
        status
    }
}

} // verus!
