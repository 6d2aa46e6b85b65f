//! Laws of the machine: what holds of every state, every instruction word and every
//! sequence of updates, proved from the meaning of the instructions.

use crate::program::Fault;
use crate::semantics::{
    cycle_spec, decode, digits_wf, draw_rows, draw_spec, encode, execute_spec, fetched_word, flag,
    has_right_byte, left_part, operand_address, refreshed, right_part, row_address, row_collides,
    sprite_row, Digits,
};
use crate::system::{
    cleared, flip, latest_pressed, pixel_address, pixel_at, pixel_mask, MachineState, Status,
    TimerView, DISPLAY_START, MEMORY_SIZE, NO_KEY, SCREEN_PIXELS, TIMER_PERIOD_MS,
};
use crate::utils::{spec_big_endian_4_2, spec_big_endian_8_2};
use vstd::prelude::*;

verus! {

/// Decoding a word and composing its four digits again gives the word: as one number
/// from four digits, and as two bytes of two digits each.
pub proof fn lemma_decode_encode(word: u16)
    ensures
        digits_wf(decode(word)),
        encode(decode(word)) == word,
        ({
            let (n0, n1, n2, n3) = decode(word);
            spec_big_endian_8_2(
                spec_big_endian_4_2(n0, n1) as u8,
                spec_big_endian_4_2(n2, n3) as u8,
            ) == word
        }),
{
    assert(word / 0x1000 < 16 && 0x1000 * (word / 0x1000) + 0x100 * (word / 0x100 % 0x10) + 0x10
        * (word / 0x10 % 0x10) + word % 0x10 == word) by (bit_vector);
}

/// After the display was cleared, none of its 2048 pixels is set, and the rest of the
/// memory is as before.
pub proof fn lemma_cleared_display(mem: Seq<u8>)
    requires
        mem.len() == MEMORY_SIZE,
    ensures
        forall|p: int| 0 <= p < SCREEN_PIXELS ==> !#[trigger] pixel_at(cleared(mem), p),
        forall|a: int| 0 <= a < DISPLAY_START ==> cleared(mem)[a] == mem[a],
{
    assert forall|p: int| 0 <= p < SCREEN_PIXELS implies !#[trigger] pixel_at(cleared(mem), p) by {
        let shift = (7 - p % 8) as u8;
        assert(0u8 & (1u8 << shift) == 0) by (bit_vector);
    }
}

/// The first `rows` rows of a sprite whose rows are all zero change nothing and reset no
/// pixel.
proof fn lemma_zero_rows(mem: Seq<u8>, index: u16, x: u8, y: u8, rows: nat)
    requires
        mem.len() == MEMORY_SIZE,
        x < 64,
        y < 32,
        forall|i: int| 0 <= i < rows ==> sprite_row(mem, index, i) == 0,
    ensures
        draw_rows(mem, index, x, y, rows) == (mem, false),
    decreases rows,
{
    if rows > 0 {
        lemma_zero_rows(mem, index, x, y, (rows - 1) as nat);
        let row = y + rows - 1;
        if row < 32 {
            let a = row_address(x, row as u8);
            let b0 = mem[a];
            let b1 = mem[a + 1];
            let shift = x % 8;
            assert(0u8 >> shift == 0 && b0 ^ 0 == b0 && b0 & 0 == 0 && b1 ^ 0 == b1 && b1 & 0 == 0
                && (shift > 0 ==> 0u8 << ((8 - shift) as u8) == 0)) by (bit_vector)
                requires
                    shift < 8,
            ;
        }
    }
}

/// Drawing a sprite whose rows are all zero leaves the memory, and with it the display, as
/// it was, and clears the flag register. This holds of a display that was just cleared as
/// of any other.
pub proof fn lemma_draw_zero_sprite(s: MachineState, x: u8, y: u8, n: u8, random: u8)
    requires
        s.wf(),
        digits_wf((0xDu8, x, y, n)),
        forall|i: int| 0 <= i < n ==> sprite_row(s.memory, s.registers.i, i) == 0,
    ensures
        execute_spec(s, (0xDu8, x, y, n), random) == Ok::<MachineState, Fault>(
            s.set_registers(s.registers.set_flag(0)),
        ),
{
    lemma_zero_rows(s.memory, s.registers.i, s.v(x as int) % 64, s.v(y as int) % 32, n as nat);
}

/// The bits that the first `rows` rows of the sprite at `index`, drawn at `(x, y)`, toggle
/// in the byte at address `a`: none outside the display buffer, and none in a display row
/// that the sprite does not reach.
pub open spec fn sprite_mask(mem: Seq<u8>, index: u16, x: u8, y: u8, rows: nat, a: int) -> u8 {
    let row = (a - DISPLAY_START) / 8 - y;
    let column = (a - DISPLAY_START) % 8;
    if DISPLAY_START <= a < MEMORY_SIZE && 0 <= row < rows {
        if column == x / 8 {
            left_part(sprite_row(mem, index, row), x % 8)
        } else if column == x / 8 + 1 {
            right_part(sprite_row(mem, index, row), x % 8)
        } else {
            0
        }
    } else {
        0
    }
}

/// The memory with the bits of `sprite_mask` toggled in each byte.
pub open spec fn toggled(mem: Seq<u8>, index: u16, x: u8, y: u8, rows: nat) -> Seq<u8> {
    Seq::new(mem.len(), |a: int| mem[a] ^ sprite_mask(mem, index, x, y, rows, a))
}

/// Whether a bit of `sprite_mask` is set in the byte at address `a` already.
pub open spec fn meets(mem: Seq<u8>, index: u16, x: u8, y: u8, rows: nat, a: int) -> bool {
    mem[a] & sprite_mask(mem, index, x, y, rows, a) != 0
}

/// Whether the sprite meets a pixel that is set.
pub open spec fn collides(mem: Seq<u8>, index: u16, x: u8, y: u8, rows: nat) -> bool {
    exists|a: int| 0 <= a < mem.len() && meets(mem, index, x, y, rows, a)
}

/// Whether drawing the first `rows` rows of the sprite at `index` at `(x, y)` leaves the
/// bytes of these rows as they are: the sprite does not draw over itself. This holds of
/// every sprite that lies below the display buffer.
pub open spec fn sprite_untouched(mem: Seq<u8>, index: u16, x: u8, y: u8, rows: nat) -> bool {
    forall|a: int|
        index <= a < index + rows ==> #[trigger] sprite_mask(mem, index, x, y, rows, a) == 0
}

/// A sprite that lies below the display buffer does not draw over itself.
pub proof fn lemma_sprite_below_display(mem: Seq<u8>, index: u16, x: u8, y: u8, rows: nat)
    requires
        index + rows <= DISPLAY_START,
    ensures
        sprite_untouched(mem, index, x, y, rows),
{
}

proof fn lemma_xor_facts(b: u8, k: u8)
    by (bit_vector)
    ensures
        b ^ 0 == b,
        b & 0 == 0,
        (b ^ k) ^ k == b,
        (b ^ k == b) == (k == 0),
        (b & k != 0 || (b ^ k) & k != 0) == (k != 0),
{
}

/// Drawing a sprite that does not draw over itself toggles the bits of its mask in each
/// byte of the display, and resets a pixel where the mask meets a set bit.
pub proof fn lemma_draw_rows_toggle(mem: Seq<u8>, index: u16, x: u8, y: u8, rows: nat)
    requires
        mem.len() == MEMORY_SIZE,
        x < 64,
        y < 32,
        sprite_untouched(mem, index, x, y, rows),
    ensures
        draw_rows(mem, index, x, y, rows).0 == toggled(mem, index, x, y, rows),
        draw_rows(mem, index, x, y, rows).1 == collides(mem, index, x, y, rows),
    decreases rows,
{
    if rows == 0 {
        assert forall|a: int| 0 <= a < mem.len() implies mem[a] ^ sprite_mask(
            mem,
            index,
            x,
            y,
            0,
            a,
        ) == mem[a] by {
            lemma_xor_facts(mem[a], 0);
        }
        assert forall|a: int| 0 <= a < mem.len() implies !meets(mem, index, x, y, 0, a) by {
            lemma_xor_facts(mem[a], 0);
        }
    } else {
        let r = (rows - 1) as nat;
        assert(sprite_untouched(mem, index, x, y, r)) by {
            assert forall|a: int| index <= a < index + r implies #[trigger] sprite_mask(
                mem,
                index,
                x,
                y,
                r,
                a,
            ) == 0 by {
                assert(sprite_mask(mem, index, x, y, rows, a) == 0);
            }
        }
        lemma_draw_rows_toggle(mem, index, x, y, r);
        let above = toggled(mem, index, x, y, r);
        let row = y + r;
        if row >= 32 {
            assert(collides(mem, index, x, y, rows) == collides(mem, index, x, y, r)) by {
                if collides(mem, index, x, y, rows) {
                    let a = choose|a: int| 0 <= a < mem.len() && meets(mem, index, x, y, rows, a);
                    assert(meets(mem, index, x, y, r, a));
                }
                if collides(mem, index, x, y, r) {
                    let a = choose|a: int| 0 <= a < mem.len() && meets(mem, index, x, y, r, a);
                    assert(meets(mem, index, x, y, rows, a));
                }
            }
        } else {
            let a0 = row_address(x, row as u8);
            let sprite = sprite_row(mem, index, r as int);
            assert(sprite_row(above, index, r as int) == sprite) by {
                assert(sprite_mask(mem, index, x, y, rows, index + r) == 0);
                lemma_xor_facts(mem[index + r], 0);
            }
            lemma_xor_facts(mem[a0], 0);
            if has_right_byte(x) {
                lemma_xor_facts(mem[a0 + 1], 0);
            }
            assert((collides(mem, index, x, y, r) || row_collides(above, x, row as u8, sprite))
                == collides(mem, index, x, y, rows)) by {
                if collides(mem, index, x, y, r) {
                    let a = choose|a: int| 0 <= a < mem.len() && meets(mem, index, x, y, r, a);
                    lemma_xor_facts(mem[a], 0);
                    assert(meets(mem, index, x, y, rows, a));
                }
                if row_collides(above, x, row as u8, sprite) {
                    if mem[a0] & left_part(sprite, x % 8) != 0 {
                        assert(meets(mem, index, x, y, rows, a0));
                    } else {
                        assert(meets(mem, index, x, y, rows, a0 + 1));
                    }
                }
                if collides(mem, index, x, y, rows) {
                    let a = choose|a: int| 0 <= a < mem.len() && meets(mem, index, x, y, rows, a);
                    if a != a0 && !(has_right_byte(x) && a == a0 + 1) {
                        assert(meets(mem, index, x, y, r, a));
                    }
                }
            }
        }
    }
}

/// Whether pixel `d` of the sprite row `sprite`, counted from the left, is set. A sprite
/// row has eight pixels.
pub open spec fn sprite_bit(sprite: u8, d: int) -> bool {
    0 <= d < 8 && sprite & (0x80u8 >> (d as u8)) != 0
}

/// Whether the first `rows` rows of the sprite at `index`, drawn with its upper left corner
/// at `(x, y)`, have a set pixel at the place `(px, py)` of the screen.
pub open spec fn sprite_covers(
    mem: Seq<u8>,
    index: u16,
    x: u8,
    y: u8,
    rows: nat,
    px: int,
    py: int,
) -> bool {
    0 <= py - y < rows && sprite_bit(sprite_row(mem, index, py - y), px - x)
}

/// Toggling a pixel toggles that pixel and no other.
pub proof fn lemma_flip_one_pixel(mem: Seq<u8>, p: int, q: int)
    requires
        mem.len() == MEMORY_SIZE,
        0 <= p < SCREEN_PIXELS,
        0 <= q < SCREEN_PIXELS,
    ensures
        pixel_at(flip(mem, p), q) == (pixel_at(mem, q) != (p == q)),
{
    if p / 8 == q / 8 {
        let b = mem[pixel_address(p)];
        let sp = (7 - p % 8) as u8;
        let sq = (7 - q % 8) as u8;
        assert(((b ^ (1u8 << sp)) & (1u8 << sq) != 0) == ((b & (1u8 << sq) != 0) != (sp == sq)))
            by (bit_vector)
            requires
                sp < 8,
                sq < 8,
        ;
    }
}

proof fn lemma_pixel_of_mask(sprite: u8, b: u8, m: u8, s: u8, k: u8)
    by (bit_vector)
    requires
        s < 8,
        k < 8,
    ensures
        ((b ^ m) & (1u8 << ((7 - k) as u8)) != 0) == ((b & (1u8 << ((7 - k) as u8)) != 0) != (m & (
        1u8 << ((7 - k) as u8)) != 0)),
        0u8 & (1u8 << ((7 - k) as u8)) == 0,
        b & (1u8 << ((7 - k) as u8)) != 0 && m & (1u8 << ((7 - k) as u8)) != 0 ==> b & m != 0,
        k >= s ==> ((sprite >> s) & (1u8 << ((7 - k) as u8)) != 0) == (sprite & (0x80u8 >> ((k
            - s) as u8)) != 0),
        k < s ==> (sprite >> s) & (1u8 << ((7 - k) as u8)) == 0,
        k < s ==> ((sprite << ((8 - s) as u8)) & (1u8 << ((7 - k) as u8)) != 0) == (sprite & (0x80u8
            >> ((k + 8 - s) as u8)) != 0),
        k >= s && s > 0 ==> (sprite << ((8 - s) as u8)) & (1u8 << ((7 - k) as u8)) == 0,
{
}

/// The leftmost pixel that is set in both bytes.
spec fn common_pixel(b: u8, m: u8) -> u8 {
    let c = b & m;
    if c & 0x80 != 0 {
        0
    } else if c & 0x40 != 0 {
        1
    } else if c & 0x20 != 0 {
        2
    } else if c & 0x10 != 0 {
        3
    } else if c & 0x08 != 0 {
        4
    } else if c & 0x04 != 0 {
        5
    } else if c & 0x02 != 0 {
        6
    } else {
        7
    }
}

proof fn lemma_common_pixel(b: u8, m: u8)
    by (bit_vector)
    requires
        b & m != 0,
    ensures
        common_pixel(b, m) < 8,
        b & (1u8 << ((7 - common_pixel(b, m)) as u8)) != 0,
        m & (1u8 << ((7 - common_pixel(b, m)) as u8)) != 0,
{
}

/// Whether the sprite mask has the bit of the pixel `(px, py)` set, where the sprite has a
/// set pixel there.
proof fn lemma_mask_covers(mem: Seq<u8>, index: u16, x: u8, y: u8, rows: nat, px: int, py: int)
    requires
        mem.len() == MEMORY_SIZE,
        x < 64,
        y < 32,
        0 <= px < 64,
        0 <= py < 32,
    ensures
        (sprite_mask(mem, index, x, y, rows, pixel_address(px + 64 * py)) & pixel_mask(
            px + 64 * py,
        ) != 0) == sprite_covers(mem, index, x, y, rows, px, py),
{
    let k = (px % 8) as u8;
    let s = x % 8;
    lemma_pixel_of_mask(sprite_row(mem, index, py - y), 0, 0, s, k);
    if px / 8 == x / 8 + 1 {
        assert(px - x == k + 8 - s);
    }
}

/// A pixel of the toggled memory is set if and only if either it was set or the sprite has
/// a set pixel at its place.
proof fn lemma_toggled_pixel(mem: Seq<u8>, index: u16, x: u8, y: u8, rows: nat, px: int, py: int)
    requires
        mem.len() == MEMORY_SIZE,
        x < 64,
        y < 32,
        0 <= px < 64,
        0 <= py < 32,
    ensures
        pixel_at(toggled(mem, index, x, y, rows), px + 64 * py) == (pixel_at(mem, px + 64 * py)
            != sprite_covers(mem, index, x, y, rows, px, py)),
        pixel_at(mem, px + 64 * py) && sprite_covers(mem, index, x, y, rows, px, py) ==> meets(
            mem,
            index,
            x,
            y,
            rows,
            pixel_address(px + 64 * py),
        ),
{
    let a = pixel_address(px + 64 * py);
    lemma_mask_covers(mem, index, x, y, rows, px, py);
    lemma_pixel_of_mask(0, mem[a], sprite_mask(mem, index, x, y, rows, a), 0, (px % 8) as u8);
}

/// Where the sprite mask meets a set bit of a byte, the sprite has a set pixel at the
/// place of a pixel that is set.
proof fn lemma_meeting_pixel(mem: Seq<u8>, index: u16, x: u8, y: u8, rows: nat, a: int) -> (place:
    (int, int))
    requires
        mem.len() == MEMORY_SIZE,
        x < 64,
        y < 32,
        0 <= a < MEMORY_SIZE,
        meets(mem, index, x, y, rows, a),
    ensures
        0 <= place.0 < 64,
        0 <= place.1 < 32,
        pixel_at(mem, place.0 + 64 * place.1),
        sprite_covers(mem, index, x, y, rows, place.0, place.1),
{
    let m = sprite_mask(mem, index, x, y, rows, a);
    let b = mem[a];
    assert(b & 0 == 0) by (bit_vector);
    lemma_common_pixel(b, m);
    let k = common_pixel(b, m);
    let py = (a - DISPLAY_START) / 8;
    let px = 8 * ((a - DISPLAY_START) % 8) + k;
    lemma_mask_covers(mem, index, x, y, rows, px, py);
    (px, py)
}

/// Drawing a sprite that does not draw over itself, pixel by pixel: a pixel of the
/// screen is toggled if and only if the sprite has a set pixel at its place, and the draw
/// resets a pixel if and only if the sprite has a set pixel at the place of a pixel that
/// is set. What the sprite has beyond the right or the lower edge of the screen is at no
/// place of the screen.
pub proof fn lemma_draw_rows_pixels(mem: Seq<u8>, index: u16, x: u8, y: u8, rows: nat)
    requires
        mem.len() == MEMORY_SIZE,
        x < 64,
        y < 32,
        sprite_untouched(mem, index, x, y, rows),
    ensures
        forall|px: int, py: int|
            0 <= px < 64 && 0 <= py < 32 ==> pixel_at(
                draw_rows(mem, index, x, y, rows).0,
                px + 64 * py,
            ) == (pixel_at(mem, px + 64 * py) != #[trigger] sprite_covers(
                mem,
                index,
                x,
                y,
                rows,
                px,
                py,
            )),
        draw_rows(mem, index, x, y, rows).1 == exists|px: int, py: int|
            0 <= px < 64 && 0 <= py < 32 && pixel_at(mem, px + 64 * py) && #[trigger] sprite_covers(
                mem,
                index,
                x,
                y,
                rows,
                px,
                py,
            ),
{
    lemma_draw_rows_toggle(mem, index, x, y, rows);
    assert forall|px: int, py: int| 0 <= px < 64 && 0 <= py < 32 implies pixel_at(
        toggled(mem, index, x, y, rows),
        px + 64 * py,
    ) == (pixel_at(mem, px + 64 * py) != #[trigger] sprite_covers(
        mem,
        index,
        x,
        y,
        rows,
        px,
        py,
    )) by {
        lemma_toggled_pixel(mem, index, x, y, rows, px, py);
    }
    let hit = exists|px: int, py: int|
        0 <= px < 64 && 0 <= py < 32 && pixel_at(mem, px + 64 * py) && #[trigger] sprite_covers(
            mem,
            index,
            x,
            y,
            rows,
            px,
            py,
        );
    if collides(mem, index, x, y, rows) {
        let a = choose|a: int| 0 <= a < mem.len() && meets(mem, index, x, y, rows, a);
        lemma_meeting_pixel(mem, index, x, y, rows, a);
    }
    if hit {
        let (px, py) = choose|px: int, py: int|
            0 <= px < 64 && 0 <= py < 32 && pixel_at(mem, px + 64 * py) && #[trigger] sprite_covers(
                mem,
                index,
                x,
                y,
                rows,
                px,
                py,
            );
        lemma_toggled_pixel(mem, index, x, y, rows, px, py);
    }
}

/// `D x y n` with a sprite that does not draw over itself, as every sprite below the
/// display buffer: the sprite is XORed onto the screen with its upper left corner at
/// `(V[x] mod 64, V[y] mod 32)`, clipped at the right and the lower edge, and the flag
/// register says whether a pixel was reset.
pub proof fn lemma_draw_pixels(s: MachineState, x: u8, y: u8, n: u8, random: u8)
    requires
        s.wf(),
        digits_wf((0xDu8, x, y, n)),
        sprite_untouched(
            s.memory,
            s.registers.i,
            s.v(x as int) % 64,
            s.v(y as int) % 32,
            n as nat,
        ),
    ensures
        ({
            let x_pos = s.v(x as int) % 64;
            let y_pos = s.v(y as int) % 32;
            let index = s.registers.i;
            &&& execute_spec(s, (0xDu8, x, y, n), random) matches Ok(next)
            &&& forall|px: int, py: int|
                0 <= px < 64 && 0 <= py < 32 ==> pixel_at(next.memory, px + 64 * py) == (pixel_at(
                    s.memory,
                    px + 64 * py,
                ) != #[trigger] sprite_covers(s.memory, index, x_pos, y_pos, n as nat, px, py))
            &&& next.v(15) == flag(
                exists|px: int, py: int|
                    0 <= px < 64 && 0 <= py < 32 && pixel_at(s.memory, px + 64 * py)
                        && #[trigger] sprite_covers(
                        s.memory,
                        index,
                        x_pos,
                        y_pos,
                        n as nat,
                        px,
                        py,
                    ),
            )
        }),
{
    lemma_draw_rows_pixels(
        s.memory,
        s.registers.i,
        s.v(x as int) % 64,
        s.v(y as int) % 32,
        n as nat,
    );
}

/// Drawing the same sprite twice at the same coordinates restores the display: the second
/// draw toggles back each pixel that the first has toggled. A pixel of the sprite that is
/// on the screen meets a set pixel in one of the two draws. So where the first draw changes
/// the display and resets no pixel, as on a cleared display, the second draw resets pixels
/// and sets the flag register.
///
/// The sprite must not draw over itself, which no sprite below the display buffer does, so
/// that both draws draw the same sprite. The coordinates have to be the same for both
/// draws, which they are unless they are taken from the flag register, which the first
/// draw writes.
pub proof fn lemma_draw_twice(s: MachineState, x: u8, y: u8, n: u8, random: u8)
    requires
        s.wf(),
        digits_wf((0xDu8, x, y, n)),
        draw_spec(s, x, y, n).v(x as int) % 64 == s.v(x as int) % 64,
        draw_spec(s, x, y, n).v(y as int) % 32 == s.v(y as int) % 32,
        sprite_untouched(
            s.memory,
            s.registers.i,
            s.v(x as int) % 64,
            s.v(y as int) % 32,
            n as nat,
        ),
    ensures
        ({
            let once = draw_spec(s, x, y, n);
            let twice = draw_spec(once, x, y, n);
            &&& execute_spec(s, (0xDu8, x, y, n), random) == Ok::<MachineState, Fault>(once)
            &&& execute_spec(once, (0xDu8, x, y, n), random) == Ok::<MachineState, Fault>(twice)
            &&& twice.memory == s.memory
            &&& (once.memory != s.memory) == (once.v(15) == 1 || twice.v(15) == 1)
            &&& once.memory != s.memory && once.v(15) == 0 ==> twice.v(15) == 1
        }),
{
    let index = s.registers.i;
    let x_pos = s.v(x as int) % 64;
    let y_pos = s.v(y as int) % 32;
    let rows = n as nat;
    let m0 = s.memory;
    lemma_draw_rows_toggle(m0, index, x_pos, y_pos, rows);
    let m1 = toggled(m0, index, x_pos, y_pos, rows);
    assert forall|a: int| 0 <= a < MEMORY_SIZE implies sprite_mask(
        m1,
        index,
        x_pos,
        y_pos,
        rows,
        a,
    ) == sprite_mask(m0, index, x_pos, y_pos, rows, a) by {
        let row = (a - DISPLAY_START) / 8 - y_pos;
        if DISPLAY_START <= a < MEMORY_SIZE && 0 <= row < rows {
            assert(sprite_mask(m0, index, x_pos, y_pos, rows, index + row) == 0);
            lemma_xor_facts(m0[index + row], 0);
        }
    }
    assert(sprite_untouched(m1, index, x_pos, y_pos, rows)) by {
        assert forall|a: int| index <= a < index + rows implies #[trigger] sprite_mask(
            m1,
            index,
            x_pos,
            y_pos,
            rows,
            a,
        ) == 0 by {
            assert(sprite_mask(m0, index, x_pos, y_pos, rows, a) == 0);
        }
    }
    lemma_draw_rows_toggle(m1, index, x_pos, y_pos, rows);
    let m2 = toggled(m1, index, x_pos, y_pos, rows);
    assert forall|a: int| 0 <= a < MEMORY_SIZE implies m2[a] == m0[a] by {
        lemma_xor_facts(m0[a], sprite_mask(m0, index, x_pos, y_pos, rows, a));
    }
    if m1 != m0 {
        assert(!(m1 =~= m0));
        let a = choose|a: int| 0 <= a < MEMORY_SIZE && m1[a] != m0[a];
        lemma_xor_facts(m0[a], sprite_mask(m0, index, x_pos, y_pos, rows, a));
        if !meets(m0, index, x_pos, y_pos, rows, a) {
            assert(meets(m1, index, x_pos, y_pos, rows, a));
        }
    }
    if collides(m0, index, x_pos, y_pos, rows) {
        let a = choose|a: int| 0 <= a < m0.len() && meets(m0, index, x_pos, y_pos, rows, a);
        lemma_xor_facts(m0[a], sprite_mask(m0, index, x_pos, y_pos, rows, a));
    }
    if collides(m1, index, x_pos, y_pos, rows) {
        let a = choose|a: int| 0 <= a < m1.len() && meets(m1, index, x_pos, y_pos, rows, a);
        lemma_xor_facts(m0[a], sprite_mask(m0, index, x_pos, y_pos, rows, a));
    }
}

/// Clearing the display and then drawing a sprite whose rows are all zero leaves every
/// pixel of the display dark, and the flag register at zero.
pub proof fn lemma_clear_then_draw_zero_sprite(s: MachineState, x: u8, y: u8, n: u8, random: u8)
    requires
        s.wf(),
        digits_wf((0xDu8, x, y, n)),
        forall|i: int| 0 <= i < n ==> sprite_row(cleared(s.memory), s.registers.i, i) == 0,
    ensures
        execute_spec(s, (0u8, 0u8, 0xEu8, 0u8), random) matches Ok(blank) && execute_spec(
            blank,
            (0xDu8, x, y, n),
            random,
        ) matches Ok(drawn) && drawn.memory == cleared(s.memory) && drawn.v(15) == 0 && (forall|
            p: int,
        |
            0 <= p < SCREEN_PIXELS ==> !#[trigger] pixel_at(drawn.memory, p)),
{
    let blank = s.set_memory(cleared(s.memory));
    lemma_cleared_display(s.memory);
    lemma_draw_zero_sprite(blank, x, y, n, random);
}

/// Drawing writes to the display buffer only: the memory keeps its size, and every byte
/// below the display buffer, the font among them, stays as it is.
pub proof fn lemma_draw_rows_frame(mem: Seq<u8>, index: u16, x: u8, y: u8, rows: nat)
    requires
        mem.len() == MEMORY_SIZE,
        x < 64,
        y < 32,
    ensures
        draw_rows(mem, index, x, y, rows).0.len() == MEMORY_SIZE,
        forall|a: int|
            0 <= a < DISPLAY_START ==> draw_rows(mem, index, x, y, rows).0[a] == mem[a],
    decreases rows,
{
    if rows > 0 {
        lemma_draw_rows_frame(mem, index, x, y, (rows - 1) as nat);
    }
}

/// Whether `op` is one of the two instructions that store to memory: the decimal digits of
/// a register, or a range of registers.
pub open spec fn stores(op: Digits) -> bool {
    op.0 == 0xF && ((op.2 == 0x3 && op.3 == 0x3) || (op.2 == 0x5 && op.3 == 0x5))
}

/// Executing an instruction keeps a well-formed state well-formed. Below the display
/// buffer only the two storing instructions write, and only from the address in `I` on: at
/// three addresses for the decimal digits, at `x + 1` for the registers `V0` to `V[x]`. So
/// the font stays as it is unless a program stores into it.
pub proof fn lemma_execute_frame(s: MachineState, op: Digits, random: u8)
    requires
        s.wf(),
        digits_wf(op),
        execute_spec(s, op, random) is Ok,
    ensures
        execute_spec(s, op, random) matches Ok(next) && next.wf() && (forall|a: int|
            0 <= a < DISPLAY_START && #[trigger] next.memory[a] != s.memory[a] ==> stores(op)
                && s.registers.i <= a <= s.registers.i + (if op.2 == 0x3 {
                2
            } else {
                op.1 as int
            })),
{
    if op.0 == 0xD {
        lemma_draw_rows_frame(
            s.memory,
            s.registers.i,
            s.v(op.1 as int) % 64,
            s.v(op.2 as int) % 32,
            op.3 as nat,
        );
    }
}

/// A call followed by the return that takes its return address off the stack goes on
/// behind the call. The call of `NNN` is executed in state `s`, whose program counter is
/// behind the call already. The return is executed in a state `t` that has the stack as
/// the call left it: whatever ran in between has left the stack as it found it. The
/// return then restores the program counter and the stack of `s`.
pub proof fn lemma_call_return(s: MachineState, call: Digits, t: MachineState, random: u8)
    requires
        digits_wf(call),
        call.0 == 2,
        execute_spec(s, call, random) matches Ok(called) && t.stack == called.stack,
    ensures
        execute_spec(s, call, random) matches Ok(called) && called.pc == operand_address(call),
        execute_spec(t, (0u8, 0u8, 0xEu8, 0xEu8), random) matches Ok(returned) && returned.pc
            == s.pc && returned.stack == s.stack,
{
}

/// The timer `t` after updates at the times `times`, in this order.
pub open spec fn updates(t: TimerView, times: Seq<u128>) -> TimerView
    decreases times.len(),
{
    if times.len() == 0 {
        t
    } else {
        updates(t, times.drop_last()).update(times.last())
    }
}

/// The time of the update before update `k` of `times`, which is `start` for the first.
pub open spec fn previous(start: u128, times: Seq<u128>, k: int) -> u128 {
    if k == 0 {
        start
    } else {
        times[k - 1]
    }
}

/// Whether the first of `times` is at least one timer period after `start`, and each
/// other one at least one period after the one before it.
pub open spec fn spaced(start: u128, times: Seq<u128>) -> bool {
    forall|k: int|
        0 <= k < times.len() ==> #[trigger] times[k] - previous(start, times, k)
            >= TIMER_PERIOD_MS
}

/// A timer decays by one with each update that comes at least 16 ms after the one before,
/// down to zero and no further: a timer at `N` is at zero after `N` such updates, and
/// stays there.
pub proof fn lemma_timer_decay(t: TimerView, times: Seq<u128>)
    requires
        spaced(t.last_update, times),
    ensures
        updates(t, times).value == if times.len() <= t.value {
            t.value - times.len()
        } else {
            0
        },
        times.len() >= t.value ==> updates(t, times).value == 0,
        0 < times.len() <= t.value ==> updates(t, times).last_update == times.last(),
    decreases times.len(),
{
    if times.len() > 0 {
        let before = times.drop_last();
        assert(spaced(t.last_update, before)) by {
            assert forall|j: int| 0 <= j < before.len() implies #[trigger] before[j] - previous(
                t.last_update,
                before,
                j,
            ) >= TIMER_PERIOD_MS by {
                assert(times[j] - previous(t.last_update, times, j) >= TIMER_PERIOD_MS);
            }
        }
        lemma_timer_decay(t, before);
    }
}

/// The latest key of a snapshot is the highest key that is pressed: it is pressed, and no
/// key above it is. It is `NO_KEY` if and only if no key is pressed.
pub proof fn lemma_latest_pressed(pressed: Seq<bool>, n: nat)
    requires
        n <= 16,
        n <= pressed.len(),
    ensures
        latest_pressed(pressed, n) == NO_KEY <==> forall|k: int| 0 <= k < n ==> !pressed[k],
        latest_pressed(pressed, n) != NO_KEY ==> latest_pressed(pressed, n) < n && pressed[latest_pressed(
            pressed,
            n,
        ) as int] && forall|k: int| latest_pressed(pressed, n) < k < n ==> !pressed[k],
    decreases n,
{
    if n > 0 {
        lemma_latest_pressed(pressed, (n - 1) as nat);
    }
}

/// A word of zero ends the run: whatever the time, the keys and the random byte, the cycle
/// that fetches it halts, and executes nothing. The memory, the registers and the stack
/// stay as they were; only the timers and the keyboard are refreshed, and the program
/// counter has moved past the word.
pub proof fn lemma_zero_word_halts(s: MachineState, now: u128, pressed: Seq<bool>, random: u8)
    requires
        fetched_word(s) == 0,
    ensures
        cycle_spec(s, now, pressed, random) == (
            refreshed(s, now, pressed).jump((s.pc + 2) as u16),
            Status::Halted,
        ),
        cycle_spec(s, now, pressed, random).0.memory == s.memory,
        cycle_spec(s, now, pressed, random).0.registers == s.registers,
        cycle_spec(s, now, pressed, random).0.stack == s.stack,
{
}

} // verus!
