//! What holds of every machine, proved from the model in
//! [`crate::machine`].
//!
//! The lemmas speak of the functions that the executable machine is proved
//! to compute, so each is a statement about that machine: most of
//! [`Machine::cycle`], which is what [`crate::chip8::Chip8::run`] and
//! [`crate::chip8::Chip8::run_with`] do, and those whose names end in `step`
//! or `steps` of the single instructions, which is what the `op_` methods
//! do.

use vstd::prelude::*;
use crate::chip8::Chip8;
use crate::decode::{group_of, n_of, nn_of, nnn_of, x_of, y_of};
use crate::fault::Fault;
use crate::machine::{highest_held, ticked, toggled, Machine};

verus! {

/// The model of an executable machine always has the right sizes, so every
/// lemma below applies to it, and it is well formed exactly when the
/// executable machine is.
pub proof fn lemma_view_is_sized(chip: Chip8)
    ensures
        chip@.sized(),
        chip@.wf() <==> chip.wf(),
{
}

/// A cycle keeps a machine well formed: the parts keep their sizes and the
/// stack pointer stays within 0 to 16.
pub proof fn lemma_cycle_preserves_wf(m: Machine, random: u8)
    requires
        m.wf(),
    ensures
        m.cycle(random) matches Ok(next) ==> next.wf(),
{
}

/// Only `CXNN` looks at the random byte: whenever the next instruction
/// belongs to another group, a cycle comes out the same for every byte.
pub proof fn lemma_random_matters_to_rnd_only(m: Machine, one: u8, other: u8)
    requires
        group_of(m.next_word()) != 0xC,
    ensures
        m.cycle(one) == m.cycle(other),
{
}

/// What a cycle leaves alone.  The keypad is never written.  The
/// framebuffer changes only under clear-screen and draw, memory only under
/// the two store instructions, and the stack only under a call.
pub proof fn lemma_cycle_frames(m: Machine, random: u8)
    requires
        m.sized(),
    ensures
        m.cycle(random) matches Ok(next) ==> {
            let word = m.next_word();
            &&& next.keypad == m.keypad
            &&& next.opcode == word
            &&& word != 0x00E0 && group_of(word) != 0xD ==> next.video == m.video
            &&& !(group_of(word) == 0xF && (nn_of(word) == 0x33 || nn_of(word) == 0x55))
                ==> next.memory == m.memory
            &&& group_of(word) != 0x2 ==> next.stack == m.stack
        },
{
}

/// The two store instructions write only where they are pointed: the
/// decimal conversion changes nothing outside the three bytes at the index
/// register, and the register store nothing outside the `X + 1` bytes there.
/// In particular the font is safe from a program that keeps the index
/// register away from it.
pub proof fn lemma_stores_write_only_their_range(m: Machine, random: u8, a: int)
    requires
        m.sized(),
        0 <= a < 4096,
    ensures
        m.cycle(random) matches Ok(next) ==> {
            let word = m.next_word();
            let at = m.index_register;
            &&& nn_of(word) == 0x33 && !(at <= a <= at + 2) ==> next.memory[a] == m.memory[a]
            &&& nn_of(word) == 0x55 && !(at <= a <= at + x_of(word)) ==> next.memory[a]
                == m.memory[a]
        },
{
}

/// Loading a program leaves everything below the program offset, the font
/// included, and everything above the end of the image as it was.
pub proof fn lemma_load_writes_only_the_image(m: Machine, image: Seq<u8>, a: int)
    requires
        m.sized(),
        0 <= a < 4096,
        !(0x200 <= a < 0x200 + image.len()),
    ensures
        m.load(image) matches Ok(next) ==> next.memory[a] == m.memory[a],
{
}

/// Where the program counter goes.  Jumps, calls and returns aside, a cycle
/// moves it to the next instruction; the skip instructions move it one
/// instruction further when their condition holds, and the key-wait
/// instruction leaves it in place while no key is held.
pub proof fn lemma_program_counter_steps(m: Machine, random: u8)
    requires
        m.sized(),
    ensures
        m.cycle(random) matches Ok(next) ==> {
            let word = m.next_word();
            let group = group_of(word);
            let vx = m.registers[x_of(word)];
            let vy = m.registers[y_of(word)];
            let skips = {
                ||| group == 0x3 && vx == nn_of(word)
                ||| group == 0x4 && vx != nn_of(word)
                ||| group == 0x5 && vx == vy
                ||| group == 0x9 && vx != vy
                ||| group == 0xE && nn_of(word) == 0x9E && m.keypad[vx as int]
                ||| group == 0xE && nn_of(word) == 0xA1 && !m.keypad[vx as int]
            };
            let waits = group == 0xF && nn_of(word) == 0x0A && highest_held(m.keypad, 16) < 0;
            let leaves = word == 0x00EE || group == 0x1 || group == 0x2 || group == 0xB;
            !leaves ==> next.program_counter == if skips {
                m.program_counter + 4
            } else if waits {
                m.program_counter as int
            } else {
                m.program_counter + 2
            }
        },
{
}

/// Both timers count down by one per cycle and rest at zero, unless the
/// instruction of that cycle sets them, in which case the freshly set value
/// is counted down.
pub proof fn lemma_timers_count_down(m: Machine, random: u8)
    requires
        m.sized(),
    ensures
        m.cycle(random) matches Ok(next) ==> {
            let word = m.next_word();
            let held = m.registers[x_of(word)];
            &&& next.delay_timer == if group_of(word) == 0xF && nn_of(word) == 0x15 {
                ticked(held)
            } else {
                ticked(m.delay_timer)
            }
            &&& next.sound_timer == if group_of(word) == 0xF && nn_of(word) == 0x18 {
                ticked(held)
            } else {
                ticked(m.sound_timer)
            }
        },
{
}

/// A screen whose pixels are all 0x00 or 0xFF stays such a screen.
pub proof fn lemma_cycle_keeps_binary_screen(m: Machine, random: u8)
    requires
        m.sized(),
        m.binary_screen(),
    ensures
        m.cycle(random) matches Ok(next) ==> next.binary_screen(),
{
}

/// The key that the key-wait instruction reports is the highest one held:
/// `highest_held` is -1 exactly when no key below `below` is held, and
/// otherwise names a held key with no held key above it.
pub proof fn lemma_highest_held(keypad: Seq<bool>, below: int)
    requires
        0 <= below <= keypad.len(),
    ensures
        -1 <= highest_held(keypad, below) < below,
        highest_held(keypad, below) == -1 <==> forall|k: int| 0 <= k < below ==> !keypad[k],
        highest_held(keypad, below) >= 0 ==> keypad[highest_held(keypad, below)],
        forall|k: int| highest_held(keypad, below) < k < below ==> !keypad[k],
    decreases below,
{
    if below > 0 {
        lemma_highest_held(keypad, below - 1);
    }
}

/// The three digits that the decimal-conversion instruction stores are the
/// decimal notation of the value.
pub proof fn lemma_decimal_digits(value: u8)
    ensures
        value == 100 * (value / 100) + 10 * ((value / 10) % 10) + value % 10,
        value / 100 <= 2,
        (value / 10) % 10 <= 9,
        value % 10 <= 9,
{
    assert(value == 100 * (value / 100) + 10 * ((value / 10) % 10) + value % 10) by (bit_vector);
    assert(value / 100 <= 2 && (value / 10) % 10 <= 9 && value % 10 <= 9) by (bit_vector);
}

/// The four hexadecimal digits of a word are its fields: the word written
/// `GXYN` has group `G`, register digits `X` and `Y`, last digit `N`, low
/// byte `YN` and address `XYN`.
pub proof fn lemma_word_fields(g: int, x: int, y: int, n: int)
    requires
        0 <= g < 16,
        0 <= x < 16,
        0 <= y < 16,
        0 <= n < 16,
    ensures
        ({
            let word = (0x1000 * g + 0x100 * x + 0x10 * y + n) as u16;
            &&& word == 0x1000 * g + 0x100 * x + 0x10 * y + n
            &&& group_of(word) == g
            &&& x_of(word) == x
            &&& y_of(word) == y
            &&& n_of(word) == n
            &&& nn_of(word) == 0x10 * y + n
            &&& nnn_of(word) == 0x100 * x + 0x10 * y + n
        }),
{
    let (gd, xd, yd, nd) = (g as u16, x as u16, y as u16, n as u16);
    assert(gd < 16 && xd < 16 && yd < 16 && nd < 16 ==> {
        let word = (0x1000 * gd + 0x100 * xd + 0x10 * yd + nd) as u16;
        &&& word == 0x1000 * gd + 0x100 * xd + 0x10 * yd + nd
        &&& word / 4096 == gd
        &&& (word / 256) % 16 == xd
        &&& (word / 16) % 16 == yd
        &&& word % 16 == nd
        &&& word % 256 == 0x10 * yd + nd
        &&& word % 4096 == 0x100 * xd + 0x10 * yd + nd
    }) by (bit_vector);
}

/// Add with carry (`8XY4`), as the step [`Chip8::op_8xyk`] carries it out
/// with selector 4.  Register `X` ends as the sum of registers `X` and `Y`
/// modulo 256, for every `X` and `Y`.  The flag register ends as 1 if the
/// sum exceeds 255 and as 0 otherwise, provided `X` is not the flag register
/// itself: the result is written after the flag, so there the result stands.
pub proof fn lemma_add_step(m: Machine)
    requires
        m.sized(),
    ensures
        m.alu(4) is Some,
        ({
            let next = m.alu(4)->Some_0;
            let sum = m.vx() + m.vy();
            &&& next.registers[m.x()] == sum % 256
            &&& m.x() != 0xF ==> next.registers[0xF] == if sum > 255 {
                1int
            } else {
                0int
            }
            &&& forall|i: int| 0 <= i < 16 && i != m.x() && i != 0xF ==> next.registers[i] == m.registers[i]
            &&& next == Machine { registers: next.registers, ..m }
        }),
{
}

/// Subtract (`8XY5`), as the step [`Chip8::op_8xyk`] carries it out with
/// selector 5.  Register `X` ends as register `X` minus register `Y` modulo
/// 256, both as they were before the step, for every `X` and `Y`.  The flag
/// register ends as 1 if register `X` was at least register `Y` and as 0
/// otherwise, provided `X` is not the flag register itself.
pub proof fn lemma_subtract_step(m: Machine)
    requires
        m.sized(),
    ensures
        m.alu(5) is Some,
        ({
            let next = m.alu(5)->Some_0;
            let a = m.vx();
            let b = m.vy();
            &&& next.registers[m.x()] == (a - b) % 256
            &&& m.x() != 0xF ==> next.registers[0xF] == if a >= b {
                1int
            } else {
                0int
            }
            &&& forall|i: int| 0 <= i < 16 && i != m.x() && i != 0xF ==> next.registers[i] == m.registers[i]
            &&& next == Machine { registers: next.registers, ..m }
        }),
{
}

/// Add with carry (`8XY4`) over a whole cycle.  Register `X` ends as the sum
/// of registers `X` and `Y` modulo 256, for every `X` and `Y`.  The flag
/// register ends as 1 if the sum exceeds 255 and as 0 otherwise, provided
/// `X` is not the flag register itself: the result is written after the
/// flag, so there the result stands.
pub proof fn lemma_add_with_carry(m: Machine, x: int, y: int, random: u8)
    requires
        m.sized(),
        m.program_counter + 1 < 4096,
        group_of(m.next_word()) == 0x8,
        x_of(m.next_word()) == x,
        y_of(m.next_word()) == y,
        n_of(m.next_word()) == 0x4,
    ensures
        m.cycle(random) is Ok,
        ({
            let next = m.cycle(random)->Ok_0;
            let sum = m.registers[x] + m.registers[y];
            &&& next.registers[x] == sum % 256
            &&& x != 0xF ==> next.registers[0xF] == if sum > 255 {
                1int
            } else {
                0int
            }
        }),
{
    let fetched = m.fetched();
    assert(fetched.execute(random) == Ok::<Machine, Fault>(fetched.add_registers(x, y)));
}

/// Subtract (`8XY5`) over a whole cycle.  Register `X` ends as register `X`
/// minus register `Y` modulo 256, both as they were before the cycle, for
/// every `X` and `Y`.  The flag register ends as 1 if register `X` was at
/// least register `Y` and as 0 otherwise, provided `X` is not the flag
/// register itself: the result is written after the flag, so there the
/// result stands.
pub proof fn lemma_subtract(m: Machine, x: int, y: int, random: u8)
    requires
        m.sized(),
        m.program_counter + 1 < 4096,
        group_of(m.next_word()) == 0x8,
        x_of(m.next_word()) == x,
        y_of(m.next_word()) == y,
        n_of(m.next_word()) == 0x5,
    ensures
        m.cycle(random) is Ok,
        ({
            let next = m.cycle(random)->Ok_0;
            let a = m.registers[x];
            let b = m.registers[y];
            &&& next.registers[x] == (a - b) % 256
            &&& x != 0xF ==> next.registers[0xF] == if a >= b {
                1int
            } else {
                0int
            }
        }),
{
    let fetched = m.fetched();
    assert(fetched.execute(random) == Ok::<Machine, Fault>(fetched.subtract_registers(x, y)));
}

/// A draw right after a clear-screen, as the steps [`Chip8::op_00e0`] and
/// [`Chip8::op_dxyn`] carry them out, whatever word `word` the draw is
/// given: exactly the sprite is on the screen, 0xFF under its set bits and
/// 0x00 everywhere else, and no collision is reported.
pub proof fn lemma_clear_then_draw_steps(m: Machine, word: u16)
    requires
        m.sized(),
    ensures
        ({
            let drawing = Machine { opcode: word, ..m.clear_screen() };
            drawing.draw() matches Ok(drawn) ==> {
                &&& drawn.registers[0xF] == 0
                &&& forall|p: int|
                    0 <= p < 2048 ==> #[trigger] drawn.video[p] == if drawing.covers_pixel(p) {
                        0xFFu8
                    } else {
                        0x00u8
                    }
            }
        }),
{
    let drawing = Machine { opcode: word, ..m.clear_screen() };
    assert(!drawing.collides());
}

/// A return right after a call, as the steps [`Chip8::op_2nnn`] and
/// [`Chip8::op_00ee`] carry them out: the program counter is back where it
/// was when the call was made, which in a cycle is right after the call was
/// fetched, and so is the stack pointer.
pub proof fn lemma_call_then_return_steps(m: Machine, word: u16)
    requires
        m.sized(),
        m.call() is Ok,
    ensures
        ({
            let called = m.call()->Ok_0;
            let returning = Machine { opcode: word, ..called };
            &&& called.program_counter == m.nnn()
            &&& returning.ret() is Ok
            &&& returning.ret()->Ok_0.program_counter == m.program_counter
            &&& returning.ret()->Ok_0.stack_pointer == m.stack_pointer
        }),
{
}

/// The same draw twice in a row, as the step [`Chip8::op_dxyn`] carries it
/// out: the second draw, given a word with the same row count and landing at
/// the same place, restores the screen, and reports a collision exactly when
/// the first draw turned at least one pixel on.
pub proof fn lemma_draw_twice_steps(m: Machine, word: u16)
    requires
        m.sized(),
        m.binary_screen(),
        m.draw() is Ok,
        n_of(word) == m.n(),
        (Machine { opcode: word, ..m.draw()->Ok_0 }).origin_x() == m.origin_x(),
        (Machine { opcode: word, ..m.draw()->Ok_0 }).origin_y() == m.origin_y(),
    ensures
        ({
            let again = Machine { opcode: word, ..m.draw()->Ok_0 };
            let turned_on = exists|p: int|
                0 <= p < 2048 && #[trigger] m.covers_pixel(p) && m.video[p] == 0;
            &&& again.draw() is Ok
            &&& again.draw()->Ok_0.video == m.video
            &&& again.draw()->Ok_0.registers[0xF] == if turned_on {
                1int
            } else {
                0int
            }
        }),
{
    let once = m.draw()->Ok_0;
    let again = Machine { opcode: word, ..once };
    let twice = again.draw()->Ok_0;
    assert forall|p: int| 0 <= p < 2048 implies again.covers_pixel(p) == m.covers_pixel(p) by {}
    assert(twice.video =~= m.video) by {
        assert forall|p: int| 0 <= p < 2048 implies twice.video[p] == m.video[p] by {
            assert(toggled(toggled(m.video[p])) == m.video[p]);
        }
    }
    let turned_on = exists|p: int| 0 <= p < 2048 && #[trigger] m.covers_pixel(p) && m.video[p] == 0;
    if turned_on {
        let p = choose|p: int| 0 <= p < 2048 && #[trigger] m.covers_pixel(p) && m.video[p] == 0;
        assert(again.covers_pixel(p) && again.video[p] != 0);
    }
    if again.collides() {
        let p = choose|p: int|
            0 <= p < 2048 && #[trigger] again.covers_pixel(p) && again.video[p] != 0;
        assert(m.covers_pixel(p) && m.video[p] == 0);
    }
}

/// Clear-screen followed by a draw leaves exactly the sprite on the screen:
/// a pixel is 0xFF where the sprite has a set bit over it and 0x00
/// everywhere else, and no collision is reported.  The draw can still fault
/// if the sprite reaches past the end of memory.
pub proof fn lemma_clear_then_draw(m: Machine, first: u8, second: u8)
    requires
        m.sized(),
        m.program_counter + 3 < 4096,
        m.next_word() == 0x00E0,
        group_of(m.word_at(m.program_counter + 2)) == 0xD,
    ensures
        m.cycle(first) is Ok,
        ({
            let cleared = m.cycle(first)->Ok_0;
            let drawing = cleared.fetched();
            match cleared.cycle(second) {
                Ok(drawn) => {
                    &&& drawn.registers[0xF] == 0
                    &&& forall|p: int|
                        0 <= p < 2048 ==> #[trigger] drawn.video[p] == if drawing.covers_pixel(p) {
                            0xFFu8
                        } else {
                            0x00u8
                        }
                },
                Err(fault) => {
                    &&& fault == Fault::OutOfBounds
                    &&& drawing.index_register + drawing.n() > 4096
                },
            }
        }),
{
    let cleared = m.cycle(first)->Ok_0;
    let drawing = cleared.fetched();
    assert(cleared.next_word() == m.word_at(m.program_counter + 2));
    assert(!drawing.collides());
}

/// A call followed at once by a return comes back to the instruction after
/// the call: the program counter is the address it had right after the call
/// was fetched, and the stack pointer is where it was.
pub proof fn lemma_call_then_return(m: Machine, first: u8, second: u8)
    requires
        m.sized(),
        m.program_counter + 1 < 4096,
        group_of(m.next_word()) == 0x2,
        m.cycle(first) is Ok,
        nnn_of(m.next_word()) + 1 < 4096,
        m.word_at(nnn_of(m.next_word()) as int) == 0x00EE,
    ensures
        ({
            let called = m.cycle(first)->Ok_0;
            &&& called.program_counter == nnn_of(m.next_word())
            &&& called.stack_pointer == m.stack_pointer + 1
            &&& called.cycle(second) is Ok
            &&& called.cycle(second)->Ok_0.program_counter == m.program_counter + 2
            &&& called.cycle(second)->Ok_0.stack_pointer == m.stack_pointer
        }),
{
}

/// Drawing the same sprite at the same place twice in a row restores the
/// screen, and the second draw reports a collision exactly when the first
/// one turned at least one pixel on.
///
/// "The same place" is a premise: the first draw writes the flag register,
/// so a draw whose position comes from the flag register may land elsewhere
/// the second time.
pub proof fn lemma_draw_twice(m: Machine, first: u8, second: u8)
    requires
        m.sized(),
        m.binary_screen(),
        m.program_counter + 1 < 4096,
        group_of(m.next_word()) == 0xD,
        m.cycle(first) is Ok,
        m.cycle(first)->Ok_0.program_counter + 1 < 4096,
        group_of(m.cycle(first)->Ok_0.next_word()) == 0xD,
        n_of(m.cycle(first)->Ok_0.next_word()) == n_of(m.next_word()),
        m.cycle(first)->Ok_0.fetched().origin_x() == m.fetched().origin_x(),
        m.cycle(first)->Ok_0.fetched().origin_y() == m.fetched().origin_y(),
    ensures
        m.cycle(first)->Ok_0.cycle(second) is Ok,
        ({
            let twice = m.cycle(first)->Ok_0.cycle(second)->Ok_0;
            let turned_on = exists|p: int|
                0 <= p < 2048 && #[trigger] m.fetched().covers_pixel(p) && m.video[p] == 0;
            &&& twice.video == m.video
            &&& twice.registers[0xF] == if turned_on {
                1int
            } else {
                0int
            }
        }),
{
    let drawing = m.fetched();
    let once = m.cycle(first)->Ok_0;
    let again = once.fetched();
    let twice = once.cycle(second)->Ok_0;
    assert forall|p: int| 0 <= p < 2048 implies again.covers_pixel(p) == drawing.covers_pixel(
        p,
    ) by {}
    assert(twice.video =~= m.video) by {
        assert forall|p: int| 0 <= p < 2048 implies twice.video[p] == m.video[p] by {
            assert(toggled(toggled(m.video[p])) == m.video[p]);
        }
    }
    let turned_on = exists|p: int|
        0 <= p < 2048 && #[trigger] drawing.covers_pixel(p) && m.video[p] == 0;
    if turned_on {
        let p = choose|p: int|
            0 <= p < 2048 && #[trigger] drawing.covers_pixel(p) && m.video[p] == 0;
        assert(again.covers_pixel(p) && once.video[p] != 0);
    }
    if again.collides() {
        let p = choose|p: int|
            0 <= p < 2048 && #[trigger] again.covers_pixel(p) && again.video[p] != 0;
        assert(drawing.covers_pixel(p) && m.video[p] == 0);
    }
}

} // verus!
