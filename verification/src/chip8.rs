//! The executable machine.
//!
//! [`Chip8::run`] is a whole cycle and asks nothing of its caller.  Each
//! `op_` method is one instruction on its own: it works on the word that
//! `opcode` holds, fetches nothing and leaves the timers alone.  The ones
//! that step the program counter ask for room to step, which a fetch always
//! leaves, and the two register comparisons ask for a word that ends in 0.

use vstd::prelude::*;
use crate::decode::{address, byte, group, nibble, register_x, register_y, word};
use crate::fault::Fault;
use crate::font::{FONTSET_SIZE, FONTSET_START_ADDRESS, FONT_DATA, START_ADDRESS};
use crate::machine::{highest_held, outcome_is, toggled, Machine};
use crate::random::random_byte;

verus! {

/// A CHIP-8 machine.
///
/// The fields are open to the host: it writes `keypad`, reads `video`, and
/// may inspect or prepare anything else.  The model of a machine is its view,
/// a [`Machine`].
#[derive(Debug, PartialEq, Eq)]
pub struct Chip8 {
    /// The sixteen general registers; register 0xF doubles as the flag.
    pub registers: [u8; 16],
    /// The 4096 bytes of memory.
    pub memory: [u8; 4096],
    /// The index register.
    pub index_register: u16,
    /// The address of the next instruction.
    pub program_counter: u16,
    /// The sixteen return addresses.
    pub stack: [u16; 16],
    /// The number of return addresses in use, at most sixteen.
    pub stack_pointer: u16,
    /// The delay timer.
    pub delay_timer: u8,
    /// The sound timer.
    pub sound_timer: u8,
    /// The sixteen keys; `true` while a key is held.
    pub keypad: [bool; 16],
    /// The 64 by 32 pixels, row by row; 0x00 is off, 0xFF is on.
    pub video: [u8; 2048],
    /// The instruction word fetched last.
    pub opcode: u16,
}

impl View for Chip8 {
    type V = Machine;

    open spec fn view(&self) -> Machine {
        Machine {
            registers: self.registers@,
            memory: self.memory@,
            index_register: self.index_register,
            program_counter: self.program_counter,
            stack: self.stack@,
            stack_pointer: self.stack_pointer,
            delay_timer: self.delay_timer,
            sound_timer: self.sound_timer,
            keypad: self.keypad@,
            video: self.video@,
            opcode: self.opcode,
        }
    }
}

impl Clone for Chip8 {
    /// A second machine in the same state.
    fn clone(&self) -> (copy: Chip8)
        ensures
            copy@ == self@,
    {
        Chip8 {
            registers: self.registers,
            memory: self.memory,
            index_register: self.index_register,
            program_counter: self.program_counter,
            stack: self.stack,
            stack_pointer: self.stack_pointer,
            delay_timer: self.delay_timer,
            sound_timer: self.sound_timer,
            keypad: self.keypad,
            video: self.video,
            opcode: self.opcode,
        }
    }
}

/// Whether pixel `p` lies under a set bit of the sprite that `before` is about
/// to draw, in a sprite row above `row` or in that row left of `col`.
spec fn passed(before: Machine, p: int, row: int, col: int) -> bool {
    let sprite_row = p / 64 - before.origin_y();
    let sprite_col = p % 64 - before.origin_x();
    before.covers_pixel(p) && (sprite_row < row || (sprite_row == row && sprite_col < col))
}

impl Chip8 {
    /// The one thing the field types do not enforce: the stack pointer counts
    /// at most sixteen entries.  A new machine is well formed and every
    /// operation keeps it so.
    pub open spec fn wf(&self) -> bool {
        self.stack_pointer <= 16
    }

    /// Where a draw stands when its scan of the sprite has reached column
    /// `col` of sprite row `row`: every pixel under a set bit that the scan
    /// has passed is flipped, every other pixel is as it was in `before`, the
    /// flag says whether a passed pixel was on, and nothing else has changed.
    spec fn drawing(&self, before: Machine, row: int, col: int) -> bool {
        &&& self@ =~= (Machine { video: self.video@, registers: self.registers@, ..before })
        &&& self.registers@ =~= before.registers.update(0xF, self.registers@[0xF])
        &&& forall|p: int|
            0 <= p < 2048 ==> #[trigger] self.video@[p] == if passed(before, p, row, col) {
                toggled(before.video[p])
            } else {
                before.video[p]
            }
        &&& self.registers@[0xF] == 1 ==> before.collides()
        &&& self.registers@[0xF] != 1 ==> self.registers@[0xF] == 0 && forall|p: int|
            0 <= p < 2048 && #[trigger] before.covers_pixel(p) && passed(before, p, row, col)
                ==> before.video[p] == 0
    }

    /// A machine ready for a program: everything zero, the font at its
    /// address and the program counter at the program offset.
    pub fn create() -> (chip: Chip8)
        ensures
            chip@ == Machine::initial(),
            chip.wf(),
    {
        let mut chip = Chip8 {
            registers: [0; 16],
            memory: [0; 4096],
            index_register: 0,
            program_counter: START_ADDRESS,
            stack: [0; 16],
            stack_pointer: 0,
            delay_timer: 0,
            sound_timer: 0,
            keypad: [false; 16],
            video: [0; 2048],
            opcode: 0,
        };

        for i in 0..FONTSET_SIZE
            invariant
                chip@ == (Machine { memory: chip.memory@, ..Machine::initial() }),
                forall|a: int|
                    0 <= a < 4096 ==> #[trigger] chip.memory@[a] == if 0x50 <= a < 0x50 + i {
                        FONT_DATA[a - 0x50]
                    } else {
                        0u8
                    },
        {
            chip.memory[(FONTSET_START_ADDRESS + i) as usize] = FONT_DATA[i as usize];
        }

        chip
    }

    /// `00E0`: clears the display.
    pub fn op_00e0(&mut self)
        ensures
            final(self)@ == old(self)@.clear_screen(),
    {
        self.video = [0; 2048];
    }

    /// `00EE`: returns from a subroutine.
    pub fn op_00ee(&mut self) -> (res: Result<(), Fault>)
        ensures
            outcome_is(old(self)@.ret(), old(self)@, res, final(self)@),
    {
        if self.stack_pointer == 0 {
            return Err(Fault::StackUnderflow);
        }
        if self.stack_pointer > 16 {
            return Err(Fault::StackOverflow);
        }
        self.stack_pointer -= 1;
        self.program_counter = self.stack[self.stack_pointer as usize];
        Ok(())
    }

    /// `1NNN`: jumps to `NNN`.
    pub fn op_1nnn(&mut self)
        ensures
            final(self)@ == old(self)@.jump(),
    {
        let address: u16 = address(self.opcode);
        self.program_counter = address;
    }

    /// `2NNN`: calls the subroutine at `NNN`.
    pub fn op_2nnn(&mut self) -> (res: Result<(), Fault>)
        ensures
            outcome_is(old(self)@.call(), old(self)@, res, final(self)@),
    {
        let address: u16 = address(self.opcode);

        if self.stack_pointer >= 16 {
            return Err(Fault::StackOverflow);
        }
        self.stack[self.stack_pointer as usize] = self.program_counter;
        self.stack_pointer += 1;

        self.program_counter = address;
        Ok(())
    }

    /// `3XNN`: skips the next instruction if register `X` equals `NN`.
    pub fn op_3xnn(&mut self)
        requires
            old(self).program_counter + 2 <= u16::MAX,
        ensures
            final(self)@ == old(self)@.skip_when(old(self)@.vx() == old(self)@.nn()),
    {
        let register_index: usize = register_x(self.opcode);
        let operand: u8 = byte(self.opcode);

        if self.registers[register_index] == operand {
            self.program_counter += 2;
        }
    }

    /// `4XNN`: skips the next instruction if register `X` differs from `NN`.
    pub fn op_4xnn(&mut self)
        requires
            old(self).program_counter + 2 <= u16::MAX,
        ensures
            final(self)@ == old(self)@.skip_when(old(self)@.vx() != old(self)@.nn()),
    {
        let register_index: usize = register_x(self.opcode);
        let operand: u8 = byte(self.opcode);

        if self.registers[register_index] != operand {
            self.program_counter += 2;
        }
    }

    /// `5XY0`: skips the next instruction if registers `X` and `Y` are equal.
    pub fn op_5xy0(&mut self)
        requires
            old(self)@.n() == 0,
            old(self).program_counter + 2 <= u16::MAX,
        ensures
            final(self)@ == old(self)@.skip_when(old(self)@.vx() == old(self)@.vy()),
    {
        let register_0: usize = register_x(self.opcode);
        let register_1: usize = register_y(self.opcode);

        if self.registers[register_0] == self.registers[register_1] {
            self.program_counter += 2;
        }
    }

    /// `6XNN`: loads `NN` into register `X`.
    pub fn op_6xnn(&mut self)
        ensures
            final(self)@ == old(self)@.load_byte(),
    {
        let register_index: usize = register_x(self.opcode);
        let set_to: u8 = byte(self.opcode);

        self.registers[register_index] = set_to;
    }

    /// `7XNN`: adds `NN` to register `X`, modulo 256.
    pub fn op_7xnn(&mut self)
        ensures
            final(self)@ == old(self)@.add_byte(),
    {
        let register_index: usize = register_x(self.opcode);
        let add: u16 = byte(self.opcode) as u16;

        let sum: u16 = self.registers[register_index] as u16 + add;
        assert(sum & 0xFF == sum % 256) by (bit_vector);

        self.registers[register_index] = (sum & 0xFF) as u8;
    }

    /// `8XY4`: adds register `b` to register `a` and reports the carry.
    fn add_registers(&mut self, a: usize, b: usize)
        requires
            a < 16,
            b < 16,
        ensures
            final(self)@ == old(self)@.add_registers(a as int, b as int),
    {
        let sum: u16 = self.registers[a] as u16 + self.registers[b] as u16;
        assert(sum & 0xFF == sum % 256) by (bit_vector);
        self.registers[0xF] = if sum > 0xFF {
            1
        } else {
            0
        };

        self.registers[a] = (sum & 0xFF) as u8;
    }

    /// `8XY5`: subtracts register `b` from register `a` and reports whether
    /// nothing was borrowed.
    fn subtract_registers(&mut self, a: usize, b: usize)
        requires
            a < 16,
            b < 16,
        ensures
            final(self)@ == old(self)@.subtract_registers(a as int, b as int),
    {
        let minuend: u8 = self.registers[a];
        let subtrahend: u8 = self.registers[b];
        let difference: u8 = minuend.wrapping_sub(subtrahend);
        self.registers[0xF] = if minuend >= subtrahend {
            1
        } else {
            0
        };

        self.registers[a] = difference;
    }

    /// `8XY6`: shifts register `a` right by one bit and reports the bit
    /// shifted out.
    fn shift_right(&mut self, a: usize)
        requires
            a < 16,
        ensures
            final(self)@ == old(self)@.shift_right(a as int),
    {
        let value: u8 = self.registers[a];
        assert(value & 0x1 == value % 2) by (bit_vector);
        assert(value >> 1 == value / 2) by (bit_vector);
        self.registers[0xF] = value & 0x1;

        self.registers[a] = value >> 1;
    }

    /// `8XY7`: puts register `b` minus register `a` into register `a` and
    /// reports whether register `b` was the greater.
    fn subtract_reversed(&mut self, a: usize, b: usize)
        requires
            a < 16,
            b < 16,
        ensures
            final(self)@ == old(self)@.subtract_reversed(a as int, b as int),
    {
        let subtrahend: u8 = self.registers[a];
        let minuend: u8 = self.registers[b];
        let difference: u8 = minuend.wrapping_sub(subtrahend);
        self.registers[0xF] = if minuend > subtrahend {
            1
        } else {
            0
        };

        self.registers[a] = difference;
    }

    /// `8XYE`: shifts register `a` left by one bit and reports the bit
    /// shifted out.
    fn shift_left(&mut self, a: usize)
        requires
            a < 16,
        ensures
            final(self)@ == old(self)@.shift_left(a as int),
    {
        let value: u8 = self.registers[a];
        assert((value & 0x80) >> 7 == value / 128) by (bit_vector);
        assert(value << 1 == (value * 2) % 256) by (bit_vector);
        self.registers[0xF] = (value & 0x80) >> 7;

        self.registers[a] = value << 1;
    }

    /// `8XYK`: the register-to-register operation selected by `k`.
    pub fn op_8xyk(&mut self, k: u32) -> (res: Result<(), Fault>)
        ensures
            match old(self)@.alu(k as int) {
                Some(next) => res is Ok && final(self)@ == next,
                None => res == Err::<(), Fault>(Fault::InvalidInstruction(old(self).opcode))
                    && final(self)@ == old(self)@,
            },
    {
        let a: usize = register_x(self.opcode);
        let b: usize = register_y(self.opcode);

        match k {
            0 => {
                self.registers[a] = self.registers[b];
            },
            1 => {
                self.registers[a] = self.registers[a] | self.registers[b];
            },
            2 => {
                self.registers[a] = self.registers[a] & self.registers[b];
            },
            3 => {
                self.registers[a] = self.registers[a] ^ self.registers[b];
            },
            4 => self.add_registers(a, b),
            5 => self.subtract_registers(a, b),
            6 => self.shift_right(a),
            7 => self.subtract_reversed(a, b),
            0xE => self.shift_left(a),
            _ => {
                return Err(Fault::InvalidInstruction(self.opcode));
            },
        }
        Ok(())
    }

    /// `9XY0`: skips the next instruction if registers `X` and `Y` differ.
    pub fn op_9xy0(&mut self)
        requires
            old(self)@.n() == 0,
            old(self).program_counter + 2 <= u16::MAX,
        ensures
            final(self)@ == old(self)@.skip_when(old(self)@.vx() != old(self)@.vy()),
    {
        let a: usize = register_x(self.opcode);
        let b: usize = register_y(self.opcode);

        if self.registers[a] != self.registers[b] {
            self.program_counter += 2;
        }
    }

    /// `ANNN`: loads `NNN` into the index register.
    pub fn op_annn(&mut self)
        ensures
            final(self)@ == old(self)@.load_index(),
    {
        let address: u16 = address(self.opcode);
        self.index_register = address;
    }

    /// `BNNN`: jumps to `NNN` plus register 0.
    pub fn op_bnnn(&mut self)
        ensures
            final(self)@ == old(self)@.jump_offset(),
    {
        let address: u16 = address(self.opcode);
        self.program_counter = self.registers[0] as u16 + address;
    }

    /// `CXNN`: loads a random byte, masked by `NN`, into register `X`.
    ///
    /// The byte comes from the generator, so all that is known afterwards is
    /// that some byte was drawn and stored as [`Self::store_random`] stores it.
    pub fn op_cxkk(&mut self)
        ensures
            exists|random: u8| final(self)@ == #[trigger] old(self)@.random_masked(random),
    {
        let random: u8 = random_byte();
        self.store_random(random);
    }

    /// The effect of `CXNN` once the byte has been drawn: register `X`
    /// becomes `random & NN`.
    fn store_random(&mut self, random: u8)
        ensures
            final(self)@ == old(self)@.random_masked(random),
    {
        let register_index = register_x(self.opcode);
        let mask: u8 = byte(self.opcode);

        self.registers[register_index] = random & mask;
    }

    /// `DXYN`: draws the `N`-row sprite at the index register, its top left
    /// corner at column `reg[X] mod 64` of row `reg[Y] mod 32`, clipped at
    /// the right and bottom edges.
    pub fn op_dxyn(&mut self) -> (res: Result<(), Fault>)
        ensures
            outcome_is(old(self)@.draw(), old(self)@, res, final(self)@),
    {
        let a: usize = register_x(self.opcode);
        let b: usize = register_y(self.opcode);
        let height: u8 = nibble(self.opcode);

        let x: u8 = self.registers[a] % 64;
        let y: u8 = self.registers[b] % 32;

        if height > 0 && self.index_register as usize + height as usize > 4096 {
            return Err(Fault::OutOfBounds);
        }
        self.registers[0xF] = 0;

        let mut row: u8 = 0;
        while row < height
            invariant
                row <= height < 16,
                height == old(self)@.n(),
                height > 0 ==> self.index_register + height <= 4096,
                x == old(self)@.origin_x(),
                y == old(self)@.origin_y(),
                self.drawing(old(self)@, row as int, 0),
            decreases height - row,
        {
            let sprite: u8 = self.memory[(self.index_register + row as u16) as usize];
            let ypos: usize = y as usize + row as usize;

            if ypos < 32 {
                let mut col: u8 = 0;
                while col < 8
                    invariant
                        col <= 8,
                        row < height,
                        height == old(self)@.n(),
                        ypos == y + row,
                        ypos < 32,
                        x < 64,
                        x == old(self)@.origin_x(),
                        y == old(self)@.origin_y(),
                        sprite == old(self).memory@[old(self).index_register + row],
                        self.drawing(old(self)@, row as int, col as int),
                    decreases 8 - col,
                {
                    let xpos: usize = x as usize + col as usize;
                    let pixel: u8 = sprite & (0x80u8 >> col);

                    if xpos < 64 && pixel != 0 {
                        let at: usize = xpos + ypos * 64;
                        assert(old(self)@.covers_pixel(at as int));
                        if self.video[at] != 0 {
                            self.registers[0xF] = 1;
                            self.video[at] = 0x00;
                        } else {
                            self.video[at] = 0xFF;
                        }
                    }
                    col += 1;
                }
            }
            row += 1;
        }
        proof {
            let drawn = old(self)@.draw()->Ok_0;
            assert(self.registers@[0xF] == 0 ==> !old(self)@.collides());
            assert(self.video@ =~= drawn.video);
            assert(self.registers@ =~= drawn.registers);
        }
        Ok(())
    }

    /// `EX9E`: skips the next instruction if the key named by register `X`
    /// is held.
    pub fn op_ex9e(&mut self) -> (res: Result<(), Fault>)
        requires
            old(self).program_counter + 2 <= u16::MAX,
        ensures
            outcome_is(old(self)@.skip_key(true), old(self)@, res, final(self)@),
    {
        let register_index: usize = register_x(self.opcode);
        let key: usize = self.registers[register_index] as usize;

        if key >= 16 {
            return Err(Fault::KeyOutOfRange);
        }
        if self.keypad[key] {
            self.program_counter += 2;
        }
        Ok(())
    }

    /// `EXA1`: skips the next instruction if the key named by register `X`
    /// is not held.
    pub fn op_exa1(&mut self) -> (res: Result<(), Fault>)
        requires
            old(self).program_counter + 2 <= u16::MAX,
        ensures
            outcome_is(old(self)@.skip_key(false), old(self)@, res, final(self)@),
    {
        let register_index: usize = register_x(self.opcode);
        let key: usize = self.registers[register_index] as usize;

        if key >= 16 {
            return Err(Fault::KeyOutOfRange);
        }
        if !self.keypad[key] {
            self.program_counter += 2;
        }
        Ok(())
    }

    /// `FX07`: loads the delay timer into register `X`.
    pub fn op_fx07(&mut self)
        ensures
            final(self)@ == old(self)@.load_delay(),
    {
        let register_index: usize = register_x(self.opcode);
        self.registers[register_index] = self.delay_timer;
    }

    /// `FX0A`: waits for a key.  With no key held the program counter steps
    /// back onto this instruction; otherwise the highest held key goes into
    /// register `X`.
    pub fn op_fx0a(&mut self)
        requires
            old(self).program_counter >= 2,
        ensures
            final(self)@ == old(self)@.wait_key(),
    {
        let register_index: usize = register_x(self.opcode);
        let mut flag: bool = false;

        for i in 0..16usize
            invariant
                register_index == old(self)@.x(),
                self@ == (Machine { registers: self.registers@, ..old(self)@ }),
                flag == (highest_held(old(self).keypad@, i as int) >= 0),
                self.registers@ == if flag {
                    old(self).registers@.update(
                        register_index as int,
                        highest_held(old(self).keypad@, i as int) as u8,
                    )
                } else {
                    old(self).registers@
                },
        {
            if self.keypad[i] {
                self.registers[register_index] = i as u8;
                flag = true;
            }
        }

        if !flag {
            self.program_counter -= 2;
        }
    }

    /// `FX15`: loads register `X` into the delay timer.
    pub fn op_fx15(&mut self)
        ensures
            final(self)@ == old(self)@.set_delay(),
    {
        let register_index: usize = register_x(self.opcode);
        self.delay_timer = self.registers[register_index];
    }

    /// `FX18`: loads register `X` into the sound timer.
    pub fn op_fx18(&mut self)
        ensures
            final(self)@ == old(self)@.set_sound(),
    {
        let register_index: usize = register_x(self.opcode);
        self.sound_timer = self.registers[register_index];
    }

    /// `FX1E`: adds register `X` to the index register, modulo 65536.
    pub fn op_fx1e(&mut self)
        ensures
            final(self)@ == old(self)@.add_index(),
    {
        let register_index: usize = register_x(self.opcode);
        self.index_register = self.index_register.wrapping_add(
            self.registers[register_index] as u16,
        );
    }

    /// `FX29`: points the index register at the glyph for register `X`.
    pub fn op_fx29(&mut self)
        ensures
            final(self)@ == old(self)@.font_address(),
    {
        let register_index: usize = register_x(self.opcode);
        let digit: u8 = self.registers[register_index];

        self.index_register = FONTSET_START_ADDRESS + 5 * (digit as u16);
    }

    /// `FX33`: stores the three decimal digits of register `X` at the index
    /// register.
    pub fn op_fx33(&mut self) -> (res: Result<(), Fault>)
        ensures
            outcome_is(old(self)@.store_decimal(), old(self)@, res, final(self)@),
    {
        let register_index: usize = register_x(self.opcode);
        let value: u8 = self.registers[register_index];
        let at: usize = self.index_register as usize;

        if at + 2 >= 4096 {
            return Err(Fault::OutOfBounds);
        }
        let hundreds: u8 = value / 100;
        let tens: u8 = (value / 10) % 10;
        let ones: u8 = value % 10;

        self.memory[at] = hundreds;
        self.memory[at + 1] = tens;
        self.memory[at + 2] = ones;
        Ok(())
    }

    /// `FX55`: stores registers 0 to `X` at the index register.
    pub fn op_fx55(&mut self) -> (res: Result<(), Fault>)
        ensures
            outcome_is(old(self)@.store_registers(), old(self)@, res, final(self)@),
    {
        let register_index: usize = register_x(self.opcode);
        let at: usize = self.index_register as usize;

        if at + register_index >= 4096 {
            return Err(Fault::OutOfBounds);
        }
        for i in 0..register_index + 1
            invariant
                register_index == old(self)@.x(),
                at == old(self).index_register,
                at + register_index < 4096,
                self@ == (Machine { memory: self.memory@, ..old(self)@ }),
                forall|a: int|
                    0 <= a < 4096 ==> #[trigger] self.memory@[a] == if at <= a < at + i {
                        old(self).registers@[a - at]
                    } else {
                        old(self).memory@[a]
                    },
        {
            self.memory[at + i] = self.registers[i];
        }
        proof {
            assert(self.memory@ =~= old(self)@.store_registers()->Ok_0.memory);
        }
        Ok(())
    }

    /// `FX65`: loads registers 0 to `X` from the index register.
    pub fn op_fx65(&mut self) -> (res: Result<(), Fault>)
        ensures
            outcome_is(old(self)@.load_registers(), old(self)@, res, final(self)@),
    {
        let register_index: usize = register_x(self.opcode);
        let at: usize = self.index_register as usize;

        if at + register_index >= 4096 {
            return Err(Fault::OutOfBounds);
        }
        for i in 0..register_index + 1
            invariant
                register_index == old(self)@.x(),
                at == old(self).index_register,
                at + register_index < 4096,
                self@ == (Machine { registers: self.registers@, ..old(self)@ }),
                forall|r: int|
                    0 <= r < 16 ==> #[trigger] self.registers@[r] == if r < i {
                        old(self).memory@[at + r]
                    } else {
                        old(self).registers@[r]
                    },
        {
            self.registers[i] = self.memory[at + i];
        }
        proof {
            assert(self.registers@ =~= old(self)@.load_registers()->Ok_0.registers);
        }
        Ok(())
    }

    /// Decodes the fetched word and carries the instruction out.  The byte
    /// for `CXNN` is `supplied` or, if that is `None`, drawn from the
    /// generator when that instruction comes up.
    fn execute(&mut self, supplied: Option<u8>) -> (res: Result<(), Fault>)
        requires
            2 <= old(self).program_counter <= 4096,
        ensures
            exists|random: u8|
                (supplied matches Some(given) ==> given == random) && outcome_is(
                    #[trigger] old(self)@.execute(random),
                    old(self)@,
                    res,
                    final(self)@,
                ),
    {
        let ghost fetched = self@;
        let ghost mut random: u8 = match supplied {
            Some(given) => given,
            None => 0,
        };

        // Decode
        let cmd: u8 = group(self.opcode);

        // Execute
        let res: Result<(), Fault> = match cmd {
            0x0 => {
                match self.opcode {
                    0x00E0 => {
                        self.op_00e0();
                        Ok(())
                    },
                    0x00EE => self.op_00ee(),
                    _ => Err(Fault::InvalidInstruction(self.opcode)),
                }
            },
            0x1 => {
                self.op_1nnn();
                Ok(())
            },
            0x2 => self.op_2nnn(),
            0x3 => {
                self.op_3xnn();
                Ok(())
            },
            0x4 => {
                self.op_4xnn();
                Ok(())
            },
            0x5 => {
                if nibble(self.opcode) == 0 {
                    self.op_5xy0();
                    Ok(())
                } else {
                    Err(Fault::InvalidInstruction(self.opcode))
                }
            },
            0x6 => {
                self.op_6xnn();
                Ok(())
            },
            0x7 => {
                self.op_7xnn();
                Ok(())
            },
            0x8 => {
                let k: u8 = nibble(self.opcode);
                self.op_8xyk(k as u32)
            },
            0x9 => {
                if nibble(self.opcode) == 0 {
                    self.op_9xy0();
                    Ok(())
                } else {
                    Err(Fault::InvalidInstruction(self.opcode))
                }
            },
            0xA => {
                self.op_annn();
                Ok(())
            },
            0xB => {
                self.op_bnnn();
                Ok(())
            },
            0xC => {
                match supplied {
                    Some(given) => self.store_random(given),
                    None => {
                        self.op_cxkk();
                        proof {
                            random = choose|r: u8| self@ == #[trigger] fetched.random_masked(r);
                        }
                    },
                }
                Ok(())
            },
            0xD => self.op_dxyn(),
            0xE => {
                let identity: u8 = byte(self.opcode);
                match identity {
                    0x9E => self.op_ex9e(),
                    0xA1 => self.op_exa1(),
                    _ => Err(Fault::InvalidInstruction(self.opcode)),
                }
            },
            _ => {
                let identity: u8 = byte(self.opcode);
                match identity {
                    0x07 => {
                        self.op_fx07();
                        Ok(())
                    },
                    0x0A => {
                        self.op_fx0a();
                        Ok(())
                    },
                    0x15 => {
                        self.op_fx15();
                        Ok(())
                    },
                    0x18 => {
                        self.op_fx18();
                        Ok(())
                    },
                    0x1E => {
                        self.op_fx1e();
                        Ok(())
                    },
                    0x29 => {
                        self.op_fx29();
                        Ok(())
                    },
                    0x33 => self.op_fx33(),
                    0x55 => self.op_fx55(),
                    0x65 => self.op_fx65(),
                    _ => Err(Fault::InvalidInstruction(self.opcode)),
                }
            },
        };
        assert(outcome_is(fetched.execute(random), fetched, res, self@));
        res
    }

    /// One cycle, with the byte for `CXNN` either supplied or, if `supplied`
    /// is `None`, drawn from the generator when that instruction comes up.
    fn advance(&mut self, supplied: Option<u8>) -> (res: Result<(), Fault>)
        ensures
            exists|random: u8|
                (supplied matches Some(given) ==> given == random) && #[trigger] old(
                    self,
                )@.steps_to(random, res, final(self)@),
            !old(self)@.draws_random() ==> forall|random: u8| #[trigger]
                old(self)@.steps_to(random, res, final(self)@),
            old(self).wf() ==> final(self).wf(),
    {
        let program_counter = self.program_counter as usize;
        if program_counter + 1 >= 4096 {
            proof {
                let random: u8 = match supplied {
                    Some(given) => given,
                    None => 0,
                };
                assert(old(self)@.steps_to(random, Err(Fault::OutOfBounds), self@));
            }
            return Err(Fault::OutOfBounds);
        }
        let resume: u16 = self.program_counter;
        let previous: u16 = self.opcode;

        // Fetch
        self.opcode = word(self.memory[program_counter], self.memory[program_counter + 1]);
        self.program_counter += 2;
        let ghost fetched = self@;
        assert(fetched == old(self)@.fetched());

        // Decode and execute
        let executed: Result<(), Fault> = self.execute(supplied);
        let ghost random: u8 = choose|random: u8|
            (supplied matches Some(given) ==> given == random) && outcome_is(
                #[trigger] fetched.execute(random),
                fetched,
                executed,
                self@,
            );

        match executed {
            Ok(()) => {
                if self.delay_timer > 0 {
                    self.delay_timer -= 1;
                }
                if self.sound_timer > 0 {
                    self.sound_timer -= 1;
                }
                assert(old(self)@.steps_to(random, Ok(()), self@));
                Ok(())
            },
            Err(fault) => {
                // A faulting cycle leaves no trace, not even of its fetch.
                self.program_counter = resume;
                self.opcode = previous;
                assert(old(self)@.steps_to(random, Err(fault), self@));
                Err(fault)
            },
        }
    }

    /// Advances the machine by one cycle: fetches the word at the program
    /// counter, executes it, then counts both timers down by one unless they
    /// are at zero.
    ///
    /// What a cycle does is [`Machine::cycle`].  Only `CXNN` looks at the
    /// random byte, which then comes from the generator: all that is known
    /// of such a cycle is that it went as the model says for some byte.  Any
    /// other cycle goes as the model says whatever byte is assumed.  A cycle
    /// that faults leaves the machine as it was.
    pub fn run(&mut self) -> (res: Result<(), Fault>)
        ensures
            exists|random: u8| #[trigger] old(self)@.steps_to(random, res, final(self)@),
            !old(self)@.draws_random() ==> forall|random: u8| #[trigger]
                old(self)@.steps_to(random, res, final(self)@),
            old(self).wf() ==> final(self).wf(),
    {
        self.advance(None)
    }

    /// Advances the machine by one cycle as [`Self::run`] does, but with
    /// `random` as the byte that `CXNN` draws instead of one from the
    /// generator.
    pub fn run_with(&mut self, random: u8) -> (res: Result<(), Fault>)
        ensures
            old(self)@.steps_to(random, res, final(self)@),
            old(self).wf() ==> final(self).wf(),
    {
        self.advance(Some(random))
    }

    /// Reads the next 246 instruction words without executing them and
    /// leaves the program counter past them.  If they do not all lie within
    /// memory, nothing is read and the machine is left as it was.
    pub fn temp(&mut self) -> (res: Result<Vec<u16>, Fault>)
        ensures
            match res {
                Ok(words) => {
                    &&& old(self)@.past(246) == Ok::<Machine, Fault>(final(self)@)
                    &&& words@ == old(self)@.upcoming(246)
                },
                Err(fault) => {
                    &&& old(self)@.past(246) == Err::<Machine, Fault>(fault)
                    &&& final(self)@ == old(self)@
                },
            },
    {
        if self.program_counter as usize + 2 * 246 > 4096 {
            return Err(Fault::OutOfBounds);
        }
        let mut words: Vec<u16> = Vec::new();
        for i in 0..246usize
            invariant
                old(self).program_counter + 2 * 246 <= 4096,
                self.program_counter == old(self).program_counter + 2 * i,
                self@ == (Machine { program_counter: self.program_counter, ..old(self)@ }),
                words@ == old(self)@.upcoming(i as nat),
        {
            let program_counter = self.program_counter as usize;
            let next: u16 = word(self.memory[program_counter], self.memory[program_counter + 1]);
            words.push(next);

            self.program_counter += 2;
        }
        Ok(words)
    }

    /// Copies a program image into memory at the program offset.  An image
    /// longer than the 3584 bytes above that offset is refused and the
    /// machine is left as it was.
    pub fn load_rom(&mut self, image: &[u8]) -> (res: Result<(), Fault>)
        ensures
            outcome_is(old(self)@.load(image@), old(self)@, res, final(self)@),
    {
        let size: usize = image.len();
        if size > 3584 {
            return Err(Fault::ProgramTooLarge);
        }
        for i in 0..size
            invariant
                size == image@.len(),
                size <= 3584,
                self@ == (Machine { memory: self.memory@, ..old(self)@ }),
                forall|a: int|
                    0 <= a < 4096 ==> #[trigger] self.memory@[a] == if 0x200 <= a < 0x200 + i {
                        image@[a - 0x200]
                    } else {
                        old(self).memory@[a]
                    },
        {
            self.memory[(START_ADDRESS as usize) + i] = image[i];
        }
        proof {
            assert(self.memory@ =~= old(self)@.load(image@)->Ok_0.memory);
        }
        Ok(())
    }
}

} // verus!
