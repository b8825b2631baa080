//! The mathematical model of the machine and of its instruction set.
//!
//! A [`Machine`] is a plain value; every instruction is a function from one
//! machine to the next (or to a [`Fault`]).  Nothing here is executable: the
//! executable machine in [`crate::chip8`] is proved against these functions.

use vstd::prelude::*;
use crate::decode::{group_of, n_of, nn_of, nnn_of, word_of, x_of, y_of};
use crate::fault::Fault;
use crate::font::{FONTSET_START_ADDRESS, FONT_DATA, START_ADDRESS};

verus! {

/// The whole state of the machine.
#[verifier::ext_equal]
pub struct Machine {
    /// The sixteen general registers; register 0xF doubles as the flag.
    pub registers: Seq<u8>,
    /// The 4096 bytes of memory.
    pub memory: Seq<u8>,
    /// The index register.
    pub index_register: u16,
    /// The address of the next instruction.
    pub program_counter: u16,
    /// The sixteen return addresses.
    pub stack: Seq<u16>,
    /// The number of return addresses in use.
    pub stack_pointer: u16,
    /// The delay timer.
    pub delay_timer: u8,
    /// The sound timer.
    pub sound_timer: u8,
    /// The sixteen keys; `true` while a key is held.
    pub keypad: Seq<bool>,
    /// The 64 by 32 pixels, row by row; 0x00 is off, anything else is on.
    pub video: Seq<u8>,
    /// The instruction word fetched last.
    pub opcode: u16,
}

/// Whether bit `col` of a sprite row is set, counting from the leftmost
/// (most significant) bit.
pub open spec fn sprite_bit(row: u8, col: int) -> bool {
    row & (0x80u8 >> (col as u8)) != 0
}

/// A pixel after it has been flipped: on becomes off, off becomes fully on.
pub open spec fn toggled(pixel: u8) -> u8 {
    if pixel != 0 {
        0x00
    } else {
        0xFF
    }
}

/// `a - b` modulo 256.
pub open spec fn difference(a: u8, b: u8) -> u8 {
    ((a - b) % 256) as u8
}

/// A timer one cycle later.
pub open spec fn ticked(timer: u8) -> u8 {
    if timer > 0 {
        (timer - 1) as u8
    } else {
        0
    }
}

/// Whether an operation came out as `expected`: where that is a next
/// machine, the operation succeeded and left exactly that machine; where it
/// is a fault, the operation returned that fault and left `before` untouched.
pub open spec fn outcome_is(
    expected: Result<Machine, Fault>,
    before: Machine,
    res: Result<(), Fault>,
    after: Machine,
) -> bool {
    match expected {
        Ok(next) => res is Ok && after == next,
        Err(fault) => res == Err::<(), Fault>(fault) && after == before,
    }
}

/// The highest index below `below` whose key is held, or -1 if there is none.
pub open spec fn highest_held(keypad: Seq<bool>, below: int) -> int
    decreases below,
{
    if below <= 0 {
        -1
    } else if keypad[below - 1] {
        below - 1
    } else {
        highest_held(keypad, below - 1)
    }
}

impl Machine {
    /// The fixed sizes of the parts of a machine.
    pub open spec fn sized(self) -> bool {
        &&& self.registers.len() == 16
        &&& self.memory.len() == 4096
        &&& self.stack.len() == 16
        &&& self.keypad.len() == 16
        &&& self.video.len() == 2048
    }

    /// A machine as cycles leave it: of the right sizes, with a stack
    /// pointer that counts at most sixteen entries.
    pub open spec fn wf(self) -> bool {
        &&& self.sized()
        &&& self.stack_pointer <= 16
    }

    /// Every pixel is either 0x00 or 0xFF.
    pub open spec fn binary_screen(self) -> bool {
        forall|p: int| 0 <= p < self.video.len() ==> self.video[p] == 0x00 || self.video[p] == 0xFF
    }

    /// The machine as it is created: everything zero, the font in place and
    /// the program counter at the program offset.
    pub open spec fn initial() -> Machine {
        Machine {
            registers: Seq::new(16, |i: int| 0u8),
            memory: Seq::new(
                4096,
                |a: int|
                    if 0x50 <= a < 0xA0 {
                        FONT_DATA[a - 0x50]
                    } else {
                        0u8
                    },
            ),
            index_register: 0,
            program_counter: START_ADDRESS,
            stack: Seq::new(16, |i: int| 0u16),
            stack_pointer: 0,
            delay_timer: 0,
            sound_timer: 0,
            keypad: Seq::new(16, |i: int| false),
            video: Seq::new(2048, |p: int| 0u8),
            opcode: 0,
        }
    }

    /// The group digit of the fetched word.
    pub open spec fn group(self) -> int {
        group_of(self.opcode)
    }

    /// The register digit `X` of the fetched word.
    pub open spec fn x(self) -> int {
        x_of(self.opcode)
    }

    /// The register digit `Y` of the fetched word.
    pub open spec fn y(self) -> int {
        y_of(self.opcode)
    }

    /// The last digit of the fetched word.
    pub open spec fn n(self) -> int {
        n_of(self.opcode)
    }

    /// The low byte of the fetched word.
    pub open spec fn nn(self) -> u8 {
        nn_of(self.opcode)
    }

    /// The address in the fetched word.
    pub open spec fn nnn(self) -> u16 {
        nnn_of(self.opcode)
    }

    /// The value of register `X`.
    pub open spec fn vx(self) -> u8 {
        self.registers[self.x()]
    }

    /// The value of register `Y`.
    pub open spec fn vy(self) -> u8 {
        self.registers[self.y()]
    }

    /// This machine with register `i` holding `value`.
    pub open spec fn with_register(self, i: int, value: u8) -> Machine {
        Machine { registers: self.registers.update(i, value), ..self }
    }

    /// This machine with the program counter moved past one more instruction
    /// if `condition` holds.
    pub open spec fn skip_when(self, condition: bool) -> Machine {
        if condition {
            Machine { program_counter: (self.program_counter + 2) as u16, ..self }
        } else {
            self
        }
    }

    /// The fault for a word that is no instruction.
    pub open spec fn invalid(self) -> Result<Machine, Fault> {
        Err(Fault::InvalidInstruction(self.opcode))
    }

    /// `00E0`: every pixel off.
    pub open spec fn clear_screen(self) -> Machine {
        Machine { video: Seq::new(2048, |p: int| 0u8), ..self }
    }

    /// `00EE`: return to the address on top of the stack.  A stack pointer
    /// above sixteen, which no cycle produces, points past the stack and is
    /// reported as an overflow.
    pub open spec fn ret(self) -> Result<Machine, Fault> {
        if self.stack_pointer == 0 {
            Err(Fault::StackUnderflow)
        } else if self.stack_pointer > 16 {
            Err(Fault::StackOverflow)
        } else {
            Ok(
                Machine {
                    stack_pointer: (self.stack_pointer - 1) as u16,
                    program_counter: self.stack[self.stack_pointer - 1],
                    ..self
                },
            )
        }
    }

    /// `1NNN`: continue at `NNN`.
    pub open spec fn jump(self) -> Machine {
        Machine { program_counter: self.nnn(), ..self }
    }

    /// `2NNN`: remember the program counter on the stack and continue at
    /// `NNN`.
    pub open spec fn call(self) -> Result<Machine, Fault> {
        if self.stack_pointer >= 16 {
            Err(Fault::StackOverflow)
        } else {
            Ok(
                Machine {
                    stack: self.stack.update(self.stack_pointer as int, self.program_counter),
                    stack_pointer: (self.stack_pointer + 1) as u16,
                    program_counter: self.nnn(),
                    ..self
                },
            )
        }
    }

    /// `6XNN`: register `X` becomes `NN`.
    pub open spec fn load_byte(self) -> Machine {
        self.with_register(self.x(), self.nn())
    }

    /// `7XNN`: `NN` is added to register `X` modulo 256; the flag is left
    /// alone.
    pub open spec fn add_byte(self) -> Machine {
        self.with_register(self.x(), ((self.vx() + self.nn()) % 256) as u8)
    }

    /// `8XY4`: register `x` becomes the sum of registers `x` and `y` modulo
    /// 256, and the flag becomes 1 if that sum exceeds 255, 0 otherwise.
    pub open spec fn add_registers(self, x: int, y: int) -> Machine {
        let sum = self.registers[x] + self.registers[y];
        let carry: u8 = if sum > 255 {
            1
        } else {
            0
        };
        self.with_register(0xF, carry).with_register(x, (sum % 256) as u8)
    }

    /// `8XY5`: register `x` becomes register `x` minus register `y` modulo
    /// 256, and the flag becomes 1 if register `x` was at least register
    /// `y`, 0 otherwise.
    pub open spec fn subtract_registers(self, x: int, y: int) -> Machine {
        let a = self.registers[x];
        let b = self.registers[y];
        let flag: u8 = if a >= b {
            1
        } else {
            0
        };
        self.with_register(0xF, flag).with_register(x, difference(a, b))
    }

    /// `8XY6`: register `x` is halved, and the flag becomes the bit that
    /// falls out, its lowest.
    pub open spec fn shift_right(self, x: int) -> Machine {
        let a = self.registers[x];
        self.with_register(0xF, a % 2).with_register(x, a / 2)
    }

    /// `8XY7`: register `x` becomes register `y` minus register `x` modulo
    /// 256, and the flag becomes 1 if register `y` was greater than register
    /// `x`, 0 otherwise.
    pub open spec fn subtract_reversed(self, x: int, y: int) -> Machine {
        let a = self.registers[x];
        let b = self.registers[y];
        let flag: u8 = if b > a {
            1
        } else {
            0
        };
        self.with_register(0xF, flag).with_register(x, difference(b, a))
    }

    /// `8XYE`: register `x` is doubled modulo 256, and the flag becomes the
    /// bit that falls out, its highest.
    pub open spec fn shift_left(self, x: int) -> Machine {
        let a = self.registers[x];
        self.with_register(0xF, a / 128).with_register(x, ((a * 2) % 256) as u8)
    }

    /// `8XYK`: the register-to-register operation selected by `k`, or `None`
    /// where `k` selects nothing.
    ///
    /// Every operation works on the values that registers `X` and `Y` hold
    /// when it starts.  Those that report through the flag register write
    /// the flag first and the result second, so where `X` is the flag
    /// register itself the result stands in it.
    pub open spec fn alu(self, k: int) -> Option<Machine> {
        let x = self.x();
        let y = self.y();
        if k == 0x0 {
            Some(self.with_register(x, self.vy()))
        } else if k == 0x1 {
            Some(self.with_register(x, self.vx() | self.vy()))
        } else if k == 0x2 {
            Some(self.with_register(x, self.vx() & self.vy()))
        } else if k == 0x3 {
            Some(self.with_register(x, self.vx() ^ self.vy()))
        } else if k == 0x4 {
            Some(self.add_registers(x, y))
        } else if k == 0x5 {
            Some(self.subtract_registers(x, y))
        } else if k == 0x6 {
            Some(self.shift_right(x))
        } else if k == 0x7 {
            Some(self.subtract_reversed(x, y))
        } else if k == 0xE {
            Some(self.shift_left(x))
        } else {
            None
        }
    }

    /// `ANNN`: the index register becomes `NNN`.
    pub open spec fn load_index(self) -> Machine {
        Machine { index_register: self.nnn(), ..self }
    }

    /// `BNNN`: continue at `NNN` plus register 0.
    pub open spec fn jump_offset(self) -> Machine {
        Machine { program_counter: (self.registers[0] + self.nnn()) as u16, ..self }
    }

    /// `CXNN`: register `X` becomes the drawn byte masked by `NN`.
    pub open spec fn random_masked(self, random: u8) -> Machine {
        self.with_register(self.x(), random & self.nn())
    }

    /// The column at which a sprite starts: register `X` modulo 64.
    pub open spec fn origin_x(self) -> int {
        self.vx() as int % 64
    }

    /// The row at which a sprite starts: register `Y` modulo 32.
    pub open spec fn origin_y(self) -> int {
        self.vy() as int % 32
    }

    /// Whether the sprite of `DXYN` has a set bit over the pixel in column
    /// `px` of row `py`.  Sprite pixels that would fall beyond the right or
    /// bottom edge lie over no pixel at all: the sprite is clipped.
    pub open spec fn covers(self, px: int, py: int) -> bool {
        let row = py - self.origin_y();
        let col = px - self.origin_x();
        &&& 0 <= row < self.n()
        &&& 0 <= col < 8
        &&& sprite_bit(self.memory[self.index_register + row], col)
    }

    /// [`Self::covers`] for the pixel at index `p` of the framebuffer.
    pub open spec fn covers_pixel(self, p: int) -> bool {
        self.covers(p % 64, p / 64)
    }

    /// Whether the sprite of `DXYN` has a set bit over a pixel that is on.
    pub open spec fn collides(self) -> bool {
        exists|p: int| 0 <= p < 2048 && #[trigger] self.covers_pixel(p) && self.video[p] != 0
    }

    /// `DXYN`: flip every pixel under a set bit of the `N`-row sprite at the
    /// index register, and set the flag to 1 if a pixel that was on went off,
    /// to 0 otherwise.  The position is read before the flag is written.
    pub open spec fn draw(self) -> Result<Machine, Fault> {
        if self.n() > 0 && self.index_register + self.n() > 4096 {
            Err(Fault::OutOfBounds)
        } else {
            let flag: u8 = if self.collides() {
                1
            } else {
                0
            };
            Ok(
                Machine {
                    video: Seq::new(
                        2048,
                        |p: int|
                            if self.covers_pixel(p) {
                                toggled(self.video[p])
                            } else {
                                self.video[p]
                            },
                    ),
                    registers: self.registers.update(0xF, flag),
                    ..self
                },
            )
        }
    }

    /// `EX9E` (`held` is true) and `EXA1` (`held` is false): skip the next
    /// instruction if the key named by register `X` is in the given state.
    pub open spec fn skip_key(self, held: bool) -> Result<Machine, Fault> {
        if self.vx() >= 16 {
            Err(Fault::KeyOutOfRange)
        } else {
            Ok(self.skip_when(self.keypad[self.vx() as int] == held))
        }
    }

    /// `FX07`: register `X` becomes the delay timer.
    pub open spec fn load_delay(self) -> Machine {
        self.with_register(self.x(), self.delay_timer)
    }

    /// `FX0A`: if no key is held, step back so that this instruction runs
    /// again next cycle; otherwise register `X` becomes the highest held key.
    pub open spec fn wait_key(self) -> Machine {
        let key = highest_held(self.keypad, 16);
        if key < 0 {
            Machine { program_counter: (self.program_counter - 2) as u16, ..self }
        } else {
            self.with_register(self.x(), key as u8)
        }
    }

    /// `FX15`: the delay timer becomes register `X`.
    pub open spec fn set_delay(self) -> Machine {
        Machine { delay_timer: self.vx(), ..self }
    }

    /// `FX18`: the sound timer becomes register `X`.
    pub open spec fn set_sound(self) -> Machine {
        Machine { sound_timer: self.vx(), ..self }
    }

    /// `FX1E`: register `X` is added to the index register modulo 65536.
    pub open spec fn add_index(self) -> Machine {
        Machine { index_register: ((self.index_register + self.vx()) % 65536) as u16, ..self }
    }

    /// `FX29`: the index register becomes the address of the glyph for the
    /// value of register `X`: the font address plus five times that value.
    pub open spec fn font_address(self) -> Machine {
        Machine { index_register: (FONTSET_START_ADDRESS + 5 * self.vx()) as u16, ..self }
    }

    /// `FX33`: the hundreds, tens and ones digits of register `X` are stored
    /// at the index register and the two bytes after it.
    pub open spec fn store_decimal(self) -> Result<Machine, Fault> {
        let at = self.index_register as int;
        let value = self.vx();
        if at + 2 >= 4096 {
            Err(Fault::OutOfBounds)
        } else {
            Ok(
                Machine {
                    memory: self.memory.update(at, value / 100).update(
                        at + 1,
                        (value / 10) % 10,
                    ).update(at + 2, value % 10),
                    ..self
                },
            )
        }
    }

    /// `FX55`: registers 0 to `X` are stored at the index register and the
    /// bytes after it.
    pub open spec fn store_registers(self) -> Result<Machine, Fault> {
        let at = self.index_register as int;
        if at + self.x() >= 4096 {
            Err(Fault::OutOfBounds)
        } else {
            Ok(
                Machine {
                    memory: Seq::new(
                        4096,
                        |a: int|
                            if at <= a <= at + self.x() {
                                self.registers[a - at]
                            } else {
                                self.memory[a]
                            },
                    ),
                    ..self
                },
            )
        }
    }

    /// `FX65`: registers 0 to `X` are loaded from the index register and the
    /// bytes after it.
    pub open spec fn load_registers(self) -> Result<Machine, Fault> {
        let at = self.index_register as int;
        if at + self.x() >= 4096 {
            Err(Fault::OutOfBounds)
        } else {
            Ok(
                Machine {
                    registers: Seq::new(
                        16,
                        |i: int|
                            if i <= self.x() {
                                self.memory[at + i]
                            } else {
                                self.registers[i]
                            },
                    ),
                    ..self
                },
            )
        }
    }

    /// The effect of the fetched word, `random` being the byte that `CXNN`
    /// draws.  Words that match no instruction pattern are invalid.
    pub open spec fn execute(self, random: u8) -> Result<Machine, Fault> {
        let group = self.group();
        if group == 0x0 {
            if self.opcode == 0x00E0 {
                Ok(self.clear_screen())
            } else if self.opcode == 0x00EE {
                self.ret()
            } else {
                self.invalid()
            }
        } else if group == 0x1 {
            Ok(self.jump())
        } else if group == 0x2 {
            self.call()
        } else if group == 0x3 {
            Ok(self.skip_when(self.vx() == self.nn()))
        } else if group == 0x4 {
            Ok(self.skip_when(self.vx() != self.nn()))
        } else if group == 0x5 {
            if self.n() == 0 {
                Ok(self.skip_when(self.vx() == self.vy()))
            } else {
                self.invalid()
            }
        } else if group == 0x6 {
            Ok(self.load_byte())
        } else if group == 0x7 {
            Ok(self.add_byte())
        } else if group == 0x8 {
            match self.alu(self.n()) {
                Some(next) => Ok(next),
                None => self.invalid(),
            }
        } else if group == 0x9 {
            if self.n() == 0 {
                Ok(self.skip_when(self.vx() != self.vy()))
            } else {
                self.invalid()
            }
        } else if group == 0xA {
            Ok(self.load_index())
        } else if group == 0xB {
            Ok(self.jump_offset())
        } else if group == 0xC {
            Ok(self.random_masked(random))
        } else if group == 0xD {
            self.draw()
        } else if group == 0xE {
            if self.nn() == 0x9E {
                self.skip_key(true)
            } else if self.nn() == 0xA1 {
                self.skip_key(false)
            } else {
                self.invalid()
            }
        } else {
            let selector = self.nn();
            if selector == 0x07 {
                Ok(self.load_delay())
            } else if selector == 0x0A {
                Ok(self.wait_key())
            } else if selector == 0x15 {
                Ok(self.set_delay())
            } else if selector == 0x18 {
                Ok(self.set_sound())
            } else if selector == 0x1E {
                Ok(self.add_index())
            } else if selector == 0x29 {
                Ok(self.font_address())
            } else if selector == 0x33 {
                self.store_decimal()
            } else if selector == 0x55 {
                self.store_registers()
            } else if selector == 0x65 {
                self.load_registers()
            } else {
                self.invalid()
            }
        }
    }

    /// The word stored at `at` and `at + 1`, most significant byte first.
    pub open spec fn word_at(self, at: int) -> u16 {
        word_of(self.memory[at], self.memory[at + 1])
    }

    /// The word at the program counter.
    pub open spec fn next_word(self) -> u16 {
        self.word_at(self.program_counter as int)
    }

    /// Whether the next cycle consults the random byte: the word at the
    /// program counter can be fetched and is a `CXNN`.
    pub open spec fn draws_random(self) -> bool {
        self.program_counter + 1 < 4096 && group_of(self.next_word()) == 0xC
    }

    /// The machine once the next word has been fetched: the word is in
    /// `opcode` and the program counter is past it.
    pub open spec fn fetched(self) -> Machine {
        Machine {
            opcode: self.next_word(),
            program_counter: (self.program_counter + 2) as u16,
            ..self
        }
    }

    /// This machine with both timers one cycle later.
    pub open spec fn tick(self) -> Machine {
        Machine {
            delay_timer: ticked(self.delay_timer),
            sound_timer: ticked(self.sound_timer),
            ..self
        }
    }

    /// One whole cycle: fetch the word at the program counter, execute it,
    /// then count both timers down.  `random` is the byte that `CXNN` draws.
    pub open spec fn cycle(self, random: u8) -> Result<Machine, Fault> {
        if self.program_counter + 1 >= 4096 {
            Err(Fault::OutOfBounds)
        } else {
            match self.fetched().execute(random) {
                Ok(next) => Ok(next.tick()),
                Err(fault) => Err(fault),
            }
        }
    }

    /// This machine with a program image copied to the program offset, or
    /// the fault for an image longer than the 3584 bytes above that offset.
    pub open spec fn load(self, image: Seq<u8>) -> Result<Machine, Fault> {
        if image.len() > 3584 {
            Err(Fault::ProgramTooLarge)
        } else {
            Ok(
                Machine {
                    memory: Seq::new(
                        4096,
                        |a: int|
                            if 0x200 <= a < 0x200 + image.len() {
                                image[a - 0x200]
                            } else {
                                self.memory[a]
                            },
                    ),
                    ..self
                },
            )
        }
    }

    /// The next `count` words, starting at the program counter.
    pub open spec fn upcoming(self, count: nat) -> Seq<u16> {
        Seq::new(count, |i: int| self.word_at(self.program_counter + 2 * i))
    }

    /// This machine with the program counter moved past `count` words, or
    /// the fault if those words do not all lie within memory.
    pub open spec fn past(self, count: nat) -> Result<Machine, Fault> {
        if self.program_counter + 2 * count > 4096 {
            Err(Fault::OutOfBounds)
        } else {
            Ok(Machine { program_counter: (self.program_counter + 2 * count) as u16, ..self })
        }
    }

    /// Whether a cycle that draws `random` takes this machine to `after` with
    /// the result `res`: on success `after` is the next machine, on a fault
    /// `res` carries that fault and `after` is this machine, untouched.
    pub open spec fn steps_to(self, random: u8, res: Result<(), Fault>, after: Machine) -> bool {
        outcome_is(self.cycle(random), self, res, after)
    }
}

} // verus!
