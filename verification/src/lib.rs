//! The execution engine of a CHIP-8 virtual machine.
//!
//! The engine owns the whole machine state ([`chip8::Chip8`]) and advances it
//! one instruction at a time.  It never draws, reads a keyboard, sleeps or
//! touches a file: a host feeds it a program image and key states, calls
//! [`chip8::Chip8::run`] once per cycle, and reads the framebuffer back.
//!
//! Every instruction is written down twice.  [`machine::Machine`] is the
//! mathematical model: a value made of sequences and integers, together with
//! one spec function per instruction and [`machine::Machine::cycle`] for a
//! whole fetch, decode, execute and timer step.  [`chip8::Chip8`] is the
//! executable machine over fixed-size arrays; each of its operations is
//! proved to compute exactly what the model says.  [`laws`] holds what
//! follows for every machine.
//!
//! Policies the instruction set leaves open, as fixed by this crate:
//!
//! * A cycle that faults changes nothing: the machine is left exactly as it
//!   was and the fault is returned.
//! * Sprites are clipped at the right and bottom edges of the screen.
//! * While several keys are held, the key-wait instruction stores the highest
//!   key index.
//! * Adding to the index register wraps modulo 65536; subtracting registers
//!   wraps modulo 256.
//! * The register-to-register operations (`8XYK`) work on the values that
//!   registers `X` and `Y` hold when the instruction starts, also where one
//!   of them is the flag register.  The flag is written first and the
//!   result second, so when `X` is the flag register the result stands in
//!   it and the flag is lost: a subtraction `8F05` with 5 in register 0xF
//!   and 3 in register 0 leaves 2 in register 0xF.
//! * A key index above 0xF is a fault of its own,
//!   [`fault::Fault::KeyOutOfRange`].
//! * A return finds the stack pointer above sixteen only if the host put it
//!   there; it is reported as a stack overflow.

pub mod chip8;
pub mod decode;
pub mod fault;
pub mod font;
pub mod laws;
pub mod machine;
mod random;
