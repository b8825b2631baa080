use vstd::prelude::*;

verus! {

/// Why a cycle, or a program load, could not be carried out.
#[derive(Clone, Copy, Debug, PartialEq, Eq, Structural)]
pub enum Fault {
    /// An instruction fetch or a data access reached past the last byte of
    /// memory.
    OutOfBounds,
    /// A call was made with all sixteen stack entries in use.
    StackOverflow,
    /// A return was made with no call outstanding.
    StackUnderflow,
    /// The fetched word is not an instruction; the word is carried along.
    InvalidInstruction(u16),
    /// A keypad instruction named a key above 0xF.
    KeyOutOfRange,
    /// The program image does not fit between the program offset and the end
    /// of memory.
    ProgramTooLarge,
}

} // verus!
