use vstd::prelude::*;

verus! {

/// The ways a TAM program can fault. A fault aborts the current instruction
/// and is surfaced to the driver of the fetch/decode/execute loop.
#[derive(Copy, Clone, Debug, PartialEq, Eq, Structural)]
pub enum TamError {
    /// The program handed to the loader holds more words than the code store.
    OutOfMemory,
    /// A fetch or a branch target lies outside `[0, CT)`.
    CodeAccessViolation,
    /// A load or store address falls inside the free gap `[ST, HT]`.
    DataAccessViolation,
    /// A push was attempted while `ST >= HT`.
    StackOverflow,
    /// A pop was attempted while `ST == 0`.
    StackUnderflow,
    /// The dispatcher met an opcode outside its table.
    UnknownOpcode(u8),
    /// The external loader could not read the program.
    IOError,
}

pub type TamResult<T> = Result<T, TamError>;

} // verus!
