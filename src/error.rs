use vstd::prelude::*;

verus! {

/// What can stop the interpreter.
#[derive(Debug, Clone, Copy, PartialEq, Eq, Structural)]
pub enum Chip8Error {
    /// The program does not fit in the program region of memory.
    Capacity,
    /// The fetched bytes encode no known instruction; the four nibbles of the
    /// instruction, most significant first.
    InvalidOpcode(u8, u8, u8, u8),
    /// The program counter stands where a whole instruction cannot be fetched.
    OutOfBounds,
    /// A return was executed with an empty call stack.
    StackUnderflow,
    /// The index register addresses bytes past the end of memory.
    MemoryOutOfBounds,
}

/// The I/O error of the host, carried as is.
#[verifier::external_type_specification]
#[verifier::external_body]
pub struct ExIoError(std::io::Error);

/// What stops the front end: the interpreter, the host's media layer (which
/// reports its failures as text) or the file system.
#[derive(Debug)]
pub enum FrontError {
    Chip8(Chip8Error),
    Host(String),
    Io(std::io::Error),
}

impl From<Chip8Error> for FrontError {
    fn from(err: Chip8Error) -> (r: FrontError)
        ensures
            r == FrontError::Chip8(err),
    {
        FrontError::Chip8(err)
    }
}

impl vstd::std_specs::convert::FromSpecImpl<Chip8Error> for FrontError {
    open spec fn obeys_from_spec() -> bool {
        true
    }

    open spec fn from_spec(err: Chip8Error) -> FrontError {
        FrontError::Chip8(err)
    }
}

impl From<String> for FrontError {
    fn from(err: String) -> (r: FrontError)
        ensures
            r == FrontError::Host(err),
    {
        FrontError::Host(err)
    }
}

impl vstd::std_specs::convert::FromSpecImpl<String> for FrontError {
    open spec fn obeys_from_spec() -> bool {
        true
    }

    open spec fn from_spec(err: String) -> FrontError {
        FrontError::Host(err)
    }
}

impl From<std::io::Error> for FrontError {
    fn from(err: std::io::Error) -> (r: FrontError)
        ensures
            r == FrontError::Io(err),
    {
        FrontError::Io(err)
    }
}

impl vstd::std_specs::convert::FromSpecImpl<std::io::Error> for FrontError {
    open spec fn obeys_from_spec() -> bool {
        true
    }

    open spec fn from_spec(err: std::io::Error) -> FrontError {
        FrontError::Io(err)
    }
}

} // verus!
