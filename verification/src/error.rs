//! What an operation of the interpreter reports when it fails: a Ruby
//! exception by class name and message.

use vstd::prelude::*;
use vstd::string::StringSliceAdditionalSpecFns;

use crate::path::copy_range;

verus! {

/// The message of an I/O error for a path at which the file system holds no
/// entry.
pub const FILE_NOT_FOUND: &'static str = "file not found in virtual file system";

/// The message of an I/O error, and of an `ArgumentError`, for a path that
/// holds a NUL byte.
pub const NUL_IN_PATH: &'static str = "path name contains null byte";

/// The message of an `ArgumentError` for an empty path.
pub const EMPTY_PATH: &'static str = "path name is empty";

/// What the message of a `LoadError` starts with when `load` or `require`
/// finds no source; the path follows.
pub const CANNOT_LOAD: &'static str = "cannot load such file -- ";

/// What the message of a `LoadError` starts with when a file to evaluate is
/// not in the file system; the path follows.
pub const NOT_IN_FILE_SYSTEM: &'static str = "ruby: file not found in virtual file system -- ";

/// The message of the fatal error for a value that must not leave the
/// execution engine.
pub const UNREACHABLE_VALUE: &'static str = "eval returned an unreachable Ruby value";

/// The message of the fatal error for a pop from an empty context stack.
pub const CONTEXT_UNDERFLOW: &'static str = "context stack underflow";

/// The message of the fatal error for an interpreter without its state.
pub const NOT_INITIALIZED: &'static str = "interpreter is not initialized";

/// An exception as the execution engine raised it: the name of its class and
/// its message.
#[derive(Clone, Debug, PartialEq, Eq)]
pub struct Exception {
    pub name: String,
    pub message: Vec<u8>,
}

/// A failure of the host's input or output, by its message.
#[derive(Clone, Debug, PartialEq, Eq)]
pub struct IoError {
    message: Vec<u8>,
}

impl IoError {
    /// The message of the error.
    pub closed spec fn view(&self) -> Seq<u8> {
        self.message@
    }

    /// An I/O error with the host's message for it.
    pub fn new(message: Vec<u8>) -> (error: Self)
        ensures
            error@ == message@,
    {
        IoError { message }
    }

    /// The error for a path at which the file system holds no entry.
    pub fn not_found() -> (error: Self)
        ensures
            error@ == FILE_NOT_FOUND.spec_bytes(),
    {
        IoError { message: copy_str(FILE_NOT_FOUND) }
    }

    /// The error for a path that holds a NUL byte.
    pub fn invalid_path() -> (error: Self)
        ensures
            error@ == NUL_IN_PATH.spec_bytes(),
    {
        IoError { message: copy_str(NUL_IN_PATH) }
    }

    /// The message of the exception.
    pub fn message(&self) -> (message: Vec<u8>)
        ensures
            message@ == self@,
    {
        let message = copy_range(self.message.as_slice(), 0, self.message.len());
        assert(message@ =~= self@);
        message
    }

    /// The name of the exception's class.
    pub fn name(&self) -> (name: String)
        ensures
            name@ == "IOError"@,
    {
        "IOError".to_owned()
    }

    /// The error as one line of text: the class name, a colon and the
    /// message.
    pub fn describe(&self) -> (line: Vec<u8>)
        ensures
            line@ == "IOError: ".spec_bytes() + self@,
    {
        let mut line = copy_str("IOError: ");
        line.extend_from_slice(self.message.as_slice());
        assert(line@ =~= "IOError: ".spec_bytes() + self@);
        line
    }
}

/// An owned copy of the bytes of `text`.
pub fn copy_str(text: &str) -> (bytes: Vec<u8>)
    ensures
        bytes@ == text.spec_bytes(),
{
    let mut bytes: Vec<u8> = Vec::new();
    bytes.extend_from_slice(text.as_bytes());
    assert(bytes@ =~= text.spec_bytes());
    bytes
}

/// The failures of the interpreter.
#[derive(Clone, Debug, PartialEq, Eq)]
pub enum Error {
    /// A path that cannot name a file.
    ArgumentError { message: Vec<u8> },
    /// A source that cannot be found or read.
    LoadError { message: Vec<u8> },
    /// A source that does not parse. The interpreter stays usable.
    SyntaxError { message: Vec<u8> },
    /// Any other exception that the evaluated source raised.
    Exception { name: String, message: Vec<u8> },
    /// A defect of the interpreter itself, such as a value that must not
    /// leave the execution engine.
    Fatal { message: Vec<u8> },
    /// A failure of the host's input or output.
    IoError(IoError),
    /// The interpreter has no state.
    Uninitialized,
}

impl Error {
    /// The name of the Ruby class of the exception.
    pub open spec fn class_name(&self) -> Seq<char> {
        match self {
            Error::ArgumentError { .. } => "ArgumentError"@,
            Error::LoadError { .. } => "LoadError"@,
            Error::SyntaxError { .. } => "SyntaxError"@,
            Error::Exception { name, .. } => name@,
            Error::Fatal { .. } => "fatal"@,
            Error::IoError(_) => "IOError"@,
            Error::Uninitialized => "fatal"@,
        }
    }

    /// The message of the exception.
    pub open spec fn message_bytes(&self) -> Seq<u8> {
        match self {
            Error::ArgumentError { message } => message@,
            Error::LoadError { message } => message@,
            Error::SyntaxError { message } => message@,
            Error::Exception { message, .. } => message@,
            Error::Fatal { message } => message@,
            Error::IoError(error) => error@,
            Error::Uninitialized => NOT_INITIALIZED.spec_bytes(),
        }
    }

    /// The name of the Ruby class of the exception.
    pub fn name(&self) -> (name: String)
        ensures
            name@ == self.class_name(),
    {
        match self {
            Error::ArgumentError { .. } => "ArgumentError".to_owned(),
            Error::LoadError { .. } => "LoadError".to_owned(),
            Error::SyntaxError { .. } => "SyntaxError".to_owned(),
            Error::Exception { name, .. } => name.clone(),
            Error::Fatal { .. } => "fatal".to_owned(),
            Error::IoError(_) => "IOError".to_owned(),
            Error::Uninitialized => "fatal".to_owned(),
        }
    }

    /// The message of the exception.
    pub fn message(&self) -> (message: Vec<u8>)
        ensures
            message@ == self.message_bytes(),
    {
        match self {
            Error::ArgumentError { message } => copy_all(message),
            Error::LoadError { message } => copy_all(message),
            Error::SyntaxError { message } => copy_all(message),
            Error::Exception { message, .. } => copy_all(message),
            Error::Fatal { message } => copy_all(message),
            Error::IoError(error) => error.message(),
            Error::Uninitialized => copy_str(NOT_INITIALIZED),
        }
    }

    /// The `LoadError` of `load` and `require` for `path`.
    pub fn cannot_load(path: &[u8]) -> (error: Self)
        ensures
            error matches Error::LoadError { message } && message@ == CANNOT_LOAD.spec_bytes()
                + path@,
    {
        let mut message = copy_str(CANNOT_LOAD);
        message.extend_from_slice(path);
        assert(message@ =~= CANNOT_LOAD.spec_bytes() + path@);
        Error::LoadError { message }
    }

    /// The `LoadError` for a file to evaluate that is not in the file system.
    pub fn not_in_file_system(path: &[u8]) -> (error: Self)
        ensures
            error matches Error::LoadError { message } && message@
                == NOT_IN_FILE_SYSTEM.spec_bytes() + path@,
    {
        let mut message = copy_str(NOT_IN_FILE_SYSTEM);
        message.extend_from_slice(path);
        assert(message@ =~= NOT_IN_FILE_SYSTEM.spec_bytes() + path@);
        Error::LoadError { message }
    }

    /// The fatal error with `text` as its message.
    pub fn fatal(text: &str) -> (error: Self)
        ensures
            error matches Error::Fatal { message } && message@ == text.spec_bytes(),
    {
        Error::Fatal { message: copy_str(text) }
    }

    /// The `ArgumentError` with `text` as its message.
    pub fn argument(text: &str) -> (error: Self)
        ensures
            error matches Error::ArgumentError { message } && message@ == text.spec_bytes(),
    {
        Error::ArgumentError { message: copy_str(text) }
    }
}

fn copy_all(bytes: &Vec<u8>) -> (copy: Vec<u8>)
    ensures
        copy@ == bytes@,
{
    let copy = copy_range(bytes.as_slice(), 0, bytes.len());
    assert(copy@ =~= bytes@);
    copy
}

impl From<IoError> for Error {
    fn from(exception: IoError) -> (error: Error) {
        Error::IoError(exception)
    }
}

impl vstd::std_specs::convert::FromSpecImpl<IoError> for Error {
    open spec fn obeys_from_spec() -> bool {
        true
    }

    open spec fn from_spec(exception: IoError) -> Error {
        Error::IoError(exception)
    }
}

} // verus!
