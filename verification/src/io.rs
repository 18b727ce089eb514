//! Input and output of the interpreter: sources go to and come from the
//! virtual file system, and what Ruby prints is gathered for the host to
//! take.

use vstd::prelude::*;
use vstd::string::StringSliceAdditionalSpecFns;

use crate::error::{Error, IoError, FILE_NOT_FOUND, NUL_IN_PATH};
use crate::interpreter::{Artichoke, Snapshot};
use crate::path::copy_range;
use crate::vfs::{entry_at, key, written};

verus! {

/// The byte that ends a line.
pub const NEWLINE: u8 = 10;

impl Artichoke {
    /// The content of the source file at `path`, looked up at exactly that
    /// path.
    pub fn read_file(&self, path: &[u8]) -> (result: Result<Vec<u8>, Error>)
        ensures
            match self@ {
                Some(now) => match entry_at(now.files, path@) {
                    Some(entry) => result matches Ok(content) && content@ == entry.content,
                    None => result matches Err(Error::IoError(error)) && error@
                        == FILE_NOT_FOUND.spec_bytes(),
                },
                None => result == Err::<Vec<u8>, Error>(Error::Uninitialized),
            },
    {
        match &self.state {
            Some(state) => match state.load_path_vfs.read_file(path) {
                Ok(content) => {
                    let owned = copy_range(content, 0, content.len());
                    assert(owned@ =~= content@);
                    Ok(owned)
                },
                Err(_) => Err(Error::IoError(IoError::not_found())),
            },
            None => Err(Error::Uninitialized),
        }
    }

    /// Writes `buf` as the source file at `path`. The file keeps the hook and
    /// the required flag that it had.
    pub fn write_file(&mut self, path: &[u8], buf: Vec<u8>) -> (result: Result<(), Error>)
        ensures
            match old(self)@ {
                Some(before) => match key(path@) {
                    Some(k) => result is Ok && final(self)@ == Some(
                        Snapshot { files: written(before.files, k, buf@), ..before },
                    ),
                    None => {
                        &&& result matches Err(Error::IoError(error))
                        &&& error@ == NUL_IN_PATH.spec_bytes()
                        &&& final(self)@ == Some(before)
                    },
                },
                None => result == Err::<(), Error>(Error::Uninitialized) && final(self)@ is None,
            },
    {
        match &mut self.state {
            Some(state) => match state.load_path_vfs.write_file(path, buf) {
                Ok(()) => Ok(()),
                Err(_) => Err(Error::IoError(IoError::invalid_path())),
            },
            None => Err(Error::Uninitialized),
        }
    }

    /// Prints `message`.
    pub fn print(&mut self, message: &[u8]) -> (result: Result<(), Error>)
        ensures
            match old(self)@ {
                Some(before) => result is Ok && final(self)@ == Some(
                    Snapshot { output: before.output + message@, ..before },
                ),
                None => result == Err::<(), Error>(Error::Uninitialized) && final(self)@ is None,
            },
    {
        match &mut self.state {
            Some(state) => {
                state.output.extend_from_slice(message);
                assert(state.output@ =~= old(self).state->0.output@ + message@);
                Ok(())
            },
            None => Err(Error::Uninitialized),
        }
    }

    /// Prints `message` and ends the line.
    pub fn puts(&mut self, message: &[u8]) -> (result: Result<(), Error>)
        ensures
            match old(self)@ {
                Some(before) => result is Ok && final(self)@ == Some(
                    Snapshot { output: before.output + message@ + seq![NEWLINE], ..before },
                ),
                None => result == Err::<(), Error>(Error::Uninitialized) && final(self)@ is None,
            },
    {
        match &mut self.state {
            Some(state) => {
                state.output.extend_from_slice(message);
                state.output.push(NEWLINE);
                assert(state.output@ =~= old(self).state->0.output@ + message@ + seq![NEWLINE]);
                Ok(())
            },
            None => Err(Error::Uninitialized),
        }
    }

    /// Hands over what was printed since the output was last taken.
    pub fn take_output(&mut self) -> (result: Result<Vec<u8>, Error>)
        ensures
            match old(self)@ {
                Some(before) => {
                    &&& result matches Ok(printed)
                    &&& printed@ == before.output
                    &&& final(self)@ == Some(Snapshot { output: Seq::empty(), ..before })
                },
                None => result == Err::<Vec<u8>, Error>(Error::Uninitialized) && final(self)@
                    is None,
            },
    {
        match &mut self.state {
            Some(state) => {
                let mut printed: Vec<u8> = Vec::new();
                core::mem::swap(&mut state.output, &mut printed);
                Ok(printed)
            },
            None => Err(Error::Uninitialized),
        }
    }
}

} // verus!
