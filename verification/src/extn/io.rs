//! The native side of the Ruby class `IO`: the state of an `IO` object, and
//! what its methods do to the virtual file system.

use vstd::prelude::*;
use vstd::string::StringSliceAdditionalSpecFns;

use crate::error::{Error, FILE_NOT_FOUND, NUL_IN_PATH};
use crate::interpreter::{Artichoke, Snapshot};
use crate::load::source_at;
use crate::path::copy_range;
use crate::value::Value;
use crate::vfs::{key, written};

verus! {

/// The native state of an `IO` object: the number of its file descriptor.
#[derive(Clone, Copy, Debug, PartialEq, Eq, Structural)]
pub struct IO {
    fd: usize,
}

impl IO {
    /// The number of the file descriptor.
    pub closed spec fn descriptor(&self) -> usize {
        self.fd
    }

    /// The number of the file descriptor.
    pub fn fd(&self) -> (fd: usize)
        ensures
            fd == self.descriptor(),
    {
        self.fd
    }
}

/// `IO#initialize`: the receiver `into` comes back carrying the native state
/// of an `IO`. Whatever `fd` is, the descriptor is 0.
pub fn initialize(interp: &mut Artichoke, into: Value, fd: Value) -> (result: Result<Value, Error>)
    ensures
        final(interp)@ == old(interp)@,
        match old(interp)@ {
            Some(_) => result matches Ok(Value::Io(io)) && io.descriptor() == 0,
            None => result == Err::<Value, Error>(Error::Uninitialized),
        },
{
    if interp.state.is_none() {
        return Err(Error::Uninitialized);
    }
    let io = IO { fd: 0 };
    Ok(Value::Io(io))
}

/// The part of `content` that `IO.binread` returns: what stands at and
/// after `offset`, cut to `length` bytes where a length is given.
pub open spec fn window(content: Seq<u8>, length: Option<usize>, offset: Option<usize>) -> Seq<u8> {
    let rest = match offset {
        Some(from) => content.skip(from as int),
        None => content,
    };
    match length {
        Some(count) => rest.take(count as int),
        None => rest,
    }
}

/// `offset` lies within `content`, and `length` bytes stand behind it.
pub open spec fn window_fits(content: Seq<u8>, length: Option<usize>, offset: Option<usize>) -> bool {
    let from = match offset {
        Some(from) => from as int,
        None => 0,
    };
    &&& from <= content.len()
    &&& length matches Some(count) ==> from + count <= content.len()
}

/// `IO.binread`: the bytes of the file `name` from `offset` on, `length` of
/// them where a length is given. A file that is not there is an I/O error.
///
/// Where the file is there, the offset must lie within it and the length
/// behind the offset.
pub fn binread(interp: &Artichoke, name: &[u8], length: Option<usize>, offset: Option<usize>) -> (result:
    Result<Vec<u8>, Error>)
    requires
        interp@ matches Some(now) ==> (source_at(now.files, name@) matches Some(content)
            ==> window_fits(content, length, offset)),
    ensures
        match interp@ {
            Some(now) => match source_at(now.files, name@) {
                Some(content) => result matches Ok(bytes) && bytes@ == window(
                    content,
                    length,
                    offset,
                ),
                None => result matches Err(Error::IoError(error)) && error@
                    == FILE_NOT_FOUND.spec_bytes(),
            },
            None => result == Err::<Vec<u8>, Error>(Error::Uninitialized),
        },
{
    let content = match interp.read_file(name) {
        Ok(content) => content,
        Err(error) => {
            return Err(error);
        },
    };
    let from = match offset {
        Some(from) => from,
        None => 0,
    };
    let total = content.len();
    let until = match length {
        Some(count) => from + count,
        None => total,
    };
    let bytes = copy_range(content.as_slice(), from, until);
    assert(bytes@ =~= window(content@, length, offset));
    Ok(bytes)
}

/// The content of a file after `IO.write`: `string` alone where no offset is
/// given, else `content` with `string` written over it from `offset` on.
pub open spec fn overwritten(content: Seq<u8>, string: Seq<u8>, offset: Option<usize>) -> Seq<u8> {
    match offset {
        Some(at) => content.take(at as int) + string + content.skip(at + string.len()),
        None => string,
    }
}

/// `IO.write`: writes `string` to the file `name`, over what the file holds
/// from `offset` on where an offset is given, and in the place of the whole
/// file where none is. Returns the number of bytes of `string`.
///
/// With an offset, a file that is not there is an I/O error and nothing is
/// written; without one, only a name with a NUL byte is. Where the file is
/// there and an offset is given, `string` must end within the file.
pub fn write(interp: &mut Artichoke, name: &[u8], string: &[u8], offset: Option<usize>) -> (result:
    Result<usize, Error>)
    requires
        old(interp)@ matches Some(before) ==> (offset matches Some(at) ==> (source_at(
            before.files,
            name@,
        ) matches Some(content) ==> at + string.len() <= content.len())),
    ensures
        match old(interp)@ {
            Some(before) => match offset {
                Some(_) => match source_at(before.files, name@) {
                    Some(content) => {
                        &&& result == Ok::<usize, Error>(string.len())
                        &&& key(name@) matches Some(k)
                        &&& final(interp)@ == Some(
                            Snapshot {
                                files: written(
                                    before.files,
                                    k,
                                    overwritten(content, string@, offset),
                                ),
                                ..before
                            },
                        )
                    },
                    None => {
                        &&& result matches Err(Error::IoError(error))
                        &&& error@ == FILE_NOT_FOUND.spec_bytes()
                        &&& final(interp)@ == Some(before)
                    },
                },
                None => match key(name@) {
                    Some(k) => {
                        &&& result == Ok::<usize, Error>(string.len())
                        &&& final(interp)@ == Some(
                            Snapshot { files: written(before.files, k, string@), ..before },
                        )
                    },
                    None => {
                        &&& result matches Err(Error::IoError(error))
                        &&& error@ == NUL_IN_PATH.spec_bytes()
                        &&& final(interp)@ == Some(before)
                    },
                },
            },
            None => {
                &&& result == Err::<usize, Error>(Error::Uninitialized)
                &&& final(interp)@ is None
            },
        },
{
    let contents = match offset {
        Some(at) => {
            let before = match interp.read_file(name) {
                Ok(before) => before,
                Err(error) => {
                    return Err(error);
                },
            };
            let total = before.len();
            let mut contents = copy_range(before.as_slice(), 0, at);
            contents.extend_from_slice(string);
            let rest = copy_range(before.as_slice(), at + string.len(), total);
            contents.extend_from_slice(rest.as_slice());
            assert(contents@ =~= overwritten(before@, string@, offset));
            contents
        },
        None => {
            let contents = copy_range(string, 0, string.len());
            assert(contents@ =~= string@);
            contents
        },
    };
    match interp.write_file(name, contents) {
        Ok(()) => Ok(string.len()),
        Err(error) => Err(error),
    }
}

} // verus!
