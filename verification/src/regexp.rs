//! The count of the capture group globals (`$1`, `$2`, ...) that the last
//! match of a regular expression set.

use vstd::prelude::*;

use crate::error::Error;
use crate::interpreter::{Artichoke, Snapshot};

verus! {

impl Artichoke {
    /// The number of capture group globals that are set.
    pub fn active_regexp_globals(&self) -> (result: Result<usize, Error>)
        ensures
            match self@ {
                Some(now) => result == Ok::<usize, Error>(now.regexp_globals),
                None => result == Err::<usize, Error>(Error::Uninitialized),
            },
    {
        match &self.state {
            Some(state) => Ok(state.regexp_globals),
            None => Err(Error::Uninitialized),
        }
    }

    /// Records that `count` capture group globals are set.
    pub fn set_active_regexp_globals(&mut self, count: usize) -> (result: Result<(), Error>)
        ensures
            match old(self)@ {
                Some(before) => result is Ok && final(self)@ == Some(
                    Snapshot { regexp_globals: count, ..before },
                ),
                None => result == Err::<(), Error>(Error::Uninitialized) && final(self)@ is None,
            },
    {
        match &mut self.state {
            Some(state) => {
                state.regexp_globals = count;
                Ok(())
            },
            None => Err(Error::Uninitialized),
        }
    }

    /// Records that no capture group global is set.
    pub fn clear_regexp(&mut self) -> (result: Result<(), Error>)
        ensures
            match old(self)@ {
                Some(before) => result is Ok && final(self)@ == Some(
                    Snapshot { regexp_globals: 0, ..before },
                ),
                None => result == Err::<(), Error>(Error::Uninitialized) && final(self)@ is None,
            },
    {
        match &mut self.state {
            Some(state) => {
                state.regexp_globals = 0;
                Ok(())
            },
            None => Err(Error::Uninitialized),
        }
    }
}

} // verus!
