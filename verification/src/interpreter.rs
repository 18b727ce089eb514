//! The interpreter: the state that every operation works on, handed to each
//! of them by reference.

use vstd::prelude::*;
use vstd::string::StringSliceAdditionalSpecFns;

use crate::context::{Context, ContextStack};
use crate::error::{Error, CONTEXT_UNDERFLOW};
use crate::vfs::{FileEntry, Vfs};

verus! {

/// What an interpreter holds, as mathematical values.
pub struct Snapshot {
    /// The entries of the file system, each under its key.
    pub files: Map<Seq<u8>, FileEntry>,
    /// The filenames of the context stack, the innermost last.
    pub contexts: Seq<Seq<u8>>,
    /// The number of capture group globals that the last match set.
    pub regexp_globals: usize,
    /// What was printed and not yet taken.
    pub output: Seq<u8>,
}

/// The state of an interpreter.
pub struct State {
    pub load_path_vfs: Vfs,
    pub parser: ContextStack,
    pub regexp_globals: usize,
    pub output: Vec<u8>,
}

impl State {
    pub open spec fn view(&self) -> Snapshot {
        Snapshot {
            files: self.load_path_vfs@,
            contexts: self.parser@,
            regexp_globals: self.regexp_globals,
            output: self.output@,
        }
    }

    /// The state of a fresh interpreter.
    pub fn new() -> (state: Self)
        ensures
            state@ == (Snapshot {
                files: Map::empty(),
                contexts: Seq::empty(),
                regexp_globals: 0,
                output: Seq::empty(),
            }),
    {
        State {
            load_path_vfs: Vfs::new(),
            parser: ContextStack::new(),
            regexp_globals: 0,
            output: Vec::new(),
        }
    }
}

/// An interpreter. Its state is there from `new` until `close`; without it
/// every operation reports `Error::Uninitialized`.
pub struct Artichoke {
    pub state: Option<State>,
}

impl Artichoke {
    /// What the interpreter holds, or `None` where it has no state.
    pub open spec fn view(&self) -> Option<Snapshot> {
        match self.state {
            Some(state) => Some(state@),
            None => None,
        }
    }

    /// A fresh interpreter: no files, no contexts, nothing printed.
    pub fn new() -> (interp: Self)
        ensures
            interp@ == Some(
                Snapshot {
                    files: Map::empty(),
                    contexts: Seq::empty(),
                    regexp_globals: 0,
                    output: Seq::empty(),
                },
            ),
    {
        Artichoke { state: Some(State::new()) }
    }

    /// Gives up the state of the interpreter.
    pub fn close(&mut self)
        ensures
            final(self)@ is None,
    {
        self.state = None;
    }

    /// Puts `context` on top of the context stack.
    pub fn push_context(&mut self, context: Context) -> (result: Result<(), Error>)
        ensures
            match old(self)@ {
                Some(before) => result is Ok && final(self)@ == Some(
                    Snapshot { contexts: before.contexts.push(context@), ..before },
                ),
                None => result == Err::<(), Error>(Error::Uninitialized) && final(self)@ is None,
            },
    {
        match &mut self.state {
            Some(state) => {
                state.parser.push(context);
                Ok(())
            },
            None => Err(Error::Uninitialized),
        }
    }

    /// Takes the innermost context off the context stack. On an empty stack
    /// this is a fatal error, and the stack stays empty.
    pub fn pop_context(&mut self) -> (result: Result<Context, Error>)
        ensures
            match old(self)@ {
                Some(before) => if before.contexts.len() > 0 {
                    &&& result matches Ok(context)
                    &&& context@ == before.contexts.last()
                    &&& final(self)@ == Some(
                        Snapshot { contexts: before.contexts.drop_last(), ..before },
                    )
                } else {
                    &&& result matches Err(Error::Fatal { message })
                    &&& message@ == CONTEXT_UNDERFLOW.spec_bytes()
                    &&& final(self)@ == Some(before)
                },
                None => result == Err::<Context, Error>(Error::Uninitialized) && final(self)@
                    is None,
            },
    {
        match &mut self.state {
            Some(state) => match state.parser.pop() {
                Some(context) => Ok(context),
                None => Err(Error::fatal(CONTEXT_UNDERFLOW)),
            },
            None => Err(Error::Uninitialized),
        }
    }

    /// The innermost context, which stays on the stack.
    pub fn peek_context(&self) -> (result: Result<Option<&Context>, Error>)
        ensures
            match self@ {
                Some(now) => match result {
                    Ok(Some(context)) => now.contexts.len() > 0 && context@ == now.contexts.last(),
                    Ok(None) => now.contexts.len() == 0,
                    Err(_) => false,
                },
                None => result == Err::<Option<&Context>, Error>(Error::Uninitialized),
            },
    {
        match &self.state {
            Some(state) => Ok(state.parser.peek()),
            None => Err(Error::Uninitialized),
        }
    }

    /// What `__FILE__` reads now: the filename of the innermost context, or
    /// `TOP_FILENAME` where the stack is empty.
    pub fn current_file(&self) -> (result: Result<Vec<u8>, Error>)
        ensures
            match self@ {
                Some(now) => result matches Ok(filename) && filename@
                    == crate::context::current_file(now.contexts),
                None => result == Err::<Vec<u8>, Error>(Error::Uninitialized),
            },
    {
        match &self.state {
            Some(state) => Ok(state.parser.current_file()),
            None => Err(Error::Uninitialized),
        }
    }
}

} // verus!
