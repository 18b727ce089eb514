//! Evaluation: handing code to the execution engine, keeping the context
//! stack in step with it, and sorting what comes back into values and errors.

use vstd::prelude::*;
use vstd::string::StringSliceAdditionalSpecFns;

use crate::context::{valid_filename, Context};
use crate::error::{
    Error,
    Exception,
    CONTEXT_UNDERFLOW,
    EMPTY_PATH,
    NOT_IN_FILE_SYSTEM,
    NUL_IN_PATH,
    UNREACHABLE_VALUE,
};
use crate::interpreter::{Artichoke, Snapshot};
use crate::path::copy_range;
use crate::value::Value;
use crate::vfs::{entry_at, ExtensionHook};

verus! {

/// The execution engine: what parses and runs Ruby code. The interpreter is
/// handed to it on every call, so that running code can load further
/// sources, and comes back in whatever state the code left it.
pub trait Engine {
    /// Runs `code` under the innermost context of `interp`. A returned value
    /// is the result of the code; a returned exception is what it raised.
    fn eval(&mut self, interp: &mut Artichoke, code: &[u8]) -> Result<Value, Exception>;

    /// Installs the definitions of the native extension `hook` in `interp`.
    fn load_extension(&mut self, interp: &mut Artichoke, hook: ExtensionHook) -> Result<(), Error>;
}

/// `result` is what the interpreter makes of the `outcome` of an
/// evaluation. A value is handed on, unless it is internal to the engine:
/// that is a fatal error. A raised exception becomes a `SyntaxError` where
/// that is its class, and is handed on under its own class name otherwise.
pub open spec fn sorted(outcome: Result<Value, Exception>, result: Result<Value, Error>) -> bool {
    match outcome {
        Ok(value) => if value is Unreachable {
            result matches Err(Error::Fatal { message }) && message@
                == UNREACHABLE_VALUE.spec_bytes()
        } else {
            result == Ok::<Value, Error>(value)
        },
        Err(exception) => if exception.name@ == "SyntaxError"@ {
            result == Err::<Value, Error>(Error::SyntaxError { message: exception.message })
        } else {
            result == Err::<Value, Error>(
                Error::Exception { name: exception.name, message: exception.message },
            )
        },
    }
}

/// Sorts the outcome of an evaluation into a value or an error.
pub fn eval_outcome(outcome: Result<Value, Exception>) -> (result: Result<Value, Error>)
    ensures
        sorted(outcome, result),
{
    match outcome {
        Ok(value) => {
            if value.is_unreachable() {
                Err(Error::fatal(UNREACHABLE_VALUE))
            } else {
                Ok(value)
            }
        },
        Err(exception) => {
            let Exception { name, message } = exception;
            let syntax_error = "SyntaxError".to_owned();
            if name == syntax_error {
                Err(Error::SyntaxError { message })
            } else {
                Err(Error::Exception { name, message })
            }
        },
    }
}

/// The message of the `ArgumentError` for a path that cannot name a
/// context.
pub open spec fn invalid_filename_message(path: Seq<u8>) -> Seq<u8> {
    if path.len() == 0 {
        EMPTY_PATH.spec_bytes()
    } else {
        NUL_IN_PATH.spec_bytes()
    }
}

/// `result` can come out of a file that was entered and evaluated: it is
/// what the interpreter makes of some outcome of the evaluation, or the
/// error of the pop that follows it, for a context stack or a state that the
/// evaluated code took away.
pub open spec fn left_file(result: Result<Value, Error>) -> bool {
    ||| exists|outcome: Result<Value, Exception>| sorted(outcome, result)
    ||| result == Err::<Value, Error>(Error::Uninitialized)
    ||| result matches Err(Error::Fatal { message }) && message@
        == CONTEXT_UNDERFLOW.spec_bytes()
}

impl Artichoke {
    /// Evaluates `code` under the innermost context.
    ///
    /// An interpreter without state is turned down, and the engine is not
    /// run. With state the engine runs once, and the result is what `sorted`
    /// makes of its outcome: so a value that comes back is never internal to
    /// the engine, and an error is a `SyntaxError`, the exception that the
    /// code raised, or the fatal error for such a value.
    pub fn eval<E: Engine>(&mut self, engine: &mut E, code: &[u8]) -> (result: Result<
        Value,
        Error,
    >)
        ensures
            old(self)@ is None ==> {
                &&& result == Err::<Value, Error>(Error::Uninitialized)
                &&& final(self)@ is None
                &&& *final(engine) == *old(engine)
            },
            old(self)@ is Some ==> exists|outcome: Result<Value, Exception>|
                sorted(outcome, result),
            result matches Ok(value) ==> !(value is Unreachable),
    {
        if self.state.is_none() {
            return Err(Error::Uninitialized);
        }
        let outcome = engine.eval(self, code);
        eval_outcome(outcome)
    }

    /// Enters the file at `path`: puts its context on the stack and reads
    /// its source. Where the file system has no entry at `path`, the context
    /// is taken off again before the `LoadError` is returned.
    pub fn begin_file(&mut self, path: &[u8]) -> (result: Result<Vec<u8>, Error>)
        ensures
            !valid_filename(path@) ==> {
                &&& result matches Err(Error::ArgumentError { message })
                &&& message@ == invalid_filename_message(path@)
                &&& final(self)@ == old(self)@
            },
            valid_filename(path@) ==> match old(self)@ {
                Some(before) => match entry_at(before.files, path@) {
                    Some(entry) => {
                        &&& result matches Ok(code)
                        &&& code@ == entry.content
                        &&& final(self)@ == Some(
                            Snapshot { contexts: before.contexts.push(path@), ..before },
                        )
                    },
                    None => {
                        &&& result matches Err(Error::LoadError { message })
                        &&& message@ == NOT_IN_FILE_SYSTEM.spec_bytes() + path@
                        &&& final(self)@ == Some(before)
                    },
                },
                None => result == Err::<Vec<u8>, Error>(Error::Uninitialized) && final(self)@
                    is None,
            },
    {
        let filename = copy_range(path, 0, path.len());
        assert(filename@ =~= path@);
        let context = match Context::new(filename) {
            Some(context) => context,
            None => {
                if path.len() == 0 {
                    return Err(Error::argument(EMPTY_PATH));
                } else {
                    return Err(Error::argument(NUL_IN_PATH));
                }
            },
        };
        match &mut self.state {
            Some(state) => {
                let ghost before = state@;
                state.parser.push(context);
                match state.load_path_vfs.read_file(path) {
                    Ok(content) => {
                        let code = copy_range(content, 0, content.len());
                        assert(code@ =~= content@);
                        Ok(code)
                    },
                    Err(_) => {
                        state.parser.pop();
                        assert(state.parser@ =~= before.contexts);
                        Err(Error::not_in_file_system(path))
                    },
                }
            },
            None => Err(Error::Uninitialized),
        }
    }

    /// Leaves the file that was entered last: takes its context off the
    /// stack, whatever its evaluation gave, and hands that on. Only a stack
    /// that is already empty stands in the way, with a fatal error.
    pub fn finish_file(&mut self, evaluated: Result<Value, Error>) -> (result: Result<
        Value,
        Error,
    >)
        ensures
            match old(self)@ {
                Some(before) => if before.contexts.len() > 0 {
                    &&& result == evaluated
                    &&& final(self)@ == Some(
                        Snapshot { contexts: before.contexts.drop_last(), ..before },
                    )
                } else {
                    &&& result matches Err(Error::Fatal { message })
                    &&& message@ == CONTEXT_UNDERFLOW.spec_bytes()
                    &&& final(self)@ == Some(before)
                },
                None => result == Err::<Value, Error>(Error::Uninitialized) && final(self)@
                    is None,
            },
    {
        match self.pop_context() {
            Ok(_) => evaluated,
            Err(error) => Err(error),
        }
    }

    /// Evaluates the file at `path` under a context of its own, which is on
    /// the stack from before the source is read until after the evaluation,
    /// and is taken off on every way out.
    ///
    /// A path that cannot name a context, an interpreter without state and a
    /// path without an entry are turned down with the stack as it was and the
    /// engine not run: these are the only inputs that give an
    /// `ArgumentError` or a `LoadError`. Past those the engine runs, and the
    /// result is what `left_file` allows: `Uninitialized` exactly where the
    /// evaluated code took the state away, and the underflow only where it
    /// left the stack empty.
    pub fn eval_file<E: Engine>(&mut self, engine: &mut E, path: &[u8]) -> (result: Result<
        Value,
        Error,
    >)
        ensures
            !valid_filename(path@) ==> {
                &&& result matches Err(Error::ArgumentError { message })
                &&& message@ == invalid_filename_message(path@)
                &&& final(self)@ == old(self)@
                &&& *final(engine) == *old(engine)
            },
            valid_filename(path@) ==> match old(self)@ {
                Some(before) => match entry_at(before.files, path@) {
                    Some(_) => {
                        &&& left_file(result)
                        &&& final(self)@ is None <==> result == Err::<Value, Error>(
                            Error::Uninitialized,
                        )
                        &&& (result matches Err(Error::Fatal { message }) && message@
                            == CONTEXT_UNDERFLOW.spec_bytes()) ==> {
                            &&& final(self)@ matches Some(after)
                            &&& after.contexts.len() == 0
                        }
                        &&& result matches Ok(value) ==> !(value is Unreachable)
                        &&& !(result matches Err(Error::ArgumentError { .. }))
                        &&& !(result matches Err(Error::LoadError { .. }))
                        &&& !(result matches Err(Error::IoError(_)))
                    },
                    None => {
                        &&& result matches Err(Error::LoadError { message })
                        &&& message@ == NOT_IN_FILE_SYSTEM.spec_bytes() + path@
                        &&& final(self)@ == Some(before)
                        &&& *final(engine) == *old(engine)
                    },
                },
                None => {
                    &&& result == Err::<Value, Error>(Error::Uninitialized)
                    &&& final(self)@ is None
                    &&& *final(engine) == *old(engine)
                },
            },
    {
        let code = match self.begin_file(path) {
            Ok(code) => code,
            Err(error) => {
                return Err(error);
            },
        };
        let evaluated = self.eval(engine, code.as_slice());
        proof {
            lemma_fatal_messages_differ();
        }
        self.finish_file(evaluated)
    }
}

/// The two fatal errors of an evaluation are told apart by their messages.
proof fn lemma_fatal_messages_differ()
    ensures
        UNREACHABLE_VALUE.spec_bytes() != CONTEXT_UNDERFLOW.spec_bytes(),
{
    reveal_strlit("eval returned an unreachable Ruby value");
    reveal_strlit("context stack underflow");
    vstd::string::is_ascii_spec_bytes(UNREACHABLE_VALUE);
    vstd::string::is_ascii_spec_bytes(CONTEXT_UNDERFLOW);
    assert(UNREACHABLE_VALUE.spec_bytes().len() == 39);
    assert(CONTEXT_UNDERFLOW.spec_bytes().len() == 23);
}

} // verus!
