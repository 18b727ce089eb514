//! Loading sources: `load`, which evaluates a source every time, and
//! `require`, which evaluates it once.
//!
//! Both look for a native extension first and for Ruby source second. Only
//! `require`, and the two lookups beside it, try the path with the extension
//! of a Ruby source file where the path as given has another or none.

use vstd::prelude::*;
use vstd::string::StringSliceAdditionalSpecFns;

use crate::error::{Error, IoError, CANNOT_LOAD, NUL_IN_PATH};
use crate::error::Exception;
use crate::eval::{sorted, Engine};
use crate::value::Value;
use crate::interpreter::{Artichoke, Snapshot};
use crate::path::{
    copy_range,
    has_ruby_extension,
    ruby_completed,
    ruby_extended,
    with_ruby_extension,
};
use crate::vfs::{entry_at, hooked, key, marked, written, ExtensionHook, FileEntry};

verus! {

/// How a `load` ended.
#[derive(Clone, Copy, Debug, PartialEq, Eq, Structural)]
pub enum Loaded {
    /// The source was evaluated.
    Success,
}

/// How a `require` ended.
#[derive(Clone, Copy, Debug, PartialEq, Eq, Structural)]
pub enum Required {
    /// The source was evaluated and is now marked as required.
    Success,
    /// The source had been required before and was left alone.
    AlreadyRequired,
}

/// What a `require` is going to do, which the file system alone decides.
#[derive(Clone, Copy, Debug, PartialEq, Eq, Structural)]
pub enum RequirePlan {
    /// Nothing: the source has been required.
    AlreadyRequired,
    /// Install `hook` where there is one, then evaluate the source at the
    /// path as given, or at the path with the extension of a Ruby source
    /// file where `completed` is set, and mark that path as required.
    Evaluate { hook: Option<ExtensionHook>, completed: bool },
}

/// The hook that is bound at `path` in `files`.
pub open spec fn extension_at(files: Map<Seq<u8>, FileEntry>, path: Seq<u8>) -> Option<
    ExtensionHook,
> {
    match entry_at(files, path) {
        Some(entry) => entry.extension_hook,
        None => None,
    }
}

/// The source that stands at `path` in `files`.
pub open spec fn source_at(files: Map<Seq<u8>, FileEntry>, path: Seq<u8>) -> Option<Seq<u8>> {
    match entry_at(files, path) {
        Some(entry) => Some(entry.content),
        None => None,
    }
}

/// The entry at `path` in `files` is marked as required.
pub open spec fn required_at(files: Map<Seq<u8>, FileEntry>, path: Seq<u8>) -> bool {
    entry_at(files, path) matches Some(entry) && entry.required
}

/// The path that a plan evaluates and marks.
pub open spec fn target(path: Seq<u8>, completed: bool) -> Seq<u8> {
    if completed {
        ruby_completed(path)
    } else {
        path
    }
}

/// What a `require` of `path` does on `files`.
///
/// A path that is marked as required is left alone. Else a hook at the path
/// as given settles for that path, and so does the extension of a Ruby
/// source file on it. Else the completed path is looked at: it may be marked
/// as required, or have a hook, which settles for it. Without either, the
/// path as given is taken where it has an entry, and the completed path
/// where it has none.
pub open spec fn require_plan(files: Map<Seq<u8>, FileEntry>, path: Seq<u8>) -> RequirePlan {
    if required_at(files, path) {
        RequirePlan::AlreadyRequired
    } else if extension_at(files, path) is Some {
        RequirePlan::Evaluate { hook: extension_at(files, path), completed: false }
    } else if ruby_extended(path) {
        RequirePlan::Evaluate { hook: None, completed: false }
    } else if required_at(files, ruby_completed(path)) {
        RequirePlan::AlreadyRequired
    } else if extension_at(files, ruby_completed(path)) is Some {
        RequirePlan::Evaluate { hook: extension_at(files, ruby_completed(path)), completed: true }
    } else {
        RequirePlan::Evaluate { hook: None, completed: entry_at(files, path) is None }
    }
}

/// The path that a `require` of `path` evaluates and marks on `files`,
/// where it does not leave the source alone.
pub open spec fn require_target(files: Map<Seq<u8>, FileEntry>, path: Seq<u8>) -> Seq<u8> {
    match require_plan(files, path) {
        RequirePlan::Evaluate { completed, .. } => target(path, completed),
        RequirePlan::AlreadyRequired => path,
    }
}

/// The key of the source that `path` names in `files`: that of the path as
/// given where it has an entry, else that of the completed path where the
/// path as given has not the extension of a Ruby source file and the
/// completed one has an entry.
pub open spec fn source_path(files: Map<Seq<u8>, FileEntry>, path: Seq<u8>) -> Option<Seq<u8>> {
    if entry_at(files, path) is Some {
        key(path)
    } else if !ruby_extended(path) && entry_at(files, ruby_completed(path)) is Some {
        key(ruby_completed(path))
    } else {
        None
    }
}

/// `result` is how a `load` ends whose evaluation gave `evaluated`: with
/// `Success` after a value, and with the error of the evaluation as it is.
pub open spec fn loaded(evaluated: Result<Value, Error>, result: Result<Loaded, Error>) -> bool {
    match evaluated {
        Ok(_) => result == Ok::<Loaded, Error>(Loaded::Success),
        Err(error) => result == Err::<Loaded, Error>(error),
    }
}

/// `error` is one that a `require` of `requested` can end with once its
/// source was read: what the interpreter makes of some outcome of the
/// evaluation, or what the mark that follows reports for an entry or a state
/// that the evaluated code took away.
pub open spec fn require_failure(error: Error, requested: Seq<u8>) -> bool {
    ||| exists|outcome: Result<Value, Exception>|
        sorted(outcome, Err::<Value, Error>(error))
    ||| error == Error::Uninitialized
    ||| error matches Error::LoadError { message } && message@ == CANNOT_LOAD.spec_bytes()
        + requested
}

/// How a `load` ends whose evaluation gave `evaluated`.
pub fn finish_load(evaluated: Result<Value, Error>) -> (result: Result<Loaded, Error>)
    ensures
        loaded(evaluated, result),
{
    match evaluated {
        Ok(_) => Ok(Loaded::Success),
        Err(error) => Err(error),
    }
}

impl Artichoke {
    /// Binds the native extension `hook` at `path`, in the place of one that
    /// is bound there. Only a path with a NUL byte is turned down.
    pub fn def_file_for_type(&mut self, path: &[u8], hook: ExtensionHook) -> (result: Result<
        (),
        Error,
    >)
        ensures
            match old(self)@ {
                Some(before) => match key(path@) {
                    Some(k) => result is Ok && final(self)@ == Some(
                        Snapshot { files: hooked(before.files, k, hook), ..before },
                    ),
                    None => {
                        &&& result matches Err(Error::IoError(error))
                        &&& error@ == NUL_IN_PATH.spec_bytes()
                        &&& final(self)@ == Some(before)
                    },
                },
                None => result == Err::<(), Error>(Error::Uninitialized) && final(self)@ is None,
            },
    {
        match &mut self.state {
            Some(state) => match state.load_path_vfs.register_extension(path, hook) {
                Ok(()) => Ok(()),
                Err(_) => Err(Error::IoError(IoError::invalid_path())),
            },
            None => Err(Error::Uninitialized),
        }
    }

    /// Puts the Ruby source `contents` at `path`. A file that is there keeps
    /// its hook and its required flag. Only a path with a NUL byte is turned
    /// down.
    pub fn def_rb_source_file(&mut self, path: &[u8], contents: &[u8]) -> (result: Result<
        (),
        Error,
    >)
        ensures
            match old(self)@ {
                Some(before) => match key(path@) {
                    Some(k) => result is Ok && final(self)@ == Some(
                        Snapshot { files: written(before.files, k, contents@), ..before },
                    ),
                    None => {
                        &&& result matches Err(Error::IoError(error))
                        &&& error@ == NUL_IN_PATH.spec_bytes()
                        &&& final(self)@ == Some(before)
                    },
                },
                None => result == Err::<(), Error>(Error::Uninitialized) && final(self)@ is None,
            },
    {
        let owned = copy_range(contents, 0, contents.len());
        assert(owned@ =~= contents@);
        self.write_file(path, owned)
    }

    /// The key of the source that `path` names, found as `require` finds it.
    pub fn resolve_source_path(&self, path: &[u8]) -> (result: Result<Option<Vec<u8>>, Error>)
        ensures
            match self@ {
                Some(now) => match result {
                    Ok(Some(k)) => source_path(now.files, path@) == Some(k@),
                    Ok(None) => source_path(now.files, path@) is None,
                    Err(_) => false,
                },
                None => result == Err::<Option<Vec<u8>>, Error>(Error::Uninitialized),
            },
    {
        let state = match &self.state {
            Some(state) => state,
            None => {
                return Err(Error::Uninitialized);
            },
        };
        match state.load_path_vfs.resolve_file(path) {
            Some(k) => {
                return Ok(Some(k));
            },
            None => {},
        }
        if !has_ruby_extension(path) {
            let completed = with_ruby_extension(path);
            return Ok(state.load_path_vfs.resolve_file(completed.as_slice()));
        }
        Ok(None)
    }

    /// Whether `path` names a source, found as `require` finds it.
    pub fn source_is_file(&self, path: &[u8]) -> (result: Result<bool, Error>)
        ensures
            match self@ {
                Some(now) => result == Ok::<bool, Error>(source_path(now.files, path@) is Some),
                None => result == Err::<bool, Error>(Error::Uninitialized),
            },
    {
        let state = match &self.state {
            Some(state) => state,
            None => {
                return Err(Error::Uninitialized);
            },
        };
        if state.load_path_vfs.is_file(path) {
            return Ok(true);
        }
        if !has_ruby_extension(path) {
            let completed = with_ruby_extension(path);
            if state.load_path_vfs.is_file(completed.as_slice()) {
                return Ok(true);
            }
        }
        Ok(false)
    }

    /// The source at `target`, for a `load` or `require` of `requested`:
    /// where `target` has no entry, the `LoadError` names `requested`.
    pub fn source_to_load(&self, target: &[u8], requested: &[u8]) -> (result: Result<
        Vec<u8>,
        Error,
    >)
        ensures
            match self@ {
                Some(now) => match source_at(now.files, target@) {
                    Some(source) => result matches Ok(code) && code@ == source,
                    None => result matches Err(Error::LoadError { message }) && message@
                        == CANNOT_LOAD.spec_bytes() + requested@,
                },
                None => result == Err::<Vec<u8>, Error>(Error::Uninitialized),
            },
    {
        match self.read_file(target) {
            Ok(code) => Ok(code),
            Err(Error::Uninitialized) => Err(Error::Uninitialized),
            Err(_) => Err(Error::cannot_load(requested)),
        }
    }

    /// The source at `target` once the hook of a `load` or `require` of
    /// `requested` was dealt with, which gave `installed` (`Ok` where there
    /// was no hook): an error of the hook is handed on as it is and nothing
    /// is read; after a hook that went well the source is read as
    /// `source_to_load` reads it.
    pub fn source_after_extension(
        &self,
        installed: Result<(), Error>,
        target: &[u8],
        requested: &[u8],
    ) -> (result: Result<Vec<u8>, Error>)
        ensures
            match installed {
                Err(error) => result == Err::<Vec<u8>, Error>(error),
                Ok(()) => match self@ {
                    Some(now) => match source_at(now.files, target@) {
                        Some(source) => result matches Ok(code) && code@ == source,
                        None => result matches Err(Error::LoadError { message }) && message@
                            == CANNOT_LOAD.spec_bytes() + requested@,
                    },
                    None => result == Err::<Vec<u8>, Error>(Error::Uninitialized),
                },
            },
    {
        match installed {
            Err(error) => Err(error),
            Ok(()) => self.source_to_load(target, requested),
        }
    }

    /// Loads the source at `path`: installs the hook that is bound there,
    /// where there is one, and evaluates the source, on every call and
    /// whether or not it was required. The required flags are neither read
    /// nor written.
    ///
    /// An interpreter without state and a path without an entry are turned
    /// down, the latter with a `LoadError` and no extension tried in its
    /// place; the engine is not run for either. A path with an entry and
    /// without a hook has its source evaluated, and the load ends as
    /// `loaded` says of what `sorted` makes of the outcome. With a hook the
    /// engine decides from the hook on.
    pub fn load_source<E: Engine>(&mut self, engine: &mut E, path: &[u8]) -> (result: Result<
        Loaded,
        Error,
    >)
        ensures
            match old(self)@ {
                Some(before) => match entry_at(before.files, path@) {
                    Some(_) => extension_at(before.files, path@) is None ==> {
                        &&& exists|outcome: Result<Value, Exception>, evaluated: Result<Value, Error>|
                            #[trigger] sorted(outcome, evaluated) && #[trigger] loaded(
                                evaluated,
                                result,
                            )
                        &&& result matches Err(error) ==> exists|outcome: Result<Value, Exception>|
                            sorted(outcome, Err::<Value, Error>(error))
                    },
                    None => {
                        &&& result matches Err(Error::LoadError { message })
                        &&& message@ == CANNOT_LOAD.spec_bytes() + path@
                        &&& final(self)@ == Some(before)
                        &&& *final(engine) == *old(engine)
                    },
                },
                None => {
                    &&& result == Err::<Loaded, Error>(Error::Uninitialized)
                    &&& final(self)@ is None
                    &&& *final(engine) == *old(engine)
                },
            },
    {
        let hook = match &self.state {
            Some(state) => state.load_path_vfs.get_extension(path),
            None => {
                return Err(Error::Uninitialized);
            },
        };
        let installed = match hook {
            Some(hook) => engine.load_extension(self, hook),
            None => Ok(()),
        };
        let code = match self.source_after_extension(installed, path, path) {
            Ok(code) => code,
            Err(error) => {
                return Err(error);
            },
        };
        let evaluated = self.eval(engine, code.as_slice());
        let result = finish_load(evaluated);
        proof {
            if hook is None {
                let outcome = choose|outcome: Result<Value, Exception>| sorted(outcome, evaluated);
                assert(sorted(outcome, evaluated) && loaded(evaluated, result));
            }
        }
        result
    }

    /// What a `require` of `path` is going to do.
    pub fn require_plan(&self, path: &[u8]) -> (result: Result<RequirePlan, Error>)
        ensures
            match self@ {
                Some(now) => result == Ok::<RequirePlan, Error>(require_plan(now.files, path@)),
                None => result == Err::<RequirePlan, Error>(Error::Uninitialized),
            },
    {
        let state = match &self.state {
            Some(state) => state,
            None => {
                return Err(Error::Uninitialized);
            },
        };
        match state.load_path_vfs.is_required(path) {
            Some(true) => {
                return Ok(RequirePlan::AlreadyRequired);
            },
            _ => {},
        }
        match state.load_path_vfs.get_extension(path) {
            Some(hook) => {
                return Ok(RequirePlan::Evaluate { hook: Some(hook), completed: false });
            },
            None => {},
        }
        if has_ruby_extension(path) {
            return Ok(RequirePlan::Evaluate { hook: None, completed: false });
        }
        let completed = with_ruby_extension(path);
        match state.load_path_vfs.is_required(completed.as_slice()) {
            Some(true) => {
                return Ok(RequirePlan::AlreadyRequired);
            },
            _ => {},
        }
        match state.load_path_vfs.get_extension(completed.as_slice()) {
            Some(hook) => Ok(RequirePlan::Evaluate { hook: Some(hook), completed: true }),
            None => Ok(
                RequirePlan::Evaluate {
                    hook: None,
                    completed: !state.load_path_vfs.is_file(path),
                },
            ),
        }
    }

    /// Ends a `require` of `requested` whose source at `target` was
    /// evaluated: marks `target` as required. Where `target` has no entry,
    /// the `LoadError` names `requested`.
    pub fn complete_require(&mut self, target: &[u8], requested: &[u8]) -> (result: Result<
        Required,
        Error,
    >)
        ensures
            match old(self)@ {
                Some(before) => match entry_at(before.files, target@) {
                    Some(_) => {
                        &&& result == Ok::<Required, Error>(Required::Success)
                        &&& key(target@) matches Some(k)
                        &&& final(self)@ == Some(
                            Snapshot { files: marked(before.files, k), ..before },
                        )
                    },
                    None => {
                        &&& result matches Err(Error::LoadError { message })
                        &&& message@ == CANNOT_LOAD.spec_bytes() + requested@
                        &&& final(self)@ == Some(before)
                    },
                },
                None => result == Err::<Required, Error>(Error::Uninitialized) && final(self)@
                    is None,
            },
    {
        match &mut self.state {
            Some(state) => match state.load_path_vfs.mark_required(target) {
                Ok(()) => Ok(Required::Success),
                Err(_) => Err(Error::cannot_load(requested)),
            },
            None => Err(Error::Uninitialized),
        }
    }

    /// Ends a `require` of `requested` whose source at `target` was
    /// evaluated, which gave `evaluated`. After an error nothing is marked,
    /// and the error is handed on as it is. After a value `target` is marked
    /// as required, as `complete_require` marks it.
    pub fn finish_require(
        &mut self,
        evaluated: Result<Value, Error>,
        target: &[u8],
        requested: &[u8],
    ) -> (result: Result<Required, Error>)
        ensures
            match evaluated {
                Err(error) => {
                    &&& result == Err::<Required, Error>(error)
                    &&& final(self)@ == old(self)@
                },
                Ok(_) => match old(self)@ {
                    Some(before) => match entry_at(before.files, target@) {
                        Some(_) => {
                            &&& result == Ok::<Required, Error>(Required::Success)
                            &&& key(target@) matches Some(k)
                            &&& final(self)@ == Some(
                                Snapshot { files: marked(before.files, k), ..before },
                            )
                        },
                        None => {
                            &&& result matches Err(Error::LoadError { message })
                            &&& message@ == CANNOT_LOAD.spec_bytes() + requested@
                            &&& final(self)@ == Some(before)
                        },
                    },
                    None => {
                        &&& result == Err::<Required, Error>(Error::Uninitialized)
                        &&& final(self)@ is None
                    },
                },
            },
    {
        match evaluated {
            Err(error) => Err(error),
            Ok(_) => self.complete_require(target, requested),
        }
    }

    /// Requires the source at `path`: evaluates it unless it was required
    /// before, and marks it as required once it was evaluated without an
    /// error.
    ///
    /// What is done follows `require_plan`. An interpreter without state, a
    /// source that has been required, and a plan without a hook whose path
    /// has no entry are settled with the interpreter as it was and the
    /// engine not run: the first two are the only ways to `Uninitialized`
    /// before the engine and to `AlreadyRequired`. Past those the engine
    /// runs. A `require` that then succeeds leaves the path of the plan
    /// marked; one without a hook that fails ends with an error that
    /// `require_failure` allows, and with `Uninitialized` or a `LoadError`
    /// only where the evaluated code took the state or the entry away.
    pub fn require_source<E: Engine>(&mut self, engine: &mut E, path: &[u8]) -> (result: Result<
        Required,
        Error,
    >)
        ensures
            match old(self)@ {
                Some(before) => match require_plan(before.files, path@) {
                    RequirePlan::AlreadyRequired => {
                        &&& result == Ok::<Required, Error>(Required::AlreadyRequired)
                        &&& final(self)@ == Some(before)
                        &&& *final(engine) == *old(engine)
                    },
                    RequirePlan::Evaluate { hook, completed } => if hook is None && entry_at(
                        before.files,
                        target(path@, completed),
                    ) is None {
                        &&& result matches Err(Error::LoadError { message })
                        &&& message@ == CANNOT_LOAD.spec_bytes() + path@
                        &&& final(self)@ == Some(before)
                        &&& *final(engine) == *old(engine)
                    } else {
                        &&& result != Ok::<Required, Error>(Required::AlreadyRequired)
                        &&& result is Ok ==> {
                            &&& final(self)@ matches Some(after)
                            &&& required_at(after.files, target(path@, completed))
                        }
                        &&& hook is None ==> (result matches Err(error) ==> require_failure(
                            error,
                            path@,
                        ))
                        &&& hook is None ==> (result == Err::<Required, Error>(
                            Error::Uninitialized,
                        ) ==> final(self)@ is None)
                        &&& hook is None ==> (result matches Err(Error::LoadError { .. }) ==> {
                            &&& final(self)@ matches Some(after)
                            &&& entry_at(after.files, target(path@, completed)) is None
                        })
                    },
                },
                None => {
                    &&& result == Err::<Required, Error>(Error::Uninitialized)
                    &&& final(self)@ is None
                    &&& *final(engine) == *old(engine)
                },
            },
    {
        let plan = match self.require_plan(path) {
            Ok(plan) => plan,
            Err(error) => {
                return Err(error);
            },
        };
        match plan {
            RequirePlan::AlreadyRequired => Ok(Required::AlreadyRequired),
            RequirePlan::Evaluate { hook, completed } => {
                let target = if completed {
                    with_ruby_extension(path)
                } else {
                    let given = copy_range(path, 0, path.len());
                    assert(given@ =~= path@);
                    given
                };
                let installed = match hook {
                    Some(hook) => engine.load_extension(self, hook),
                    None => Ok(()),
                };
                let code = match self.source_after_extension(installed, target.as_slice(), path) {
                    Ok(code) => code,
                    Err(error) => {
                        return Err(error);
                    },
                };
                let evaluated = self.eval(engine, code.as_slice());
                self.finish_require(evaluated, target.as_slice(), path)
            },
        }
    }
}

/// `require` evaluates a source once: where a `require` of `path` evaluates
/// a source and marks it, the next `require` of `path` leaves it alone.
pub proof fn lemma_require_is_idempotent(files: Map<Seq<u8>, FileEntry>, path: Seq<u8>)
    requires
        require_plan(files, path) is Evaluate,
        entry_at(files, require_target(files, path)) is Some,
    ensures
        require_plan(marked(files, key(require_target(files, path))->0), path)
            == RequirePlan::AlreadyRequired,
{
}

/// `load` has no memory: marking an entry as required changes neither the
/// hook nor the source that a `load` of any path finds, and a `load` looks
/// only at the path as given.
pub proof fn lemma_load_ignores_required(
    files: Map<Seq<u8>, FileEntry>,
    k: Seq<u8>,
    path: Seq<u8>,
)
    requires
        files.contains_key(k),
    ensures
        extension_at(marked(files, k), path) == extension_at(files, path),
        source_at(marked(files, k), path) == source_at(files, path),
{
}

/// The lookups find a source exactly where `require` finds one, and under
/// the same key: that of the path that `require` evaluates. The one
/// exception to the key is a path as given that has an entry while
/// `require` is drawn to a hook at the completed path.
pub proof fn lemma_lookup_follows_require(files: Map<Seq<u8>, FileEntry>, path: Seq<u8>)
    ensures
        match require_plan(files, path) {
            RequirePlan::AlreadyRequired => source_path(files, path) is Some,
            RequirePlan::Evaluate { hook, completed } => {
                &&& source_path(files, path) is Some <==> entry_at(
                    files,
                    target(path, completed),
                ) is Some
                &&& source_path(files, path) is Some && !(completed && entry_at(files, path)
                    is Some) ==> source_path(files, path) == key(target(path, completed))
            },
        },
{
}

/// A required flag that is set stays set: no write, no hook and no other
/// mark takes it back.
pub proof fn lemma_required_is_kept(
    files: Map<Seq<u8>, FileEntry>,
    path: Seq<u8>,
    k: Seq<u8>,
    content: Seq<u8>,
    hook: ExtensionHook,
)
    requires
        required_at(files, path),
    ensures
        required_at(written(files, k, content), path),
        required_at(hooked(files, k, hook), path),
        files.contains_key(k) ==> required_at(marked(files, k), path),
{
}

} // verus!
