//! The interpreter driven by a small stand-in for the execution engine,
//! which knows just enough Ruby for these tests.

use artichoke_backend::context::Context;
use artichoke_backend::error::{Error, Exception};
use artichoke_backend::eval::{eval_outcome, Engine};
use artichoke_backend::interpreter::Artichoke;
use artichoke_backend::load::{finish_load, Loaded, RequirePlan, Required};
use artichoke_backend::value::Value;
use artichoke_backend::vfs::ExtensionHook;

const LOAD_PATH: &[u8] = b"/artichoke/virtual_root/src/lib/";

const NON_IDEMPOTENT_LOAD: &[u8] = br#"
module LoadSources
  class Counter
    attr_reader :c

    def initialize(c)
      @c = c
    end

    def inc!
      @c += 1
    end

    def self.instance
      @instance ||= new(10)
    end
  end
end

LoadSources::Counter.instance.inc!
    "#;

/// An engine for the handful of sources that the tests evaluate.
#[derive(Default)]
struct Engine0 {
    /// `LoadSources::Counter.instance.c`, once the class is defined.
    counter: Option<i64>,
    /// What the method `file` returns, once it is defined.
    file: Option<Vec<u8>>,
    /// The hooks that were installed, in order.
    installed: Vec<u64>,
    /// Every source that was evaluated, in order.
    evaluated: Vec<Vec<u8>>,
    /// What `__FILE__` read at the start of each evaluation.
    seen: Vec<Vec<u8>>,
}

fn raise(name: &str, message: &[u8]) -> Exception {
    Exception { name: name.to_string(), message: message.to_vec() }
}

fn raise_error(error: Error) -> Exception {
    Exception { name: error.name(), message: error.message() }
}

impl Engine0 {
    /// `Kernel#require`: finds the feature on the load path, then requires
    /// it under a context of its own.
    fn require(&mut self, interp: &mut Artichoke, feature: &[u8]) -> Result<Value, Exception> {
        let mut path = LOAD_PATH.to_vec();
        path.extend_from_slice(feature);
        let resolved = match interp.resolve_source_path(&path).map_err(raise_error)? {
            Some(resolved) => resolved,
            None => {
                let mut message = b"cannot load such file -- ".to_vec();
                message.extend_from_slice(feature);
                return Err(raise("LoadError", &message));
            }
        };
        let context = Context::new(resolved).expect("a key names a context");
        interp.push_context(context).map_err(raise_error)?;
        let required = interp.require_source(self, &path);
        interp.pop_context().map_err(raise_error)?;
        match required.map_err(raise_error)? {
            Required::Success => Ok(Value::Bool(true)),
            Required::AlreadyRequired => Ok(Value::Bool(false)),
        }
    }

    fn statement(&mut self, interp: &mut Artichoke, code: &[u8]) -> Result<Value, Exception> {
        if let Some(feature) = code.strip_prefix(b"require '").and_then(|rest| rest.strip_suffix(b"'")) {
            return self.require(interp, feature);
        }
        match code {
            b"__FILE__" => Ok(Value::Bytes(interp.current_file().map_err(raise_error)?)),
            b"file" => match &self.file {
                Some(file) => Ok(Value::Bytes(file.clone())),
                None => Err(raise("NameError", b"undefined local variable or method 'file'")),
            },
            b"15" => Ok(Value::Integer(15)),
            b"'a' * 10" => Ok(Value::Bytes(b"aaaaaaaaaa".to_vec())),
            b"LoadSources::Counter.instance.c" => match self.counter {
                Some(counter) => Ok(Value::Integer(counter)),
                None => Err(raise("NameError", b"uninitialized constant LoadSources")),
            },
            b"internal" => Ok(Value::Unreachable),
            b"raise 'boom'" => Err(raise("RuntimeError", b"boom")),
            _ => Err(raise("SyntaxError", b"syntax error")),
        }
    }
}

impl Engine for Engine0 {
    fn eval(&mut self, interp: &mut Artichoke, code: &[u8]) -> Result<Value, Exception> {
        self.evaluated.push(code.to_vec());
        let current = interp.current_file().map_err(raise_error)?;
        self.seen.push(current.clone());
        if code == NON_IDEMPOTENT_LOAD {
            let counter = self.counter.unwrap_or(10) + 1;
            self.counter = Some(counter);
            return Ok(Value::Integer(counter));
        }
        if code == b"def file; __FILE__; end" {
            self.file = Some(current);
            return Ok(Value::Nil);
        }
        if code == b"def bad; 'as'.scan(; end" {
            return Err(raise("SyntaxError", b"syntax error"));
        }
        if code.is_empty() {
            return Ok(Value::Nil);
        }
        let mut value = Value::Nil;
        for statement in code.split(|byte| *byte == b';') {
            value = self.statement(interp, statement.trim_ascii())?;
        }
        Ok(value)
    }

    fn load_extension(&mut self, interp: &mut Artichoke, hook: ExtensionHook) -> Result<(), Error> {
        self.installed.push(hook.id);
        if hook.id == 13 {
            return Err(Error::Exception {
                name: "NotImplementedError".to_string(),
                message: b"no such extension".to_vec(),
            });
        }
        if hook.id == 7 {
            interp.def_rb_source_file(b"late.rb", b"15")?;
        }
        Ok(())
    }
}

fn interpreter() -> (Artichoke, Engine0) {
    (Artichoke::new(), Engine0::default())
}

fn text(value: Value) -> String {
    match value {
        Value::Bytes(bytes) => String::from_utf8(bytes).unwrap(),
        other => panic!("not a string: {:?}", other),
    }
}

fn count(value: Value) -> usize {
    match value {
        Value::Integer(n) => usize::try_from(n).unwrap(),
        other => panic!("not an integer: {:?}", other),
    }
}

#[test]
fn root_eval_context() {
    let (mut interp, mut engine) = interpreter();
    let result = interp.eval(&mut engine, b"__FILE__").unwrap();
    let result = text(result);
    assert_eq!(result, "(eval)");
}

#[test]
fn context_is_restored_after_eval() {
    let (mut interp, mut engine) = interpreter();
    let context = Context::new(b"context.rb".to_vec()).unwrap();
    interp.push_context(context).unwrap();
    interp.eval(&mut engine, b"15").unwrap();
    let context = interp.peek_context().unwrap();
    let filename = context.unwrap().filename();
    assert_eq!(filename, b"context.rb");
}

#[test]
fn root_context_is_not_pushed_after_eval() {
    let (mut interp, mut engine) = interpreter();
    interp.eval(&mut engine, b"15").unwrap();
    let context = interp.peek_context().unwrap();
    assert!(context.is_none());
}

#[test]
fn eval_with_context() {
    let (mut interp, mut engine) = interpreter();

    let context = Context::new(b"source.rb".to_vec()).unwrap();
    interp.push_context(context).unwrap();
    let result = interp.eval(&mut engine, b"__FILE__").unwrap();
    let result = text(result);
    assert_eq!(result, "source.rb");
    interp.pop_context().unwrap();

    let context = Context::new(b"source.rb".to_vec()).unwrap();
    interp.push_context(context).unwrap();
    let result = interp.eval(&mut engine, b"__FILE__").unwrap();
    let result = text(result);
    assert_eq!(result, "source.rb");
    interp.pop_context().unwrap();

    let context = Context::new(b"main.rb".to_vec()).unwrap();
    interp.push_context(context).unwrap();
    let result = interp.eval(&mut engine, b"__FILE__").unwrap();
    let result = text(result);
    assert_eq!(result, "main.rb");
    interp.pop_context().unwrap();
}

#[test]
fn unparseable_code_returns_err_syntax_error() {
    let (mut interp, mut engine) = interpreter();
    let err = interp.eval(&mut engine, b"'a").unwrap_err();
    assert_eq!("SyntaxError", err.name().as_str());
}

#[test]
fn interpreter_is_usable_after_syntax_error() {
    let (mut interp, mut engine) = interpreter();
    let err = interp.eval(&mut engine, b"'a").unwrap_err();
    assert_eq!("SyntaxError", err.name().as_str());
    // Ensure interpreter is usable after evaling unparseable code
    let result = interp.eval(&mut engine, b"'a' * 10 ").unwrap();
    let result = text(result);
    assert_eq!(result, "a".repeat(10));
}

#[test]
fn file_magic_constant() {
    let file = "/artichoke/virtual_root/src/lib/source.rb";
    let (mut interp, mut engine) = interpreter();
    interp.def_rb_source_file(b"source.rb", &b"def file; __FILE__; end"[..]).unwrap();
    let result = interp.eval(&mut engine, b"require 'source'; file").unwrap();
    let result = text(result);
    assert_eq!(result, file);
}

#[test]
fn file_not_persistent() {
    let (mut interp, mut engine) = interpreter();
    interp.def_rb_source_file(b"source.rb", &b"def file; __FILE__; end"[..]).unwrap();
    let result = interp.eval(&mut engine, b"require 'source'; __FILE__").unwrap();
    let result = text(result);
    assert_eq!(result, "(eval)");
}

#[test]
fn return_syntax_error() {
    let (mut interp, mut engine) = interpreter();
    interp.def_rb_source_file(b"fail.rb", &b"def bad; 'as'.scan(; end"[..]).unwrap();
    let err = interp.eval(&mut engine, b"require 'fail'").unwrap_err();
    assert_eq!("SyntaxError", err.name().as_str());
}

#[test]
fn eval_file_error_file_not_found() {
    let (mut interp, mut engine) = interpreter();
    let err = interp.eval_file(&mut engine, b"no/such/file.rb").unwrap_err();
    assert_eq!("LoadError", err.name().as_str());
    assert_eq!(
        b"ruby: file not found in virtual file system -- no/such/file.rb".to_vec(),
        err.message()
    );
}

#[test]
fn eval_file_error_invalid_path() {
    let (mut interp, mut engine) = interpreter();
    let err = interp.eval_file(&mut engine, b"not/valid/utf8/\xff.rb").unwrap_err();
    assert_eq!("LoadError", err.name().as_str());
    assert_eq!(
        b"ruby: file not found in virtual file system -- not/valid/utf8/\xFF.rb".to_vec(),
        err.message()
    );
}

#[test]
fn load_has_no_memory() {
    let (mut interp, mut engine) = interpreter();
    interp.def_rb_source_file(b"counter.rb", NON_IDEMPOTENT_LOAD).unwrap();

    let result = interp.load_source(&mut engine, b"./counter.rb").unwrap();
    assert_eq!(result, Loaded::Success);
    let count1 = count(interp.eval(&mut engine, b"LoadSources::Counter.instance.c").unwrap());
    assert_eq!(count1, 11);

    // `Kernel#load` has no memory and will always execute
    let result = interp.load_source(&mut engine, b"./counter.rb").unwrap();
    assert_eq!(result, Loaded::Success);
    let count2 = count(interp.eval(&mut engine, b"LoadSources::Counter.instance.c").unwrap());
    assert_eq!(count2, 12);
}

#[test]
fn load_has_no_memory_and_ignores_loaded_features() {
    let (mut interp, mut engine) = interpreter();
    interp.def_rb_source_file(b"counter.rb", NON_IDEMPOTENT_LOAD).unwrap();

    let result = interp.require_source(&mut engine, b"./counter.rb").unwrap();
    assert_eq!(result, Required::Success);
    let count1 = count(interp.eval(&mut engine, b"LoadSources::Counter.instance.c").unwrap());
    assert_eq!(count1, 11);

    let result = interp.require_source(&mut engine, b"./counter.rb").unwrap();
    assert_eq!(result, Required::AlreadyRequired);

    let result = interp.load_source(&mut engine, b"./counter.rb").unwrap();
    assert_eq!(result, Loaded::Success);
    let count2 = count(interp.eval(&mut engine, b"LoadSources::Counter.instance.c").unwrap());
    assert_eq!(count2, 12);

    // `Kernel#load` has no memory and will always execute
    let result = interp.load_source(&mut engine, b"./counter.rb").unwrap();
    assert_eq!(result, Loaded::Success);
    let count3 = count(interp.eval(&mut engine, b"LoadSources::Counter.instance.c").unwrap());
    assert_eq!(count3, 13);
}

#[test]
fn load_does_not_discover_paths_from_loaded_features() {
    let (mut interp, mut engine) = interpreter();
    interp.def_rb_source_file(b"counter.rb", NON_IDEMPOTENT_LOAD).unwrap();

    let result = interp.require_source(&mut engine, b"./counter").unwrap();
    assert_eq!(result, Required::Success);
    let count1 = count(interp.eval(&mut engine, b"LoadSources::Counter.instance.c").unwrap());
    assert_eq!(count1, 11);

    let exc = interp.load_source(&mut engine, b"./counter").unwrap_err();
    assert_eq!(exc.message(), b"cannot load such file -- ./counter".to_vec());
    assert_eq!(exc.name(), "LoadError");
}

#[test]
fn require_is_idempotent() {
    let (mut interp, mut engine) = interpreter();
    interp.def_rb_source_file(b"counter.rb", NON_IDEMPOTENT_LOAD).unwrap();

    assert_eq!(interp.require_source(&mut engine, b"counter"), Ok(Required::Success));
    assert_eq!(interp.require_source(&mut engine, b"counter"), Ok(Required::AlreadyRequired));
    assert_eq!(interp.require_source(&mut engine, b"./counter.rb"), Ok(Required::AlreadyRequired));
    assert_eq!(engine.counter, Some(11));
    assert_eq!(engine.evaluated, vec![NON_IDEMPOTENT_LOAD.to_vec()]);
    assert_eq!(interp.state.as_ref().unwrap().load_path_vfs.is_required(b"counter.rb"), Some(true));
    assert_eq!(interp.state.as_ref().unwrap().load_path_vfs.is_required(b"counter"), None);
}

#[test]
fn load_runs_the_source_every_time() {
    let (mut interp, mut engine) = interpreter();
    interp.def_rb_source_file(b"counter.rb", NON_IDEMPOTENT_LOAD).unwrap();
    for round in 1..=5 {
        assert_eq!(interp.load_source(&mut engine, b"counter.rb"), Ok(Loaded::Success));
        assert_eq!(engine.counter, Some(10 + round));
    }
    assert_eq!(engine.evaluated.len(), 5);
    assert_eq!(interp.state.as_ref().unwrap().load_path_vfs.is_required(b"counter.rb"), Some(false));
}

#[test]
fn load_installs_the_hook_on_every_call() {
    let (mut interp, mut engine) = interpreter();
    interp.def_file_for_type(b"native.rb", ExtensionHook { id: 3 }).unwrap();
    assert_eq!(interp.load_source(&mut engine, b"native.rb"), Ok(Loaded::Success));
    assert_eq!(interp.require_source(&mut engine, b"native.rb"), Ok(Required::Success));
    assert_eq!(interp.load_source(&mut engine, b"native.rb"), Ok(Loaded::Success));
    assert_eq!(engine.installed, vec![3, 3, 3]);
    assert_eq!(engine.evaluated, vec![Vec::<u8>::new(), Vec::new(), Vec::new()]);
}

#[test]
fn require_plans() {
    let (mut interp, _) = interpreter();
    interp.def_rb_source_file(b"plain", b"15").unwrap();
    interp.def_rb_source_file(b"both", b"15").unwrap();
    interp.def_file_for_type(b"both.rb", ExtensionHook { id: 1 }).unwrap();
    interp.def_file_for_type(b"exact", ExtensionHook { id: 2 }).unwrap();
    interp.def_rb_source_file(b"source.rb", b"15").unwrap();

    let unhooked = |completed| Ok(RequirePlan::Evaluate { hook: None, completed });
    let hooked = |id, completed| Ok(RequirePlan::Evaluate { hook: Some(ExtensionHook { id }), completed });
    assert_eq!(interp.require_plan(b"plain"), unhooked(false));
    assert_eq!(interp.require_plan(b"source"), unhooked(true));
    assert_eq!(interp.require_plan(b"source.rb"), unhooked(false));
    assert_eq!(interp.require_plan(b"missing"), unhooked(true));
    assert_eq!(interp.require_plan(b"missing.rb"), unhooked(false));
    assert_eq!(interp.require_plan(b"exact"), hooked(2, false));
    assert_eq!(interp.require_plan(b"both"), hooked(1, true));
    assert_eq!(interp.require_plan(b"both.rb"), hooked(1, false));

    interp.complete_require(b"source.rb", b"source").unwrap();
    assert_eq!(interp.require_plan(b"source"), Ok(RequirePlan::AlreadyRequired));
    assert_eq!(interp.require_plan(b"source.rb"), Ok(RequirePlan::AlreadyRequired));
    assert_eq!(interp.require_plan(b"./lib/../source.txt"), Ok(RequirePlan::AlreadyRequired));
}

#[test]
fn require_prefers_the_hook_at_the_completed_path() {
    let (mut interp, mut engine) = interpreter();
    interp.def_rb_source_file(b"both", b"raise 'boom'").unwrap();
    interp.def_file_for_type(b"both.rb", ExtensionHook { id: 1 }).unwrap();
    assert_eq!(interp.require_source(&mut engine, b"both"), Ok(Required::Success));
    assert_eq!(engine.installed, vec![1]);
    assert_eq!(engine.evaluated, vec![Vec::<u8>::new()]);
    assert_eq!(interp.state.as_ref().unwrap().load_path_vfs.is_required(b"both.rb"), Some(true));
    assert_eq!(interp.state.as_ref().unwrap().load_path_vfs.is_required(b"both"), Some(false));
}

#[test]
fn require_reads_the_source_after_the_hook_ran() {
    let (mut interp, mut engine) = interpreter();
    interp.def_file_for_type(b"late", ExtensionHook { id: 7 }).unwrap();
    assert_eq!(interp.require_source(&mut engine, b"late"), Ok(Required::Success));
    assert_eq!(interp.require_source(&mut engine, b"late.rb"), Ok(Required::Success));
    assert_eq!(engine.evaluated, vec![Vec::<u8>::new(), b"15".to_vec()]);
}

#[test]
fn require_of_a_missing_source_is_a_load_error() {
    let (mut interp, mut engine) = interpreter();
    for path in [&b"missing"[..], b"missing.rb", b"dir/../missing", b"bad\0name"] {
        let error = interp.require_source(&mut engine, path).unwrap_err();
        let mut message = b"cannot load such file -- ".to_vec();
        message.extend_from_slice(path);
        assert_eq!(error, Error::LoadError { message });
    }
    assert!(engine.evaluated.is_empty());
}

#[test]
fn failed_require_is_not_marked() {
    let (mut interp, mut engine) = interpreter();
    interp.def_rb_source_file(b"fail.rb", b"raise 'boom'").unwrap();
    interp.def_file_for_type(b"broken.rb", ExtensionHook { id: 13 }).unwrap();
    let error = interp.require_source(&mut engine, b"fail").unwrap_err();
    assert_eq!(error, Error::Exception { name: "RuntimeError".to_string(), message: b"boom".to_vec() });
    let error = interp.require_source(&mut engine, b"broken").unwrap_err();
    assert_eq!(error.name(), "NotImplementedError");
    assert_eq!(interp.state.as_ref().unwrap().load_path_vfs.is_required(b"fail.rb"), Some(false));
    assert_eq!(interp.state.as_ref().unwrap().load_path_vfs.is_required(b"broken.rb"), Some(false));
    assert_eq!(interp.require_source(&mut engine, b"fail").unwrap_err().name(), "RuntimeError");
    assert_eq!(engine.evaluated.len(), 2);
}

#[test]
fn lookups_complete_the_extension_as_require_does() {
    let (mut interp, mut engine) = interpreter();
    interp.def_rb_source_file(b"only/extended.rb", b"15").unwrap();
    let key = b"/artichoke/virtual_root/src/lib/only/extended.rb".to_vec();
    assert_eq!(interp.resolve_source_path(b"only/extended"), Ok(Some(key.clone())));
    assert_eq!(interp.resolve_source_path(b"./only/extended.rb"), Ok(Some(key.clone())));
    assert_eq!(interp.resolve_source_path(b"only/extended.txt"), Ok(Some(key)));
    assert_eq!(interp.source_is_file(b"only/extended"), Ok(true));
    assert_eq!(interp.source_is_file(b"only/extended.rb"), Ok(true));
    assert_eq!(interp.resolve_source_path(b"only/other"), Ok(None));
    assert_eq!(interp.source_is_file(b"only/other"), Ok(false));
    assert_eq!(interp.resolve_source_path(b"only/extended.rb.rb"), Ok(None));
    assert_eq!(interp.require_source(&mut engine, b"only/extended"), Ok(Required::Success));
    assert_eq!(interp.read_file(b"only/extended").unwrap_err().name(), "IOError");
}

#[test]
fn nested_files_restore_the_current_file() {
    let (mut interp, mut engine) = interpreter();
    interp.def_rb_source_file(b"outer.rb", b"require 'inner'; __FILE__").unwrap();
    interp.def_rb_source_file(b"inner.rb", b"__FILE__").unwrap();
    let outer = interp.eval_file(&mut engine, b"outer.rb").unwrap();
    assert_eq!(text(outer), "outer.rb");
    assert_eq!(
        engine.seen,
        vec![b"outer.rb".to_vec(), b"/artichoke/virtual_root/src/lib/inner.rb".to_vec()]
    );
    assert_eq!(interp.current_file(), Ok(b"(eval)".to_vec()));
    assert!(interp.peek_context().unwrap().is_none());
}

#[test]
fn interleaved_contexts() {
    let (mut interp, mut engine) = interpreter();
    interp.def_rb_source_file(b"a.rb", b"__FILE__").unwrap();
    interp.push_context(Context::new(b"main.rb".to_vec()).unwrap()).unwrap();
    assert_eq!(text(interp.eval(&mut engine, b"__FILE__").unwrap()), "main.rb");
    assert_eq!(text(interp.eval_file(&mut engine, b"a.rb").unwrap()), "a.rb");
    assert_eq!(text(interp.eval(&mut engine, b"__FILE__").unwrap()), "main.rb");
    assert!(interp.eval_file(&mut engine, b"b.rb").is_err());
    assert_eq!(text(interp.eval(&mut engine, b"__FILE__").unwrap()), "main.rb");
    assert_eq!(interp.pop_context().unwrap().filename(), b"main.rb");
    assert_eq!(text(interp.eval(&mut engine, b"__FILE__").unwrap()), "(eval)");
}

#[test]
fn eval_file_pops_its_context_after_an_error() {
    let (mut interp, mut engine) = interpreter();
    interp.def_rb_source_file(b"bad.rb", b"'a").unwrap();
    interp.def_rb_source_file(b"boom.rb", b"raise 'boom'").unwrap();
    interp.def_rb_source_file(b"internal.rb", b"internal").unwrap();
    assert_eq!(interp.eval_file(&mut engine, b"bad.rb").unwrap_err().name(), "SyntaxError");
    assert_eq!(interp.eval_file(&mut engine, b"boom.rb").unwrap_err().name(), "RuntimeError");
    assert_eq!(interp.eval_file(&mut engine, b"internal.rb").unwrap_err().name(), "fatal");
    assert_eq!(engine.seen, vec![b"bad.rb".to_vec(), b"boom.rb".to_vec(), b"internal.rb".to_vec()]);
    assert!(interp.peek_context().unwrap().is_none());
}

#[test]
fn eval_file_turns_down_paths_that_name_no_context() {
    let (mut interp, mut engine) = interpreter();
    let error = interp.eval_file(&mut engine, b"nul\0.rb").unwrap_err();
    assert_eq!(error, Error::ArgumentError { message: b"path name contains null byte".to_vec() });
    let error = interp.eval_file(&mut engine, b"").unwrap_err();
    assert_eq!(error, Error::ArgumentError { message: b"path name is empty".to_vec() });
    assert!(interp.peek_context().unwrap().is_none());
}

#[test]
fn unreachable_values_are_fatal() {
    let (mut interp, mut engine) = interpreter();
    let error = interp.eval(&mut engine, b"internal").unwrap_err();
    assert_eq!(error, Error::Fatal { message: b"eval returned an unreachable Ruby value".to_vec() });
    assert_eq!(error.name(), "fatal");
    assert_eq!(eval_outcome(Ok(Value::Integer(4))), Ok(Value::Integer(4)));
    assert_eq!(
        eval_outcome(Err(Exception { name: "SyntaxError".to_string(), message: b"eof".to_vec() })),
        Err(Error::SyntaxError { message: b"eof".to_vec() })
    );
    assert_eq!(
        eval_outcome(Err(Exception { name: "TypeError".to_string(), message: b"no".to_vec() })),
        Err(Error::Exception { name: "TypeError".to_string(), message: b"no".to_vec() })
    );
}

#[test]
fn pop_on_an_empty_stack_is_fatal() {
    let (mut interp, _) = interpreter();
    let error = interp.pop_context().unwrap_err();
    assert_eq!(error, Error::Fatal { message: b"context stack underflow".to_vec() });
    assert_eq!(
        interp.finish_file(Ok(Value::Nil)),
        Err(Error::Fatal { message: b"context stack underflow".to_vec() })
    );
    assert!(interp.peek_context().unwrap().is_none());
}

#[test]
fn begin_and_finish_bracket_a_file() {
    let (mut interp, _) = interpreter();
    interp.def_rb_source_file(b"a.rb", b"15").unwrap();
    assert_eq!(interp.begin_file(b"a.rb"), Ok(b"15".to_vec()));
    assert_eq!(interp.current_file(), Ok(b"a.rb".to_vec()));
    assert_eq!(interp.finish_file(Err(Error::Uninitialized)), Err(Error::Uninitialized));
    assert_eq!(interp.current_file(), Ok(b"(eval)".to_vec()));
}

#[test]
fn closed_interpreter_reports_that_it_has_no_state() {
    let (mut interp, mut engine) = interpreter();
    interp.close();
    assert_eq!(interp.eval(&mut engine, b"15"), Err(Error::Uninitialized));
    assert_eq!(interp.eval_file(&mut engine, b"a.rb"), Err(Error::Uninitialized));
    assert_eq!(interp.load_source(&mut engine, b"a.rb"), Err(Error::Uninitialized));
    assert_eq!(interp.require_source(&mut engine, b"a.rb"), Err(Error::Uninitialized));
    assert_eq!(interp.require_plan(b"a.rb"), Err(Error::Uninitialized));
    assert_eq!(interp.complete_require(b"a.rb", b"a"), Err(Error::Uninitialized));
    assert_eq!(interp.source_to_load(b"a.rb", b"a"), Err(Error::Uninitialized));
    assert_eq!(interp.def_rb_source_file(b"a.rb", b"15"), Err(Error::Uninitialized));
    assert_eq!(interp.def_file_for_type(b"a.rb", ExtensionHook { id: 1 }), Err(Error::Uninitialized));
    assert_eq!(interp.resolve_source_path(b"a.rb"), Err(Error::Uninitialized));
    assert_eq!(interp.source_is_file(b"a.rb"), Err(Error::Uninitialized));
    assert_eq!(interp.current_file(), Err(Error::Uninitialized));
    assert_eq!(interp.pop_context(), Err(Error::Uninitialized));
    assert_eq!(interp.push_context(Context::new(b"a".to_vec()).unwrap()), Err(Error::Uninitialized));
    assert!(interp.peek_context().is_err());
    assert_eq!(Error::Uninitialized.name(), "fatal");
    assert_eq!(Error::Uninitialized.message(), b"interpreter is not initialized".to_vec());
    assert!(engine.evaluated.is_empty());
}

#[test]
fn finish_load_hands_errors_on() {
    assert_eq!(finish_load(Ok(Value::Nil)), Ok(Loaded::Success));
    assert_eq!(finish_load(Ok(Value::Integer(3))), Ok(Loaded::Success));
    let error = Error::SyntaxError { message: b"eof".to_vec() };
    assert_eq!(finish_load(Err(error.clone())), Err(error));
}

#[test]
fn finish_require_marks_only_after_a_value() {
    let (mut interp, _) = interpreter();
    interp.def_rb_source_file(b"a.rb", b"15").unwrap();
    let error = Error::Exception { name: "RuntimeError".to_string(), message: b"boom".to_vec() };
    assert_eq!(interp.finish_require(Err(error.clone()), b"a.rb", b"a"), Err(error));
    assert_eq!(interp.state.as_ref().unwrap().load_path_vfs.is_required(b"a.rb"), Some(false));
    assert_eq!(interp.finish_require(Ok(Value::Nil), b"a.rb", b"a"), Ok(Required::Success));
    assert_eq!(interp.state.as_ref().unwrap().load_path_vfs.is_required(b"a.rb"), Some(true));
    assert_eq!(
        interp.finish_require(Ok(Value::Nil), b"b.rb", b"b"),
        Err(Error::LoadError { message: b"cannot load such file -- b".to_vec() })
    );
}

#[test]
fn source_is_not_read_after_a_failed_hook() {
    let (mut interp, _) = interpreter();
    interp.def_rb_source_file(b"a.rb", b"15").unwrap();
    let error = Error::Exception { name: "NotImplementedError".to_string(), message: b"no".to_vec() };
    assert_eq!(interp.source_after_extension(Err(error.clone()), b"a.rb", b"a"), Err(error));
    assert_eq!(interp.source_after_extension(Ok(()), b"a.rb", b"a"), Ok(b"15".to_vec()));
    assert_eq!(
        interp.source_after_extension(Ok(()), b"a", b"a"),
        Err(Error::LoadError { message: b"cannot load such file -- a".to_vec() })
    );
}

#[test]
fn hook_error_ends_load_and_require() {
    let (mut interp, mut engine) = interpreter();
    interp.def_file_for_type(b"broken.rb", ExtensionHook { id: 13 }).unwrap();
    interp.def_rb_source_file(b"broken.rb", b"15").unwrap();
    assert_eq!(interp.load_source(&mut engine, b"broken.rb").unwrap_err().name(), "NotImplementedError");
    assert_eq!(interp.require_source(&mut engine, b"broken").unwrap_err().name(), "NotImplementedError");
    assert_eq!(engine.installed, vec![13, 13]);
    assert!(engine.evaluated.is_empty());
    assert_eq!(interp.state.as_ref().unwrap().load_path_vfs.is_required(b"broken.rb"), Some(false));
}

#[test]
fn engine_is_left_alone_where_nothing_is_evaluated() {
    let (mut interp, mut engine) = interpreter();
    interp.def_rb_source_file(b"counter.rb", NON_IDEMPOTENT_LOAD).unwrap();
    interp.require_source(&mut engine, b"counter").unwrap();
    assert_eq!(engine.evaluated.len(), 1);
    assert_eq!(interp.require_source(&mut engine, b"counter.rb"), Ok(Required::AlreadyRequired));
    assert!(interp.require_source(&mut engine, b"missing").is_err());
    assert!(interp.load_source(&mut engine, b"missing").is_err());
    assert!(interp.eval_file(&mut engine, b"missing.rb").is_err());
    assert!(interp.eval_file(&mut engine, b"nul\0.rb").is_err());
    assert_eq!(engine.evaluated.len(), 1);
    assert_eq!(engine.counter, Some(11));
    assert!(engine.installed.is_empty());
}

#[test]
fn load_passes_a_syntax_error_through() {
    let (mut interp, mut engine) = interpreter();
    interp.def_rb_source_file(b"bad.rb", b"'a").unwrap();
    let error = interp.load_source(&mut engine, b"bad.rb").unwrap_err();
    assert_eq!(error, Error::SyntaxError { message: b"syntax error".to_vec() });
}
