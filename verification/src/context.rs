//! Execution contexts: the file that running code belongs to, and the stack
//! of them that one interpreter keeps.

use vstd::prelude::*;
use vstd::string::StringSliceAdditionalSpecFns;

use crate::error::copy_str;
use crate::path::{copy_range, is_nul_free, nul_free};

verus! {

/// What `__FILE__` reads while no context is on the stack.
pub const TOP_FILENAME: &'static str = "(eval)";

/// `filename` can name a context: it is not empty and holds no NUL byte.
pub open spec fn valid_filename(filename: Seq<u8>) -> bool {
    filename.len() > 0 && nul_free(filename)
}

/// What `__FILE__` reads under `stack`: the filename on top, or
/// `TOP_FILENAME` where the stack is empty.
pub open spec fn current_file(stack: Seq<Seq<u8>>) -> Seq<u8> {
    if stack.len() > 0 {
        stack.last()
    } else {
        TOP_FILENAME.spec_bytes()
    }
}

/// The file that evaluated code belongs to.
#[derive(Debug, PartialEq, Eq)]
pub struct Context {
    filename: Vec<u8>,
}

impl Context {
    #[verifier::type_invariant]
    spec fn well_formed(self) -> bool {
        valid_filename(self.filename@)
    }

    /// The filename of the context.
    pub closed spec fn view(&self) -> Seq<u8> {
        self.filename@
    }

    /// The context of `filename`, unless `filename` is empty or holds a NUL
    /// byte.
    pub fn new(filename: Vec<u8>) -> (context: Option<Self>)
        ensures
            match context {
                Some(context) => valid_filename(filename@) && context@ == filename@,
                None => !valid_filename(filename@),
            },
    {
        if filename.len() == 0 || !is_nul_free(filename.as_slice()) {
            None
        } else {
            Some(Context { filename })
        }
    }

    /// The filename of the context.
    pub fn filename(&self) -> (filename: &[u8])
        ensures
            filename@ == self@,
            valid_filename(filename@),
    {
        proof {
            use_type_invariant(self);
        }
        self.filename.as_slice()
    }
}

impl Clone for Context {
    fn clone(&self) -> (copy: Self)
        ensures
            copy@ == self@,
    {
        proof {
            use_type_invariant(self);
        }
        let filename = copy_range(self.filename.as_slice(), 0, self.filename.len());
        assert(filename@ =~= self.filename@);
        Context { filename }
    }
}

/// The views of the contexts of `stack`.
pub open spec fn filenames(stack: Seq<Context>) -> Seq<Seq<u8>> {
    Seq::new(stack.len(), |i: int| stack[i]@)
}

/// The contexts of one interpreter, the innermost last.
pub struct ContextStack {
    stack: Vec<Context>,
}

impl ContextStack {
    /// The filenames of the contexts, the innermost last.
    pub closed spec fn view(&self) -> Seq<Seq<u8>> {
        filenames(self.stack@)
    }

    /// An empty stack.
    pub fn new() -> (stack: Self)
        ensures
            stack@ == Seq::<Seq<u8>>::empty(),
    {
        let stack = ContextStack { stack: Vec::new() };
        assert(stack@ =~= Seq::<Seq<u8>>::empty());
        stack
    }

    /// The number of contexts on the stack.
    pub fn len(&self) -> (len: usize)
        ensures
            len == self@.len(),
    {
        self.stack.len()
    }

    /// Puts `context` on top of the stack.
    pub fn push(&mut self, context: Context)
        ensures
            final(self)@ == old(self)@.push(context@),
    {
        self.stack.push(context);
        assert(self@ =~= old(self)@.push(context@));
    }

    /// Takes the innermost context off the stack. `None` tells that the
    /// stack was empty: a caller that popped more than it pushed.
    pub fn pop(&mut self) -> (context: Option<Context>)
        ensures
            match context {
                Some(context) => old(self)@.len() > 0 && context@ == old(self)@.last()
                    && final(self)@ == old(self)@.drop_last(),
                None => old(self)@.len() == 0 && final(self)@ == old(self)@,
            },
    {
        let context = self.stack.pop();
        assert(context is Some ==> self@ =~= old(self)@.drop_last());
        context
    }

    /// The innermost context, which stays on the stack.
    pub fn peek(&self) -> (context: Option<&Context>)
        ensures
            match context {
                Some(context) => self@.len() > 0 && context@ == self@.last(),
                None => self@.len() == 0,
            },
    {
        if self.stack.len() == 0 {
            None
        } else {
            Some(&self.stack[self.stack.len() - 1])
        }
    }

    /// What `__FILE__` reads under this stack.
    pub fn current_file(&self) -> (filename: Vec<u8>)
        ensures
            filename@ == current_file(self@),
    {
        match self.peek() {
            Some(context) => {
                let name = context.filename();
                let filename = copy_range(name, 0, name.len());
                assert(filename@ =~= name@);
                filename
            },
            None => copy_str(TOP_FILENAME),
        }
    }
}

/// Whatever is pushed on a stack is the current file until it is popped,
/// and popping it brings back the current file from before the push, at
/// every depth of nesting.
pub proof fn lemma_push_pop_restores(stack: Seq<Seq<u8>>, filename: Seq<u8>)
    ensures
        current_file(stack.push(filename)) == filename,
        stack.push(filename).drop_last() == stack,
        current_file(stack.push(filename).drop_last()) == current_file(stack),
{
    assert(stack.push(filename).drop_last() =~= stack);
}

/// Files that are evaluated one within the other each see their own name:
/// the inner one while it runs, the outer one again once the inner one is
/// left, and what was current before both once the outer one is left.
pub proof fn lemma_nested_files_restore(stack: Seq<Seq<u8>>, outer: Seq<u8>, inner: Seq<u8>)
    ensures
        current_file(stack.push(outer).push(inner)) == inner,
        current_file(stack.push(outer).push(inner).drop_last()) == outer,
        stack.push(outer).push(inner).drop_last().drop_last() == stack,
{
    assert(stack.push(outer).push(inner).drop_last() =~= stack.push(outer));
    assert(stack.push(outer).drop_last() =~= stack);
}

} // verus!
