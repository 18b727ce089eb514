use artichoke_backend::context::{Context, ContextStack};

#[test]
fn context_needs_a_filename_without_nul() {
    assert!(Context::new(Vec::new()).is_none());
    assert!(Context::new(b"a\0b".to_vec()).is_none());
    assert!(Context::new(b"\0".to_vec()).is_none());
    let context = Context::new(b"lib/\xffa.rb".to_vec()).unwrap();
    assert_eq!(context.filename(), b"lib/\xffa.rb");
    assert_eq!(context.clone(), context);
}

#[test]
fn empty_stack_reads_the_top_filename() {
    let mut stack = ContextStack::new();
    assert_eq!(stack.len(), 0);
    assert!(stack.peek().is_none());
    assert_eq!(stack.current_file(), b"(eval)".to_vec());
    assert!(stack.pop().is_none());
    assert_eq!(stack.len(), 0);
}

#[test]
fn stack_is_last_in_first_out() {
    let mut stack = ContextStack::new();
    stack.push(Context::new(b"a.rb".to_vec()).unwrap());
    stack.push(Context::new(b"b.rb".to_vec()).unwrap());
    assert_eq!(stack.len(), 2);
    assert_eq!(stack.current_file(), b"b.rb".to_vec());
    assert_eq!(stack.peek().unwrap().filename(), b"b.rb");
    assert_eq!(stack.len(), 2);
    assert_eq!(stack.pop().unwrap().filename(), b"b.rb");
    assert_eq!(stack.current_file(), b"a.rb".to_vec());
    stack.push(Context::new(b"c.rb".to_vec()).unwrap());
    assert_eq!(stack.current_file(), b"c.rb".to_vec());
    assert_eq!(stack.pop().unwrap().filename(), b"c.rb");
    assert_eq!(stack.pop().unwrap().filename(), b"a.rb");
    assert_eq!(stack.current_file(), b"(eval)".to_vec());
}
