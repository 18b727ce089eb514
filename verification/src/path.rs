//! Paths of the virtual file system, as byte strings.
//!
//! A path is any sequence of bytes; `/` separates its segments. The file
//! system keys its entries by the normal form of a path: the path is anchored
//! at the load root unless it is absolute, and then its empty, `.` and `..`
//! segments are resolved. File names and extensions are read off the path as
//! written, before it is normalized.

use vstd::prelude::*;
use vstd::string::StringSliceAdditionalSpecFns;

verus! {

/// The byte `/`, which separates the segments of a path.
pub const SEPARATOR: u8 = 47;

/// The byte `.`.
pub const DOT: u8 = 46;

/// The directory that relative paths are anchored at.
pub const LOAD_ROOT: &'static str = "/artichoke/virtual_root/src/lib";

/// The extension of a Ruby source file, without its dot.
pub const RUBY_EXTENSION: &'static str = "rb";

/// No byte of `path` is NUL.
pub open spec fn nul_free(path: Seq<u8>) -> bool {
    forall|i: int| 0 <= i < path.len() ==> path[i] != 0u8
}

/// `path` starts at the root.
pub open spec fn absolute(path: Seq<u8>) -> bool {
    path.len() > 0 && path[0] == SEPARATOR
}

/// `path` itself where it is absolute, and `path` below the load root where
/// it is relative.
pub open spec fn anchored(path: Seq<u8>) -> Seq<u8> {
    if absolute(path) {
        path
    } else {
        LOAD_ROOT.spec_bytes() + seq![SEPARATOR] + path
    }
}

/// The index of the first separator of `path` at or after `from`, or the
/// length of `path` where there is none.
pub open spec fn segment_end(path: Seq<u8>, from: int) -> int
    decreases path.len() - from,
{
    if from < 0 || from >= path.len() || path[from] == SEPARATOR {
        from
    } else {
        segment_end(path, from + 1)
    }
}

/// The directory stack after one more segment: an empty segment and `.` stay
/// where they are, `..` leaves the innermost directory (the root is its own
/// parent), and any other segment is entered.
pub open spec fn enter(stack: Seq<Seq<u8>>, segment: Seq<u8>) -> Seq<Seq<u8>> {
    if segment.len() == 0 || segment == seq![DOT] {
        stack
    } else if segment == seq![DOT, DOT] {
        if stack.len() > 0 {
            stack.drop_last()
        } else {
            stack
        }
    } else {
        stack.push(segment)
    }
}

/// The directory stack after the segments of `path` that start at or after
/// `from` were taken in turn, starting from `stack`.
pub open spec fn walk(path: Seq<u8>, from: int, stack: Seq<Seq<u8>>) -> Seq<Seq<u8>>
    decreases path.len() - from,
{
    if from < 0 || from > path.len() {
        stack
    } else {
        let end = segment_end(path, from);
        let next = enter(stack, path.subrange(from, end));
        if from <= end < path.len() {
            walk(path, end + 1, next)
        } else {
            next
        }
    }
}

/// Every segment of `stack` in order, each behind a separator.
pub open spec fn joined(stack: Seq<Seq<u8>>) -> Seq<u8>
    decreases stack.len(),
{
    if stack.len() == 0 {
        Seq::empty()
    } else {
        joined(stack.drop_last()) + seq![SEPARATOR] + stack.last()
    }
}

/// The normal form of `path`: absolute, without empty, `.` or `..` segments.
/// Two spellings name the same file exactly when their normal forms are equal.
pub open spec fn normalized(path: Seq<u8>) -> Seq<u8> {
    let stack = walk(anchored(path), 0, Seq::empty());
    if stack.len() == 0 {
        seq![SEPARATOR]
    } else {
        joined(stack)
    }
}

/// The byte of `path` at `at` is a separator, or a `.` that is a segment of
/// its own as far as what stands before it shows.
pub open spec fn trails(path: Seq<u8>, at: int) -> bool {
    path[at] == SEPARATOR || (path[at] == DOT && (at == 0 || path[at - 1] == SEPARATOR))
}

/// The length of `path` without the separators and lone `.` segments at its
/// end.
pub open spec fn trimmed_len(path: Seq<u8>) -> int
    decreases path.len(),
{
    if path.len() == 0 {
        0
    } else if trails(path, path.len() - 1) {
        trimmed_len(path.drop_last())
    } else {
        path.len() as int
    }
}

/// The index at which the segment of `path` that ends at `end` starts.
pub open spec fn segment_start(path: Seq<u8>, end: int) -> int
    decreases end,
{
    if end <= 0 || end > path.len() || path[end - 1] == SEPARATOR {
        end
    } else {
        segment_start(path, end - 1)
    }
}

/// The last segment of `path`, trailing separators and `.` segments aside,
/// unless there is none or it is `..`.
pub open spec fn file_name(path: Seq<u8>) -> Option<Seq<u8>> {
    let end = trimmed_len(path);
    let name = path.subrange(segment_start(path, end), end);
    if end == 0 || name == seq![DOT, DOT] {
        None
    } else {
        Some(name)
    }
}

/// The index of the last dot of `name`, or -1 where it has none.
pub open spec fn last_dot(name: Seq<u8>) -> int
    decreases name.len(),
{
    if name.len() == 0 {
        -1
    } else if name.last() == DOT {
        name.len() - 1
    } else {
        last_dot(name.drop_last())
    }
}

/// The length of the stem of `name`: what stands before its last dot, or all
/// of it where it has no dot but a leading one.
pub open spec fn stem_len(name: Seq<u8>) -> int {
    if last_dot(name) > 0 {
        last_dot(name)
    } else {
        name.len() as int
    }
}

/// What follows the last dot of the file name of `path`. A path without a
/// file name has no extension, nor has a file name whose only dot leads it.
pub open spec fn extension(path: Seq<u8>) -> Option<Seq<u8>> {
    match file_name(path) {
        Some(name) => if last_dot(name) > 0 {
            Some(name.skip(last_dot(name) + 1))
        } else {
            None
        },
        None => None,
    }
}

/// The extension of `path` is that of a Ruby source file.
pub open spec fn ruby_extended(path: Seq<u8>) -> bool {
    extension(path) == Some(RUBY_EXTENSION.spec_bytes())
}

/// `path` with the extension of its file name replaced by that of a Ruby
/// source file, or added where it has none. What follows the file name is
/// dropped. A path without a file name stays as it is.
pub open spec fn ruby_completed(path: Seq<u8>) -> Seq<u8> {
    match file_name(path) {
        Some(name) => path.take(trimmed_len(path) - name.len() + stem_len(name)) + seq![DOT]
            + RUBY_EXTENSION.spec_bytes(),
        None => path,
    }
}

/// The views of the byte strings of `stack`.
pub open spec fn views(stack: Seq<Vec<u8>>) -> Seq<Seq<u8>> {
    Seq::new(stack.len(), |i: int| stack[i]@)
}

proof fn lemma_segment_end(path: Seq<u8>, from: int, end: int)
    requires
        0 <= from <= end <= path.len(),
        forall|k: int| from <= k < end ==> path[k] != SEPARATOR,
        end == path.len() || path[end] == SEPARATOR,
    ensures
        segment_end(path, from) == end,
    decreases end - from,
{
    if from < end {
        lemma_segment_end(path, from + 1, end);
    }
}

proof fn lemma_trimmed_len_bounds(path: Seq<u8>)
    ensures
        0 <= trimmed_len(path) <= path.len(),
    decreases path.len(),
{
    if path.len() > 0 {
        lemma_trimmed_len_bounds(path.drop_last());
    }
}

proof fn lemma_trimmed_len_prefix(path: Seq<u8>, end: int)
    requires
        0 <= end <= path.len(),
        forall|k: int| end <= k < path.len() ==> #[trigger] trails(path, k),
    ensures
        trimmed_len(path) == trimmed_len(path.take(end)),
    decreases path.len() - end,
{
    if end < path.len() {
        let shorter = path.drop_last();
        assert(shorter.take(end) == path.take(end));
        assert(trails(path, path.len() - 1));
        assert forall|k: int| end <= k < shorter.len() implies #[trigger] trails(shorter, k) by {
            assert(trails(path, k));
        }
        lemma_trimmed_len_prefix(shorter, end);
    } else {
        assert(path.take(end) == path);
    }
}

proof fn lemma_segment_start(path: Seq<u8>, start: int, end: int)
    requires
        0 <= start <= end <= path.len(),
        forall|k: int| start <= k < end ==> path[k] != SEPARATOR,
        start == 0 || path[start - 1] == SEPARATOR,
    ensures
        segment_start(path, end) == start,
    decreases end - start,
{
    if start < end {
        lemma_segment_start(path, start, end - 1);
    }
}

proof fn lemma_last_dot_found(name: Seq<u8>, dot: int)
    requires
        0 <= dot < name.len(),
        name[dot] == DOT,
        forall|k: int| dot < k < name.len() ==> name[k] != DOT,
    ensures
        last_dot(name) == dot,
    decreases name.len() - dot,
{
    if dot < name.len() - 1 {
        lemma_last_dot_found(name.drop_last(), dot);
    }
}

proof fn lemma_last_dot_absent(name: Seq<u8>)
    requires
        forall|k: int| 0 <= k < name.len() ==> name[k] != DOT,
    ensures
        last_dot(name) == -1,
    decreases name.len(),
{
    if name.len() > 0 {
        lemma_last_dot_absent(name.drop_last());
    }
}

/// Whether two byte strings are equal.
pub fn bytes_eq(left: &[u8], right: &[u8]) -> (equal: bool)
    ensures
        equal == (left@ == right@),
{
    if left.len() != right.len() {
        return false;
    }
    let mut i: usize = 0;
    while i < left.len()
        invariant
            i <= left.len(),
            left.len() == right.len(),
            forall|k: int| 0 <= k < i ==> left[k] == right[k],
        decreases left.len() - i,
    {
        if left[i] != right[i] {
            return false;
        }
        i += 1;
    }
    assert(left@ =~= right@);
    true
}

/// An owned copy of the bytes of `path` from `start` up to `end`.
pub fn copy_range(path: &[u8], start: usize, end: usize) -> (bytes: Vec<u8>)
    requires
        start <= end <= path.len(),
    ensures
        bytes@ == path@.subrange(start as int, end as int),
{
    let mut bytes: Vec<u8> = Vec::new();
    let mut i: usize = start;
    while i < end
        invariant
            start <= i <= end <= path.len(),
            bytes@ == path@.subrange(start as int, i as int),
        decreases end - i,
    {
        bytes.push(path[i]);
        i += 1;
        assert(bytes@ =~= path@.subrange(start as int, i as int));
    }
    bytes
}

/// Whether `path` is free of NUL bytes.
pub fn is_nul_free(path: &[u8]) -> (free: bool)
    ensures
        free == nul_free(path@),
{
    let mut i: usize = 0;
    while i < path.len()
        invariant
            i <= path.len(),
            forall|k: int| 0 <= k < i ==> path[k] != 0u8,
        decreases path.len() - i,
    {
        if path[i] == 0 {
            return false;
        }
        i += 1;
    }
    true
}

fn anchor(path: &[u8]) -> (full: Vec<u8>)
    ensures
        full@ == anchored(path@),
{
    let mut full: Vec<u8> = Vec::new();
    if !(path.len() > 0 && path[0] == SEPARATOR) {
        full.extend_from_slice(LOAD_ROOT.as_bytes());
        full.push(SEPARATOR);
    }
    full.extend_from_slice(path);
    assert(full@ =~= anchored(path@));
    full
}

fn enter_segment(stack: &mut Vec<Vec<u8>>, path: &[u8], start: usize, end: usize)
    requires
        start <= end <= path.len(),
    ensures
        views(final(stack)@) == enter(views(old(stack)@), path@.subrange(start as int, end as int)),
{
    let ghost segment = path@.subrange(start as int, end as int);
    let len = end - start;
    if len == 0 || (len == 1 && path[start] == DOT) {
        assert(len == 1 ==> segment =~= seq![DOT]);
    } else if len == 2 && path[start] == DOT && path[start + 1] == DOT {
        assert(segment =~= seq![DOT, DOT]);
        stack.pop();
        assert(views(stack@) =~= enter(views(old(stack)@), segment));
    } else {
        assert(segment != seq![DOT]) by {
            if segment == seq![DOT] {
                assert(segment.len() == 1);
                assert(segment[0] == DOT);
            }
        }
        assert(segment != seq![DOT, DOT]) by {
            if segment == seq![DOT, DOT] {
                assert(segment.len() == 2);
                assert(segment[0] == DOT && segment[1] == DOT);
            }
        }
        let owned = copy_range(path, start, end);
        stack.push(owned);
        assert(views(stack@) =~= enter(views(old(stack)@), segment));
    }
}

fn join(stack: &Vec<Vec<u8>>) -> (path: Vec<u8>)
    ensures
        path@ == joined(views(stack@)),
{
    let mut path: Vec<u8> = Vec::new();
    let mut i: usize = 0;
    while i < stack.len()
        invariant
            i <= stack.len(),
            path@ == joined(views(stack@).take(i as int)),
        decreases stack.len() - i,
    {
        path.push(SEPARATOR);
        path.extend_from_slice(stack[i].as_slice());
        i += 1;
        proof {
            let done = views(stack@).take(i as int);
            assert(done.drop_last() =~= views(stack@).take(i - 1));
            assert(done.last() == stack@[i - 1]@);
            assert(path@ =~= joined(done.drop_last()) + seq![SEPARATOR] + done.last());
        }
    }
    assert(views(stack@).take(i as int) =~= views(stack@));
    path
}

/// The normal form of `path`, by which the file system keys its entries.
pub fn normalize(path: &[u8]) -> (key: Vec<u8>)
    ensures
        key@ == normalized(path@),
{
    let full = anchor(path);
    let mut stack: Vec<Vec<u8>> = Vec::new();
    let mut start: usize = 0;
    let mut i: usize = 0;
    assert(views(stack@) =~= Seq::<Seq<u8>>::empty());
    while i < full.len()
        invariant
            start <= i <= full.len(),
            forall|k: int| start <= k < i ==> full[k] != SEPARATOR,
            walk(full@, 0, Seq::empty()) == walk(full@, start as int, views(stack@)),
        decreases full.len() - i,
    {
        if full[i] == SEPARATOR {
            proof {
                lemma_segment_end(full@, start as int, i as int);
            }
            enter_segment(&mut stack, full.as_slice(), start, i);
            start = i + 1;
        }
        i += 1;
    }
    proof {
        lemma_segment_end(full@, start as int, i as int);
    }
    enter_segment(&mut stack, full.as_slice(), start, i);
    if stack.len() == 0 {
        let mut key: Vec<u8> = Vec::new();
        key.push(SEPARATOR);
        assert(key@ =~= seq![SEPARATOR]);
        key
    } else {
        join(&stack)
    }
}

/// The end of what is left of `path` without the separators and lone `.`
/// segments at its end.
fn trim(path: &[u8]) -> (end: usize)
    ensures
        end == trimmed_len(path@),
        end <= path.len(),
{
    let mut end: usize = path.len();
    while end > 0 && (path[end - 1] == SEPARATOR || (path[end - 1] == DOT && (end == 1 || path[end
        - 2] == SEPARATOR)))
        invariant
            end <= path.len(),
            forall|k: int| end <= k < path.len() ==> #[trigger] trails(path@, k),
        decreases end,
    {
        end -= 1;
        assert(trails(path@, end as int));
    }
    proof {
        lemma_trimmed_len_prefix(path@, end as int);
        let rest = path@.take(end as int);
        if end > 0 {
            assert(!trails(rest, end - 1));
        }
    }
    end
}

/// Where the segment of `path` that ends at `end` starts.
fn start_of_segment(path: &[u8], end: usize) -> (start: usize)
    requires
        end <= path.len(),
    ensures
        start == segment_start(path@, end as int),
        start <= end,
{
    let mut start: usize = end;
    while start > 0 && path[start - 1] != SEPARATOR
        invariant
            start <= end <= path.len(),
            forall|k: int| start <= k < end ==> path[k] != SEPARATOR,
        decreases start,
    {
        start -= 1;
    }
    proof {
        lemma_segment_start(path@, start as int, end as int);
    }
    start
}

/// The bounds of the file name of `path`, where it has one.
fn file_name_bounds(path: &[u8]) -> (bounds: Option<(usize, usize)>)
    ensures
        match bounds {
            Some((start, end)) => start < end <= path.len() && end == trimmed_len(path@)
                && file_name(path@) == Some(path@.subrange(start as int, end as int)),
            None => file_name(path@) is None,
        },
{
    let end = trim(path);
    if end == 0 {
        return None;
    }
    let start = start_of_segment(path, end);
    let ghost name = path@.subrange(start as int, end as int);
    proof {
        lemma_trimmed_len_prefix_nonempty(path@);
    }
    if end - start == 2 && path[start] == DOT && path[start + 1] == DOT {
        assert(name =~= seq![DOT, DOT]);
        return None;
    }
    assert(name != seq![DOT, DOT]) by {
        if name == seq![DOT, DOT] {
            assert(name.len() == 2);
            assert(name[0] == DOT && name[1] == DOT);
        }
    }
    Some((start, end))
}

proof fn lemma_trimmed_len_prefix_nonempty(path: Seq<u8>)
    ensures
        trimmed_len(path) > 0 ==> path[trimmed_len(path) - 1] != SEPARATOR && segment_start(
            path,
            trimmed_len(path),
        ) < trimmed_len(path),
    decreases path.len(),
{
    lemma_trimmed_len_bounds(path);
    if path.len() > 0 {
        if trails(path, path.len() - 1) {
            let shorter = path.drop_last();
            lemma_trimmed_len_prefix_nonempty(shorter);
            lemma_trimmed_len_bounds(shorter);
            lemma_segment_start_prefix(path, shorter, trimmed_len(shorter));
        } else {
            lemma_segment_start_bounds(path, path.len() - 1);
        }
    }
}

proof fn lemma_segment_start_bounds(path: Seq<u8>, end: int)
    requires
        0 <= end,
    ensures
        0 <= segment_start(path, end) <= end,
    decreases end,
{
    if !(end <= 0 || end > path.len() || path[end - 1] == SEPARATOR) {
        lemma_segment_start_bounds(path, end - 1);
    }
}

proof fn lemma_segment_start_prefix(path: Seq<u8>, prefix: Seq<u8>, end: int)
    requires
        0 <= end <= prefix.len() <= path.len(),
        forall|k: int| 0 <= k < prefix.len() ==> prefix[k] == path[k],
    ensures
        segment_start(prefix, end) == segment_start(path, end),
    decreases end,
{
    if end > 0 && path[end - 1] != SEPARATOR {
        lemma_segment_start_prefix(path, prefix, end - 1);
    }
}

/// The index of the last dot of `path` between `start` and `end`, where it
/// has one there.
fn find_last_dot(path: &[u8], start: usize, end: usize) -> (dot: Option<usize>)
    requires
        start <= end <= path.len(),
    ensures
        match dot {
            Some(at) => start <= at < end && last_dot(path@.subrange(start as int, end as int))
                == at - start,
            None => last_dot(path@.subrange(start as int, end as int)) == -1,
        },
{
    let ghost name = path@.subrange(start as int, end as int);
    let mut at: usize = end;
    while at > start
        invariant
            start <= at <= end <= path.len(),
            name == path@.subrange(start as int, end as int),
            forall|k: int| at - start <= k < name.len() ==> name[k] != DOT,
        decreases at,
    {
        at -= 1;
        if path[at] == DOT {
            proof {
                lemma_last_dot_found(name, at - start);
            }
            return Some(at);
        }
    }
    proof {
        lemma_last_dot_absent(name);
    }
    None
}

/// Whether the extension of `path` is that of a Ruby source file.
pub fn has_ruby_extension(path: &[u8]) -> (extended: bool)
    ensures
        extended == ruby_extended(path@),
{
    match file_name_bounds(path) {
        None => false,
        Some((start, end)) => {
            let ghost name = path@.subrange(start as int, end as int);
            match find_last_dot(path, start, end) {
                None => false,
                Some(dot) => {
                    if dot == start {
                        false
                    } else {
                        let found = copy_range(path, dot + 1, end);
                        assert(found@ =~= name.skip(last_dot(name) + 1));
                        bytes_eq(found.as_slice(), RUBY_EXTENSION.as_bytes())
                    }
                },
            }
        },
    }
}

/// `path` with the extension of a Ruby source file in place of its own, or
/// added where it has none; `path` itself where it has no file name.
pub fn with_ruby_extension(path: &[u8]) -> (completed: Vec<u8>)
    ensures
        completed@ == ruby_completed(path@),
{
    match file_name_bounds(path) {
        None => copy_range(path, 0, path.len()),
        Some((start, end)) => {
            let ghost name = path@.subrange(start as int, end as int);
            let stem_end = match find_last_dot(path, start, end) {
                None => end,
                Some(dot) => if dot == start {
                    end
                } else {
                    dot
                },
            };
            assert(stem_end == trimmed_len(path@) - name.len() + stem_len(name));
            let mut completed = copy_range(path, 0, stem_end);
            completed.push(DOT);
            completed.extend_from_slice(RUBY_EXTENSION.as_bytes());
            assert(completed@ =~= ruby_completed(path@));
            completed
        },
    }
}

} // verus!
