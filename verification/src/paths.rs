//! Remote paths: splitting, joining, climbing and completing them.
use vstd::prelude::*;

use crate::text::{chars_of, text_of};

verus! {

/// The root directory.
pub open spec fn root() -> Seq<char> {
    seq!['/']
}

/// The position of the last slash in `path`, or -1 if there is none.
pub open spec fn last_slash(path: Seq<char>) -> int
    decreases path.len(),
{
    if path.len() == 0 {
        -1
    } else if path.last() == '/' {
        path.len() - 1
    } else {
        last_slash(path.drop_last())
    }
}

/// `path` without the slashes at its end.
pub open spec fn trimmed(path: Seq<char>) -> Seq<char>
    decreases path.len(),
{
    if path.len() > 0 && path.last() == '/' {
        trimmed(path.drop_last())
    } else {
        path
    }
}

/// The directory to list and the name prefix to look for, for the text typed in goto mode.
pub open spec fn goto_parts(input: Seq<char>, current_path: Seq<char>) -> (Seq<char>, Seq<char>) {
    let pos = last_slash(input);
    if pos < 0 {
        (current_path, input)
    } else if pos == 0 {
        (root(), input.skip(1))
    } else {
        (input.take(pos), input.skip(pos + 1))
    }
}

/// The path of the entry `name` in the directory `dir`.
pub open spec fn child(dir: Seq<char>, name: Seq<char>) -> Seq<char> {
    trimmed(dir) + root() + name
}

/// The directory above `path`; the root is its own parent.
pub open spec fn parent(path: Seq<char>) -> Seq<char> {
    let kept = trimmed(path);
    let pos = last_slash(kept);
    if pos <= 0 {
        root()
    } else {
        kept.take(pos)
    }
}

/// The goto text that names the entry `name` of `dir`. A directory gets a slash at its end.
pub open spec fn completion(dir: Seq<char>, name: Seq<char>, is_dir: bool) -> Seq<char> {
    let start = if dir.len() > 0 && dir.last() == '/' {
        dir
    } else {
        dir.push('/')
    };
    if is_dir {
        (start + name).push('/')
    } else {
        start + name
    }
}

/// Whether `name` can be the name of one entry of a directory.
pub open spec fn is_plain_name(name: Seq<char>) -> bool {
    name.len() > 0 && !name.contains('/')
}

/// `last_slash` finds a slash that no other slash follows, and misses none.
pub proof fn lemma_last_slash(path: Seq<char>)
    ensures
        -1 <= last_slash(path) < path.len(),
        last_slash(path) >= 0 ==> path[last_slash(path)] == '/',
        forall|i: int| last_slash(path) < i < path.len() ==> path[i] != '/',
    decreases path.len(),
{
    if path.len() > 0 && path.last() != '/' {
        let rest = path.drop_last();
        lemma_last_slash(rest);
        assert forall|i: int| last_slash(path) < i < path.len() implies path[i] != '/' by {
            if i < rest.len() {
                assert(rest[i] == path[i]);
            }
        }
    }
}

/// A slash that no other slash follows is the one `last_slash` finds.
pub proof fn lemma_last_slash_is(path: Seq<char>, pos: int)
    requires
        -1 <= pos < path.len(),
        pos >= 0 ==> path[pos] == '/',
        forall|i: int| pos < i < path.len() ==> path[i] != '/',
    ensures
        last_slash(path) == pos,
{
    lemma_last_slash(path);
}

/// What is trimmed off a path is slashes, and all of them.
pub proof fn lemma_trimmed(path: Seq<char>)
    ensures
        trimmed(path).len() <= path.len(),
        trimmed(path) == path.take(trimmed(path).len() as int),
        forall|i: int| trimmed(path).len() <= i < path.len() ==> path[i] == '/',
        trimmed(path).len() > 0 ==> trimmed(path).last() != '/',
    decreases path.len(),
{
    if path.len() > 0 && path.last() == '/' {
        let rest = path.drop_last();
        lemma_trimmed(rest);
        assert forall|i: int| trimmed(path).len() <= i < path.len() implies path[i] == '/' by {
            if i < rest.len() {
                assert(rest[i] == path[i]);
            }
        }
        assert(trimmed(path) =~= path.take(trimmed(path).len() as int));
    } else {
        assert(path.take(path.len() as int) =~= path);
    }
}

/// The position of the last slash in `chars[..end]`.
fn find_last_slash(chars: &Vec<char>, end: usize) -> (found: Option<usize>)
    requires
        end <= chars@.len(),
    ensures
        match found {
            Some(pos) => pos < end && chars@[pos as int] == '/' && last_slash(
                chars@.take(end as int),
            ) == pos,
            None => last_slash(chars@.take(end as int)) == -1,
        },
{
    let ghost path = chars@.take(end as int);
    let mut i: usize = end;
    while i > 0
        invariant
            i <= end <= chars@.len(),
            path == chars@.take(end as int),
            forall|j: int| i <= j < end ==> path[j] != '/',
        decreases i,
    {
        if chars[i - 1] == '/' {
            proof {
                lemma_last_slash_is(path, i - 1);
            }
            return Some(i - 1);
        }
        i = i - 1;
    }
    proof {
        lemma_last_slash_is(path, -1);
    }
    None
}

/// The length of `chars` without the slashes at its end.
fn trimmed_len(chars: &Vec<char>) -> (len: usize)
    ensures
        len <= chars@.len(),
        chars@.take(len as int) == trimmed(chars@),
{
    let mut len: usize = chars.len();
    assert(chars@.take(len as int) =~= chars@);
    while len > 0 && chars[len - 1] == '/'
        invariant
            len <= chars@.len(),
            trimmed(chars@.take(len as int)) == trimmed(chars@),
        decreases len,
    {
        assert(chars@.take(len as int).drop_last() =~= chars@.take(len - 1));
        len = len - 1;
    }
    len
}

/// Split a goto input into (directory to list, name prefix).
///
/// - `/var/lo`  gives (`/var`, `lo`)
/// - `/etc/`    gives (`/etc`, ``)
/// - `/`        gives (`/`, ``)
/// - `lo`       gives (`<current_path>`, `lo`)
pub fn split_goto_input<'a>(input: &'a str, current_path: &'a str) -> (parts: (String, String))
    ensures
        (parts.0@, parts.1@) == goto_parts(input@, current_path@),
{
    let chars = chars_of(input);
    let len: usize = chars.len();
    assert(chars@.take(len as int) =~= input@);
    match find_last_slash(&chars, len) {
        Some(pos) => {
            let dir = if pos == 0 {
                text_of(&chars, 0, 1)
            } else {
                text_of(&chars, 0, pos)
            };
            let prefix = text_of(&chars, pos + 1, len);
            proof {
                assert(pos == 0 ==> dir@ =~= root());
                assert(pos > 0 ==> dir@ =~= input@.take(pos as int));
                assert(prefix@ =~= input@.skip(pos + 1));
            }
            (dir, prefix)
        },
        None => (current_path.to_owned(), input.to_owned()),
    }
}

/// The path of the entry `name` in the directory `dir`.
pub fn child_path(dir: &str, name: &str) -> (path: String)
    ensures
        path@ == child(dir@, name@),
{
    let chars = chars_of(dir);
    let kept = trimmed_len(&chars);
    let mut path = text_of(&chars, 0, kept);
    path.push('/');
    path.append(name);
    proof {
        assert(chars@.subrange(0, kept as int) =~= chars@.take(kept as int));
        assert(path@ =~= child(dir@, name@));
    }
    path
}

/// The directory above `path`.
pub fn parent_path(path: &str) -> (above: String)
    ensures
        above@ == parent(path@),
{
    let chars = chars_of(path);
    let kept = trimmed_len(&chars);
    match find_last_slash(&chars, kept) {
        Some(pos) if pos > 0 => {
            proof {
                assert(chars@.subrange(0, pos as int) =~= trimmed(path@).take(pos as int));
            }
            text_of(&chars, 0, pos)
        },
        _ => {
            let mut above = String::new();
            above.push('/');
            assert(above@ =~= root());
            above
        },
    }
}

/// The goto text that names the entry `name` of `dir`.
pub fn completed_path(dir: &str, name: &str, is_dir: bool) -> (completed: String)
    ensures
        completed@ == completion(dir@, name@, is_dir),
{
    let chars = chars_of(dir);
    let mut completed = dir.to_owned();
    if chars.len() == 0 || chars[chars.len() - 1] != '/' {
        completed.push('/');
    }
    completed.append(name);
    if is_dir {
        completed.push('/');
    }
    completed
}

/// Splitting a goto input loses nothing: an input without a slash is all prefix, and any other
/// is the directory, a slash and the prefix put together again. The prefix never holds a slash.
pub proof fn law_split_loses_nothing(input: Seq<char>, current_path: Seq<char>)
    ensures
        ({
            let (dir, prefix) = goto_parts(input, current_path);
            &&& !prefix.contains('/')
            &&& !input.contains('/') ==> dir == current_path && prefix == input
            &&& input.contains('/') ==> (dir == root() && input == dir + prefix) || input == dir
                + root() + prefix
        }),
{
    lemma_last_slash(input);
    let pos = last_slash(input);
    let (dir, prefix) = goto_parts(input, current_path);
    if pos >= 0 {
        assert(input.contains(input[pos]));
        if pos == 0 {
            assert(input =~= dir + prefix);
        } else {
            assert(input =~= dir + root() + prefix);
        }
    }
}

/// Going up from an entry just entered leads back to the directory it was entered from.
pub proof fn law_up_undoes_enter(dir: Seq<char>, name: Seq<char>)
    requires
        is_plain_name(name),
    ensures
        parent(child(dir, name)) == if trimmed(dir).len() == 0 {
            root()
        } else {
            trimmed(dir)
        },
{
    let above = trimmed(dir);
    let path = child(dir, name);
    assert(path.last() == name.last());
    assert(name.contains(name.last()));
    assert(trimmed(path) == path);
    assert forall|i: int| above.len() < i < path.len() implies path[i] != '/' by {
        assert(path[i] == name[i - above.len() - 1]);
        assert(name.contains(name[i - above.len() - 1]));
    }
    lemma_last_slash_is(path, above.len() as int);
    assert(path.take(above.len() as int) =~= above);
}

/// Climbing ends at the root: each step up shortens the path or arrives there, and the root is
/// its own parent.
pub proof fn law_climbing_ends_at_root(path: Seq<char>)
    ensures
        parent(path) == root() || parent(path).len() < path.len(),
        parent(root()) == root(),
{
    lemma_trimmed(path);
    lemma_last_slash(trimmed(path));
    lemma_trimmed(root());
    lemma_last_slash(trimmed(root()));
}

/// Completing an input and splitting the result names the same directory again, up to one slash
/// at its end, and the whole name as the prefix.
pub proof fn law_completion_splits_into_its_parts(
    dir: Seq<char>,
    name: Seq<char>,
    current_path: Seq<char>,
)
    requires
        !name.contains('/'),
    ensures
        goto_parts(completion(dir, name, false), current_path) == (
            if dir.len() == 0 || dir == root() {
                root()
            } else if dir.last() == '/' {
                dir.drop_last()
            } else {
                dir
            },
            name,
        ),
{
    let start = if dir.len() > 0 && dir.last() == '/' {
        dir
    } else {
        dir.push('/')
    };
    let completed = completion(dir, name, false);
    let pos = start.len() - 1;
    assert forall|i: int| pos < i < completed.len() implies completed[i] != '/' by {
        assert(completed[i] == name[i - start.len()]);
        assert(name.contains(name[i - start.len()]));
    }
    lemma_last_slash_is(completed, pos);
    assert(completed.skip(pos + 1) =~= name);
    if dir.len() > 0 && dir.last() == '/' {
        if pos == 0 {
            assert(dir =~= root());
        } else {
            assert(completed.take(pos) =~= dir.drop_last());
        }
    } else {
        assert(completed.take(pos) =~= dir);
    }
}

/// A completed directory is what is listed next, with no prefix to look for.
pub proof fn law_completed_directory_is_listed(
    dir: Seq<char>,
    name: Seq<char>,
    current_path: Seq<char>,
)
    ensures
        goto_parts(completion(dir, name, true), current_path) == (
            completion(dir, name, false),
            Seq::<char>::empty(),
        ),
{
    let inner = completion(dir, name, false);
    let completed = completion(dir, name, true);
    assert(completed == inner.push('/'));
    lemma_last_slash_is(completed, inner.len() as int);
    assert(completed.take(inner.len() as int) =~= inner);
    assert(completed.skip(inner.len() as int + 1) =~= Seq::<char>::empty());
}

/// The path of an entry ends with a slash and the entry's whole name. What stands before is the
/// directory without the slashes at its end.
pub proof fn law_child_path_ends_with_the_name(dir: Seq<char>, name: Seq<char>)
    ensures
        ({
            let path = child(dir, name);
            let kept = path.len() - name.len() - 1;
            &&& 0 <= kept <= dir.len()
            &&& path.skip(kept + 1) == name
            &&& path[kept] == '/'
            &&& path.take(kept) == dir.take(kept)
            &&& forall|i: int| kept <= i < dir.len() ==> dir[i] == '/'
            &&& kept > 0 ==> dir[kept - 1] != '/'
        }),
{
    lemma_trimmed(dir);
    let path = child(dir, name);
    let kept = trimmed(dir).len() as int;
    assert(path.skip(kept + 1) =~= name);
    assert(path.take(kept) =~= dir.take(kept));
}

/// Trimming keeps a start of the path that ends in no slash, and drops slashes only.
pub proof fn law_trimming_drops_the_slashes_at_the_end(path: Seq<char>, slashes: Seq<char>)
    requires
        path.len() > 0 ==> path.last() != '/',
        forall|i: int| 0 <= i < slashes.len() ==> slashes[i] == '/',
    ensures
        trimmed(path + slashes) == path,
{
    let whole = path + slashes;
    let kept = trimmed(whole).len() as int;
    lemma_trimmed(whole);
    if kept < path.len() {
        assert(whole[path.len() - 1] == '/');
    }
    if kept > path.len() {
        assert(whole[kept - 1] == slashes[kept - 1 - path.len()]);
        assert(trimmed(whole).last() == whole[kept - 1]);
    }
    assert(trimmed(whole) =~= path);
}

/// Above `above/name` is `above`, or the root if nothing stands before that slash, and above a path
/// with no slash but at its end is the root. Slashes at the end make no difference.
pub proof fn law_parent_drops_the_last_name(above: Seq<char>, name: Seq<char>, slashes: Seq<char>)
    requires
        name.len() > 0,
        !name.contains('/'),
        forall|i: int| 0 <= i < slashes.len() ==> slashes[i] == '/',
    ensures
        parent(above.push('/') + name + slashes) == if above.len() == 0 {
            seq!['/']
        } else {
            above
        },
        parent(name + slashes) == seq!['/'],
        parent(slashes) == seq!['/'],
{
    let path = above.push('/') + name;
    assert(name.contains(name.last()));
    assert(path.last() == name.last());
    law_trimming_drops_the_slashes_at_the_end(path, slashes);
    law_trimming_drops_the_slashes_at_the_end(name, slashes);
    law_trimming_drops_the_slashes_at_the_end(Seq::empty(), slashes);
    assert(Seq::<char>::empty() + slashes =~= slashes);
    assert forall|i: int| above.len() < i < path.len() implies path[i] != '/' by {
        assert(path[i] == name[i - above.len() - 1]);
        assert(name.contains(name[i - above.len() - 1]));
    }
    lemma_last_slash_is(path, above.len() as int);
    assert(path.take(above.len() as int) =~= above);
    assert forall|i: int| -1 < i < name.len() implies name[i] != '/' by {
        assert(name.contains(name[i]));
    }
    lemma_last_slash_is(name, -1);
}

/// A goto input without a slash is looked for in the current directory. Any other is split at its
/// last slash: the prefix is all that follows it, and the directory all that stands before it, or
/// the root if nothing does.
pub proof fn law_split_is_at_the_last_slash(input: Seq<char>, current_path: Seq<char>)
    ensures
        ({
            let (dir, prefix) = goto_parts(input, current_path);
            let pos = input.len() - prefix.len() - 1;
            if input.contains('/') {
                &&& 0 <= pos
                &&& input[pos] == '/'
                &&& input.skip(pos + 1) == prefix
                &&& !prefix.contains('/')
                &&& dir == if pos == 0 {
                    seq!['/']
                } else {
                    input.take(pos)
                }
            } else {
                dir == current_path && prefix == input
            }
        }),
{
    law_split_loses_nothing(input, current_path);
    lemma_last_slash(input);
}

/// A completed input is the directory, a slash if the directory does not end in one, the whole
/// name, and one more slash for a directory.
pub proof fn law_completion_holds_directory_and_name(
    dir: Seq<char>,
    name: Seq<char>,
    is_dir: bool,
)
    ensures
        ({
            let completed = completion(dir, name, is_dir);
            let end = if is_dir {
                completed.len() - 1
            } else {
                completed.len() as int
            };
            let start = end - name.len();
            &&& start == if dir.len() > 0 && dir.last() == '/' {
                dir.len()
            } else {
                dir.len() + 1
            }
            &&& completed.take(dir.len() as int) == dir
            &&& completed[start - 1] == '/'
            &&& completed.subrange(start, end) == name
            &&& is_dir ==> completed.last() == '/'
        }),
{
    let completed = completion(dir, name, is_dir);
    let end = if is_dir {
        completed.len() - 1
    } else {
        completed.len() as int
    };
    assert(completed.take(dir.len() as int) =~= dir);
    assert(completed.subrange(end - name.len(), end) =~= name);
}

} // verus!
