//! Dotted field paths: a path is a sequence of field names separated by
//! dots, the first name addressing a field of the model itself and the rest
//! a path inside that field's nested model.

use vstd::prelude::*;
use vstd::string::{StrSliceExecFns, StringExecFns};
use crate::text::chars_of;

verus! {

/// The position of the first dot of `path`, or its length if it has none.
pub open spec fn first_dot(path: Seq<char>) -> int
    decreases path.len(),
{
    if path.len() == 0 {
        0
    } else if path[0] == '.' {
        0
    } else {
        1 + first_dot(path.drop_first())
    }
}

/// The first name of `path`: everything before its first dot.
pub open spec fn head(path: Seq<char>) -> Seq<char> {
    path.take(first_dot(path))
}

/// What follows the first name of `path`: everything after its first dot,
/// or nothing if the path is a single name.
pub open spec fn tail(path: Seq<char>) -> Option<Seq<char>> {
    if first_dot(path) < path.len() {
        Some(path.skip(first_dot(path) + 1))
    } else {
        None
    }
}

/// The path of `inner` inside the field `name`.
pub open spec fn join(name: Seq<char>, inner: Seq<char>) -> Seq<char> {
    name + seq!['.'] + inner
}

/// Whether `name` can be a single field name: it holds no dot.
pub open spec fn is_name(name: Seq<char>) -> bool {
    forall|i: int| 0 <= i < name.len() ==> #[trigger] name[i] != '.'
}

/// The first dot lies within the path or at its end, no dot comes before it,
/// and if it lies within the path there is a dot at it.
pub proof fn lemma_first_dot(path: Seq<char>)
    ensures
        0 <= first_dot(path) <= path.len(),
        forall|i: int| 0 <= i < first_dot(path) ==> #[trigger] path[i] != '.',
        first_dot(path) < path.len() ==> path[first_dot(path)] == '.',
        is_name(head(path)),
    decreases path.len(),
{
    if path.len() == 0 {
    } else if path[0] == '.' {
    } else {
        let rest = path.drop_first();
        lemma_first_dot(rest);
        assert forall|i: int| 0 <= i < first_dot(path) implies #[trigger] path[i] != '.' by {
            if i > 0 {
                assert(path[i] == rest[i - 1]);
            }
        }
    }
}

/// The first dot is the only position with these properties.
pub proof fn lemma_first_dot_is(path: Seq<char>, at: int)
    requires
        0 <= at <= path.len(),
        forall|i: int| 0 <= i < at ==> #[trigger] path[i] != '.',
        at < path.len() ==> path[at] == '.',
    ensures
        first_dot(path) == at,
{
    lemma_first_dot(path);
    let found = first_dot(path);
    if found < at {
        assert(path[found] != '.');
    } else if at < found {
        assert(path[at] != '.');
    }
}

/// A path is its first name alone, or its first name, a dot and the rest.
pub proof fn lemma_split(path: Seq<char>)
    ensures
        match tail(path) {
            Some(rest) => path == join(head(path), rest),
            None => path == head(path),
        },
{
    lemma_first_dot(path);
    match tail(path) {
        Some(rest) => {
            assert(path =~= join(head(path), rest));
        },
        None => {
            assert(path =~= head(path));
        },
    }
}

/// Splitting undoes joining: a joined path splits into the name and the
/// inner path, and a single name splits into itself and nothing.
pub proof fn law_split_join(name: Seq<char>, inner: Seq<char>)
    requires
        is_name(name),
    ensures
        head(join(name, inner)) == name,
        tail(join(name, inner)) == Some(inner),
        head(name) == name,
        tail(name) is None,
{
    let path = join(name, inner);
    assert forall|i: int| 0 <= i < name.len() implies #[trigger] path[i] != '.' by {
        assert(path[i] == name[i]);
    }
    assert(path[name.len() as int] == '.');
    lemma_first_dot_is(path, name.len() as int);
    assert(path.take(name.len() as int) =~= name);
    assert(path.skip(name.len() as int + 1) =~= inner);
    lemma_first_dot_is(name, name.len() as int);
    assert(name.take(name.len() as int) =~= name);
}

/// Splits `path` at its first dot into the first name and the rest.
pub fn split_first<'a>(path: &'a str) -> (parts: (&'a str, Option<&'a str>))
    ensures
        parts.0@ == head(path@),
        match parts.1 {
            Some(rest) => tail(path@) == Some(rest@),
            None => tail(path@) is None,
        },
{
    let chars = chars_of(path);
    let n = chars.len();
    let mut i: usize = 0;
    while i < n && chars[i] != '.'
        invariant
            i <= n,
            n == chars@.len(),
            chars@ == path@,
            forall|j: int| 0 <= j < i ==> #[trigger] path@[j] != '.',
        decreases n - i,
    {
        i = i + 1;
    }
    proof {
        lemma_first_dot_is(path@, i as int);
    }
    let first = path.substring_char(0, i);
    if i < n {
        (first, Some(path.substring_char(i + 1, n)))
    } else {
        (first, None)
    }
}

/// The path of `inner` inside the field `name`.
pub fn join_path(name: &str, inner: &str) -> (path: String)
    ensures
        path@ == join(name@, inner@),
{
    proof {
        reveal_strlit(".");
        assert("."@ =~= seq!['.']);
    }
    String::from_str(name).concat(".").concat(inner)
}

/// Whether `name` holds no dot.
pub fn check_name(name: &str) -> (ok: bool)
    ensures
        ok == is_name(name@),
{
    let chars = chars_of(name);
    let mut i: usize = 0;
    while i < chars.len()
        invariant
            i <= chars@.len(),
            chars@ == name@,
            forall|j: int| 0 <= j < i ==> #[trigger] name@[j] != '.',
        decreases chars@.len() - i,
    {
        if chars[i] == '.' {
            return false;
        }
        i = i + 1;
    }
    true
}

} // verus!
