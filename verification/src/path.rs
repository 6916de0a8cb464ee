//! Unix paths held as text.
use crate::text;
use vstd::prelude::*;

verus! {

/// Whether `path` starts at the root directory.
pub open spec fn is_absolute(path: Seq<char>) -> bool {
    path.len() > 0 && path[0] == '/'
}

/// `component` seen from the directory `base`: an absolute component stands for itself, another
/// one follows `base` after exactly one separator (none after an empty base).
pub open spec fn joined(base: Seq<char>, component: Seq<char>) -> Seq<char> {
    if is_absolute(component) || base.len() == 0 {
        component
    } else if base.last() == '/' {
        base + component
    } else {
        base.push('/') + component
    }
}

/// `component` seen from the directory `base`.
pub fn join(base: &str, component: &str) -> (path: String)
    ensures
        path@ == joined(base@, component@),
{
    let c: usize = component.unicode_len();
    let b: usize = base.unicode_len();
    if b == 0 || (c > 0 && component.get_char(0) == '/') {
        return component.to_string();
    }
    let mut path = base.to_string();
    if base.get_char(b - 1) != '/' {
        path.push('/');
    }
    path.append(component);
    path
}

/// A file to be written, and what to write to it.
#[derive(Clone, Debug, PartialEq, Eq)]
pub struct FileWrite {
    pub path: String,
    pub contents: String,
}

/// What the file system answers: what was asked for, that there is nothing at the path, or an error.
#[derive(Debug)]
pub enum FileAnswer<T, E> {
    Done(T),
    Missing,
    Failed(E),
}

/// What a file holds; nothing at the path is no error.
pub fn if_present<T, E>(answer: FileAnswer<T, E>) -> (r: Result<Option<T>, E>)
    ensures
        r == (match answer {
            FileAnswer::Done(value) => Ok::<Option<T>, E>(Some(value)),
            FileAnswer::Missing => Ok::<Option<T>, E>(None),
            FileAnswer::Failed(e) => Err::<Option<T>, E>(e),
        }),
{
    match answer {
        FileAnswer::Done(value) => Ok(Some(value)),
        FileAnswer::Missing => Ok(None),
        FileAnswer::Failed(e) => Err(e),
    }
}

/// Whether something was removed; nothing at the path is no error.
pub open spec fn removed<E>(answer: FileAnswer<(), E>) -> Result<bool, E> {
    match answer {
        FileAnswer::Done(_) => Ok(true),
        FileAnswer::Missing => Ok(false),
        FileAnswer::Failed(e) => Err(e),
    }
}

/// Whether something was removed; nothing at the path is no error.
pub fn removal<E>(answer: FileAnswer<(), E>) -> (r: Result<bool, E>)
    ensures
        r == removed(answer),
{
    match answer {
        FileAnswer::Done(_) => Ok(true),
        FileAnswer::Missing => Ok(false),
        FileAnswer::Failed(e) => Err(e),
    }
}

/// A plain name: not empty, and without a separator.
pub open spec fn is_plain_name(name: Seq<char>) -> bool {
    name.len() > 0 && !name.contains('/')
}

/// A plain name lands under the base it is joined to.
pub proof fn lemma_joined_stays_below(base: Seq<char>, name: Seq<char>)
    requires
        is_plain_name(name),
    ensures
        text::has_prefix(joined(base, name), base),
        text::has_suffix(joined(base, name), name),
{
    assert(name.contains(name[0]));
    let path = joined(base, name);
    assert(path.take(base.len() as int) =~= base);
    assert(path.skip(path.len() - name.len()) =~= name);
}

/// Two plain names give two different paths below one base.
pub proof fn lemma_joined_is_injective(base: Seq<char>, a: Seq<char>, b: Seq<char>)
    requires
        is_plain_name(a),
        is_plain_name(b),
        joined(base, a) == joined(base, b),
    ensures
        a == b,
{
    assert(a.contains(a[0]) && b.contains(b[0]));
    let pa = joined(base, a);
    let pb = joined(base, b);
    assert(pa.skip(pa.len() - a.len()) =~= a);
    assert(pb.skip(pb.len() - b.len()) =~= b);
}

/// An absolute path stands for itself wherever it is seen from; a relative one stands below the
/// directory, after one separator, whether or not the directory is written with one at its end.
pub proof fn law_relative_paths_stand_below(dir: Seq<char>, component: Seq<char>)
    ensures
        joined(dir, seq!['/'] + component) == seq!['/'] + component,
        dir.len() > 0 && dir.last() != '/' && (component.len() == 0 || component[0] != '/')
            ==> joined(dir, component) == dir + seq!['/'] + component && joined(
            dir.push('/'),
            component,
        ) == dir + seq!['/'] + component,
        joined(seq!['/'], component) == (if component.len() > 0 && component[0] == '/' {
            component
        } else {
            seq!['/'] + component
        }),
        joined(seq![], component) == component,
{
    assert((seq!['/'] + component)[0] == '/');
    assert(dir.push('/') + component =~= dir + seq!['/'] + component);
}

/// What is not there is neither read nor removed, and neither is an error; every other failure is.
pub proof fn law_missing_is_no_error<T, E>(
    read: FileAnswer<T, E>,
    contents: Result<Option<T>, E>,
    answer: FileAnswer<(), E>,
    r: Result<bool, E>,
)
    requires
        call_ensures(if_present::<T, E>, (read,), contents),
        call_ensures(removal::<E>, (answer,), r),
    ensures
        contents is Err <==> read is Failed,
        contents matches Ok(None) <==> read is Missing,
        contents matches Ok(Some(value)) ==> read == FileAnswer::<T, E>::Done(value),
        contents matches Err(e) ==> read == FileAnswer::<T, E>::Failed(e),
        r is Err <==> answer is Failed,
        r matches Ok(true) <==> answer is Done,
        r matches Ok(false) <==> answer is Missing,
        r matches Err(e) ==> answer == FileAnswer::<(), E>::Failed(e),
{
}

} // verus!
