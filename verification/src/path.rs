//! Paths of the file system, as sequences of components.

use crate::call::called;
use std::path::PathBuf;
use vstd::prelude::*;

verus! {

/// `std::path::PathBuf`, whose contents are spoken of through
/// [`path_components`] and [`path_text`] alone.
#[verifier::external_type_specification]
#[verifier::external_body]
pub struct ExPathBuf(std::path::PathBuf);

/// The components of a path in order, each as the text that
/// `std::path::Component::as_os_str` gives for it.
pub uninterp spec fn path_components(path: PathBuf) -> Seq<Seq<char>>;

/// The text of a path, where the path is valid Unicode.
pub uninterp spec fn path_text(path: PathBuf) -> Option<Seq<char>>;

/// The last position of a character in a text, or -1 where it does not occur.
pub open spec fn last_position(text: Seq<char>, c: char) -> int
    decreases text.len(),
{
    if text.len() == 0 {
        -1
    } else if text.last() == c {
        text.len() - 1
    } else {
        last_position(text.drop_last(), c)
    }
}

/// Whether a text is a relative path on every platform, with no separator but `/`.
pub open spec fn is_relative(part: Seq<char>) -> bool {
    &&& part.len() > 0 ==> part[0] != '/'
    &&& !part.contains('\\')
    &&& !part.contains(':')
}

/// The components that a relative path appends to another path: what stands
/// between separators, but for empty names and `.`.
pub open spec fn relative_components(part: Seq<char>) -> Seq<Seq<char>>
    decreases part.len(),
    via relative_components_decreases
{
    let separator = last_position(part, '/');
    let name = part.skip(separator + 1);
    let front = if separator >= 0 {
        relative_components(part.take(separator))
    } else {
        Seq::empty()
    };
    if name.len() == 0 || name == seq!['.'] {
        front
    } else {
        front.push(name)
    }
}

#[via_fn]
proof fn relative_components_decreases(part: Seq<char>) {
    lemma_last_position(part, '/');
}

/// Whether a text is the name of one entry of a directory on every platform:
/// not empty, neither `.` nor `..`, and free of the characters that separate
/// components or end a drive's name.
pub open spec fn is_plain_component(part: Seq<char>) -> bool {
    &&& part.len() > 0
    &&& part != seq!['.']
    &&& part != seq!['.', '.']
    &&& !part.contains('/')
    &&& !part.contains('\\')
    &&& !part.contains(':')
}

/// Whether a path keeps its components, on every platform, when others are
/// appended. That cannot be said of a path whose first component holds a
/// separator, unless it is the root `/`. On Windows one more component can make a
/// path that starts with two separators the name of a network share, as with
/// `\\server`, or of another device, as with `//./`, and after `\\?\` the
/// components `.` and `..` are resolved.
pub open spec fn is_extendable(components: Seq<Seq<char>>) -> bool {
    components.len() > 0 ==> !components[0].contains('\\') && (components[0].contains('/')
        ==> components[0] == seq!['/'])
}

/// Whether a relative path appends its components to a path, on every platform. A
/// `.` at the start of a path stays, and on Windows so does one that follows a
/// drive, as in `C:.`: where there may be no more than a drive to append to, the
/// relative path must not start with a dot.
pub open spec fn is_appendable(components: Seq<Seq<char>>, part: Seq<char>) -> bool {
    &&& is_relative(part)
    &&& is_extendable(components)
    &&& components.len() > 1 || part.len() == 0 || part[0] != '.'
}

/// The part of a file name that stays when its extension is replaced: what
/// stands before the last dot, or all of it where there is no dot but perhaps
/// one at the start.
pub open spec fn file_stem(name: Seq<char>) -> Seq<char> {
    if last_position(name, '.') > 0 {
        name.take(last_position(name, '.'))
    } else {
        name
    }
}

/// A file name with its extension replaced, or with one appended where it has none.
pub open spec fn with_extension(name: Seq<char>, extension: Seq<char>) -> Seq<char> {
    file_stem(name).push('.') + extension
}

/// Where the last position of a character is.
pub proof fn lemma_last_position(text: Seq<char>, c: char)
    ensures
        -1 <= last_position(text, c) < text.len(),
        last_position(text, c) >= 0 ==> text[last_position(text, c)] == c,
        forall|i: int| last_position(text, c) < i < text.len() ==> #[trigger] text[i] != c,
    decreases text.len(),
{
    if text.len() > 0 && text.last() != c {
        let front = text.drop_last();
        lemma_last_position(front, c);
        assert forall|i: int| last_position(text, c) < i < text.len() implies #[trigger] text[i]
            != c by {
            if i < front.len() {
                assert(front[i] != c);
            }
        }
    }
}

/// A position with nothing but other characters behind it is the last one.
proof fn lemma_last_position_is(text: Seq<char>, c: char, position: int)
    requires
        -1 <= position < text.len(),
        position >= 0 ==> text[position] == c,
        forall|i: int| position < i < text.len() ==> #[trigger] text[i] != c,
    ensures
        last_position(text, c) == position,
{
    lemma_last_position(text, c);
    let last = last_position(text, c);
    if last > position {
        assert(text[last] != c);
    }
    if last < position {
        assert(text[position] != c);
    }
}

/// A text without a separator appends itself, or nothing if it is empty or `.`.
pub proof fn law_relative_components_of_a_name(part: Seq<char>)
    requires
        !part.contains('/'),
    ensures
        part.len() == 0 || part == seq!['.'] ==> relative_components(part).len() == 0,
        part.len() > 0 && part != seq!['.'] ==> relative_components(part) == seq![part],
{
    lemma_last_position(part, '/');
    if last_position(part, '/') >= 0 {
        assert(part.contains(part[last_position(part, '/')]));
    }
    assert(part.skip(0) == part);
}

/// What stands before a separator and what stands behind it append their
/// components in turn.
pub proof fn law_relative_components_concatenate(a: Seq<char>, b: Seq<char>)
    ensures
        relative_components(a + seq!['/'] + b) == relative_components(a) + relative_components(b),
    decreases b.len(),
{
    let both = a + seq!['/'] + b;
    let inner = last_position(b, '/');
    lemma_last_position(b, '/');
    let outer = a.len() + 1 + inner;
    assert forall|i: int| outer < i < both.len() implies #[trigger] both[i] != '/' by {
        assert(both[i] == b[i - a.len() - 1]);
    }
    lemma_last_position_is(both, '/', outer);
    assert(both.skip(outer + 1) == b.skip(inner + 1));
    if inner >= 0 {
        assert(both.take(outer) == a + seq!['/'] + b.take(inner));
        law_relative_components_concatenate(a, b.take(inner));
    } else {
        assert(both.take(outer) == a);
    }
    assert(relative_components(both) == relative_components(a) + relative_components(b));
}

/// An extension takes the place of what stands behind the last dot of a name.
/// Where there is no dot but perhaps one at the start, it comes behind the name.
pub proof fn law_extension_is_replaced(stem: Seq<char>, rest: Seq<char>, extension: Seq<char>)
    requires
        !rest.contains('.'),
    ensures
        stem.len() > 0 ==> with_extension(stem + seq!['.'] + rest, extension) == stem + seq!['.']
            + extension,
        with_extension(seq!['.'] + rest, extension) == seq!['.'] + rest + seq!['.'] + extension,
        with_extension(rest, extension) == rest + seq!['.'] + extension,
{
    let name = stem + seq!['.'] + rest;
    assert forall|i: int| stem.len() < i < name.len() implies #[trigger] name[i] != '.' by {
        assert(name[i] == rest[i - stem.len() - 1]);
        assert(rest.contains(rest[i - stem.len() - 1]));
    }
    lemma_last_position_is(name, '.', stem.len() as int);
    assert(name.take(stem.len() as int) == stem);
    assert(stem.push('.') == stem + seq!['.']);

    let hidden = seq!['.'] + rest;
    assert forall|i: int| 0 < i < hidden.len() implies #[trigger] hidden[i] != '.' by {
        assert(hidden[i] == rest[i - 1]);
        assert(rest.contains(rest[i - 1]));
    }
    lemma_last_position_is(hidden, '.', 0);
    assert(hidden.push('.') == hidden + seq!['.']);

    lemma_file_stem_without_dot(rest);
    assert(rest.push('.') == rest + seq!['.']);
}

/// A path without a separator is one component.
pub proof fn lemma_single_component(part: Seq<char>)
    requires
        part.len() > 0,
        part != seq!['.'],
        !part.contains('/'),
    ensures
        relative_components(part) == seq![part],
{
    lemma_last_position(part, '/');
    if last_position(part, '/') >= 0 {
        assert(part.contains(part[last_position(part, '/')]));
    }
    assert(part.skip(0) == part);
}

/// A plain component is a relative path of one component.
pub proof fn lemma_plain_component_is_relative(part: Seq<char>)
    requires
        is_plain_component(part),
    ensures
        is_relative(part),
        relative_components(part) == seq![part],
{
    assert(part.contains(part[0]));
    lemma_single_component(part);
}

/// A relative path appends plain components and `..` only.
pub proof fn lemma_relative_components(part: Seq<char>)
    requires
        is_relative(part),
    ensures
        forall|i: int|
            0 <= i < relative_components(part).len() ==> is_plain_component(
                #[trigger] relative_components(part)[i],
            ) || relative_components(part)[i] == seq!['.', '.'],
    decreases part.len(),
{
    let separator = last_position(part, '/');
    let name = part.skip(separator + 1);
    lemma_last_position(part, '/');
    assert forall|i: int| 0 <= i < name.len() implies #[trigger] name[i] != '/' && name[i] != '\\'
        && name[i] != ':' by {
        assert(name[i] == part[separator + 1 + i]);
        assert(part.contains(part[separator + 1 + i]));
    }
    if separator >= 0 {
        let front = part.take(separator);
        assert(front.len() > 0 ==> front[0] == part[0]);
        assert forall|i: int| 0 <= i < front.len() implies #[trigger] front[i] != '\\' && front[i]
            != ':' by {
            assert(front[i] == part[i]);
            assert(part.contains(part[i]));
        }
        lemma_relative_components(front);
    }
    let components = relative_components(part);
    assert forall|i: int| 0 <= i < components.len() implies is_plain_component(
        #[trigger] components[i],
    ) || components[i] == seq!['.', '.'] by {
        if separator >= 0 && i < relative_components(part.take(separator)).len() {
            assert(components[i] == relative_components(part.take(separator))[i]);
        } else {
            assert(components[i] == name);
        }
    }
}

/// A file name without a dot keeps all of its text when an extension is set.
pub proof fn lemma_file_stem_without_dot(name: Seq<char>)
    requires
        !name.contains('.'),
    ensures
        file_stem(name) == name,
{
    lemma_last_position(name, '.');
    if last_position(name, '.') >= 0 {
        assert(name.contains(name[last_position(name, '.')]));
    }
}

/// Calls `std::path::Path::join`.
///
/// Claims that the components of an appendable `part` come after those of `base`.
/// Of any other `part` nothing is claimed: what comes out there differs from
/// platform to platform.
#[verifier::external_body]
fn join(base: &PathBuf, part: &str) -> (joined: PathBuf)
    ensures
        is_appendable(path_components(*base), part@) ==> path_components(joined)
            == path_components(*base) + relative_components(part@),
{
    base.join(part)
}

/// Whether a path is what `std::path::Path::join` gives for a path and a text on
/// the platform at hand.
pub closed spec fn is_joined(base: PathBuf, part: Seq<char>, joined: PathBuf) -> bool {
    exists|text: &str| #[trigger] call_ensures(join, (&base, text), joined) && text@ == part
}

/// A joined path is a result of the call on just that path and that text.
proof fn law_joined_is_a_result(base: PathBuf, part: Seq<char>, joined: PathBuf)
    ensures
        is_joined(base, part, joined) <==> exists|text: &str| #[trigger]
            call_ensures(join, (&base, text), joined) && text@ == part,
{
}

/// A path with a text appended to it.
pub(crate) fn joined(base: &PathBuf, part: &str) -> (joined: PathBuf)
    ensures
        is_joined(*base, part@, joined),
        is_appendable(path_components(*base), part@) ==> path_components(joined)
            == path_components(*base) + relative_components(part@),
{
    called(join, base, part)
}

/// Calls `std::path::PathBuf::set_extension`, which panics where the extension
/// holds a separator, and hands the path back.
///
/// Claims, of an extension that is not empty and a path that ends in a plain
/// component, that the extension of that last component is replaced, or appended
/// where it has none, and that the other components stay; and that a path that
/// ends in `..` stays as it is.
#[verifier::external_body]
fn set_extension(path: PathBuf, extension: &str) -> (changed: PathBuf)
    requires
        !extension@.contains('/'),
        !extension@.contains('\\'),
    ensures
        path_components(path).len() > 0 && is_plain_component(path_components(path).last())
            && extension@.len() > 0 ==> path_components(changed) == path_components(
            path,
        ).drop_last().push(with_extension(path_components(path).last(), extension@)),
        path_components(path).len() > 0 && path_components(path).last() == seq!['.', '.']
            ==> changed == path,
{
    let mut changed = path;
    changed.set_extension(extension);
    changed
}

/// Whether a path is what `std::path::PathBuf::set_extension` makes of a path and
/// an extension on the platform at hand.
pub closed spec fn is_extension_set(path: PathBuf, extension: Seq<char>, changed: PathBuf) -> bool {
    exists|text: &str| #[trigger]
        call_ensures(set_extension, (path, text), changed) && text@ == extension
}

/// A path whose extension is set is a result of the call on just that path and
/// that extension.
proof fn law_extension_set_is_a_result(path: PathBuf, extension: Seq<char>, changed: PathBuf)
    ensures
        is_extension_set(path, extension, changed) <==> exists|text: &str| #[trigger]
            call_ensures(set_extension, (path, text), changed) && text@ == extension,
{
}

/// A path with its extension set.
pub(crate) fn extension_set(path: PathBuf, extension: &str) -> (changed: PathBuf)
    requires
        !extension@.contains('/'),
        !extension@.contains('\\'),
    ensures
        is_extension_set(path, extension@, changed),
        path_components(path).len() > 0 && is_plain_component(path_components(path).last())
            && extension@.len() > 0 ==> path_components(changed) == path_components(
            path,
        ).drop_last().push(with_extension(path_components(path).last(), extension@)),
        path_components(path).len() > 0 && path_components(path).last() == seq!['.', '.']
            ==> changed == path,
{
    called(set_extension, path, extension)
}

/// Calls `std::path::Path::to_str`.
///
/// Claims that the result is the text of the path, or nothing where the path is
/// not valid Unicode.
#[verifier::external_body]
pub(crate) fn to_text(path: &PathBuf) -> (text: Option<String>)
    ensures
        text is Some <==> path_text(*path) is Some,
        text is Some ==> text->0@ == path_text(*path)->0,
{
    path.to_str().map(String::from)
}

} // verus!
