//! File paths as text, with `/` between their components.
use crate::text::{from_chars, opt_text, owned, to_chars};
use vstd::prelude::*;

verus! {

/// The path without separators and `.` components at its end. A lone `/` stays.
pub open spec fn trim_tail(path: Seq<char>) -> Seq<char>
    decreases path.len(),
{
    let n = path.len() as int;
    if n >= 2 && path[n - 1] == '/' {
        trim_tail(path.drop_last())
    } else if n >= 2 && path[n - 1] == '.' && path[n - 2] == '/' {
        trim_tail(path.drop_last())
    } else {
        path
    }
}

/// Where the last component of a path begins: behind the last `/`, or at the start.
pub open spec fn name_start(path: Seq<char>) -> int
    decreases path.len(),
{
    if path.len() == 0 || path.last() == '/' {
        path.len() as int
    } else {
        name_start(path.drop_last())
    }
}

/// The last component of the path, where that is the name of a file or directory: not
/// where the path ends in `..` or has no component but the root or `.`.
pub open spec fn file_name(path: Seq<char>) -> Option<Seq<char>> {
    let body = trim_tail(path);
    let name = body.skip(name_start(body));
    if name.len() == 0 || name == seq!['.'] || name == seq!['.', '.'] {
        None
    } else {
        Some(name)
    }
}

/// The position of the last `.` in `name`, or -1.
pub open spec fn last_dot(name: Seq<char>) -> int
    decreases name.len(),
{
    if name.len() == 0 {
        -1
    } else if name.last() == '.' {
        name.len() - 1
    } else {
        last_dot(name.drop_last())
    }
}

/// How many characters of a file name stand before its extension: all of them where there
/// is no `.` but a leading one.
pub open spec fn stem_len(name: Seq<char>) -> int {
    if last_dot(name) <= 0 {
        name.len() as int
    } else {
        last_dot(name)
    }
}

/// The file name without its extension.
pub open spec fn file_stem(path: Seq<char>) -> Option<Seq<char>> {
    match file_name(path) {
        Some(name) => Some(name.take(stem_len(name))),
        None => None,
    }
}

pub open spec fn is_absolute(path: Seq<char>) -> bool {
    path.len() > 0 && path.first() == '/'
}

/// `tail` below `base`; an absolute `tail` stands alone.
pub open spec fn joined(base: Seq<char>, tail: Seq<char>) -> Seq<char> {
    if is_absolute(tail) {
        tail
    } else if base.len() == 0 || base.last() == '/' {
        base + tail
    } else {
        base.push('/') + tail
    }
}

/// The path with `name` in place of its file name, or below it where it has none.
pub open spec fn with_file_name(path: Seq<char>, name: Seq<char>) -> Seq<char> {
    let body = trim_tail(path);
    match file_name(path) {
        Some(_) => joined(trim_tail(body.take(name_start(body))), name),
        None => joined(path, name),
    }
}

/// The path with `extension` in place of its file name's extension, or behind a file name
/// that has none. A path without a file name stays as it is.
pub open spec fn with_extension(path: Seq<char>, extension: Seq<char>) -> Seq<char> {
    let body = trim_tail(path);
    match file_name(path) {
        Some(name) => body.take(name_start(body) + stem_len(name)).push('.') + extension,
        None => path,
    }
}

/// How many characters of `chars[..len]` the path keeps without what stands behind its last
/// component.
fn tail_trimmed(chars: &Vec<char>, len: usize) -> (kept: usize)
    requires
        len <= chars@.len(),
    ensures
        kept <= len,
        trim_tail(chars@.take(len as int)) == chars@.take(kept as int),
{
    let mut kept: usize = len;
    while kept >= 2 && (chars[kept - 1] == '/' || (chars[kept - 1] == '.' && chars[kept - 2] == '/'))
        invariant
            kept <= len <= chars@.len(),
            trim_tail(chars@.take(len as int)) == trim_tail(chars@.take(kept as int)),
        decreases kept,
    {
        proof {
            assert(chars@.take(kept as int).drop_last() == chars@.take(kept - 1));
        }
        kept -= 1;
    }
    kept
}

/// Where the last component of `chars[..len]` begins.
fn component_start(chars: &Vec<char>, len: usize) -> (start: usize)
    requires
        len <= chars@.len(),
    ensures
        start <= len,
        start == name_start(chars@.take(len as int)),
{
    let mut start: usize = len;
    while start > 0 && chars[start - 1] != '/'
        invariant
            start <= len <= chars@.len(),
            name_start(chars@.take(len as int)) == name_start(chars@.take(start as int)),
        decreases start,
    {
        proof {
            assert(chars@.take(start as int).drop_last() == chars@.take(start - 1));
        }
        start -= 1;
    }
    start
}

/// How many characters the stem of the file name `chars[from..to]` has.
fn stem_length(chars: &Vec<char>, from: usize, to: usize) -> (len: usize)
    requires
        from <= to <= chars@.len(),
    ensures
        len == stem_len(chars@.subrange(from as int, to as int)),
        len <= to - from,
{
    let ghost name = chars@.subrange(from as int, to as int);
    let mut end: usize = to;
    proof {
        assert(name.take(name.len() as int) == name);
    }
    while end > from && chars[end - 1] != '.'
        invariant
            from <= end <= to <= chars@.len(),
            name == chars@.subrange(from as int, to as int),
            last_dot(name) == last_dot(name.take(end - from)),
        decreases end,
    {
        proof {
            let rest = name.take(end - from);
            assert(rest.last() == chars@[end - 1]);
            assert(rest.drop_last() == name.take(end - from - 1));
        }
        end -= 1;
    }
    proof {
        let rest = name.take(end - from);
        if end > from {
            assert(rest.last() == chars@[end - 1]);
        }
    }
    if end - from <= 1 {
        to - from
    } else {
        end - 1 - from
    }
}

/// The bounds of a path's file name in the path's characters, where it has one.
fn file_name_range(chars: &Vec<char>) -> (range: Option<(usize, usize)>)
    ensures
        match range {
            Some((from, to)) => {
                &&& from <= to <= chars@.len()
                &&& trim_tail(chars@) == chars@.take(to as int)
                &&& from == name_start(trim_tail(chars@))
                &&& file_name(chars@) == Some(chars@.subrange(from as int, to as int))
            },
            None => file_name(chars@) is None,
        },
{
    proof {
        assert(chars@.take(chars@.len() as int) == chars@);
    }
    let to: usize = tail_trimmed(chars, chars.len());
    let from: usize = component_start(chars, to);
    let ghost name = chars@.subrange(from as int, to as int);
    proof {
        assert(trim_tail(chars@).skip(from as int) == name);
    }
    if from == to {
        return None;
    }
    if to - from == 1 && chars[from] == '.' {
        proof {
            assert(name == seq!['.']);
        }
        return None;
    }
    if to - from == 2 && chars[from] == '.' && chars[from + 1] == '.' {
        proof {
            assert(name == seq!['.', '.']);
        }
        return None;
    }
    proof {
        assert(name[0] == chars@[from as int]);
        if to - from == 2 {
            assert(name[1] == chars@[from + 1]);
        }
    }
    Some((from, to))
}

pub fn path_is_absolute(path: &str) -> (absolute: bool)
    ensures
        absolute == is_absolute(path@),
{
    let chars: Vec<char> = to_chars(path);
    chars.len() > 0 && chars[0] == '/'
}

pub fn path_file_stem(path: &str) -> (stem: Option<String>)
    ensures
        opt_text(stem) == file_stem(path@),
{
    let chars: Vec<char> = to_chars(path);
    match file_name_range(&chars) {
        Some((from, to)) => {
            let len: usize = stem_length(&chars, from, to);
            proof {
                let name = chars@.subrange(from as int, to as int);
                assert(name.take(len as int) == chars@.subrange(from as int, from + len));
            }
            Some(from_chars(&chars, from, from + len))
        },
        None => None,
    }
}

pub fn join_path(base: &str, tail: &str) -> (path: String)
    ensures
        path@ == joined(base@, tail@),
{
    if path_is_absolute(tail) {
        return owned(tail);
    }
    let chars: Vec<char> = to_chars(base);
    let mut path: String = owned(base);
    if chars.len() > 0 && chars[chars.len() - 1] != '/' {
        path.push('/');
    }
    path.append(tail);
    path
}

pub fn path_with_file_name(path: &str, name: &str) -> (changed: String)
    ensures
        changed@ == with_file_name(path@, name@),
{
    let chars: Vec<char> = to_chars(path);
    match file_name_range(&chars) {
        Some((from, to)) => {
            let kept: usize = tail_trimmed(&chars, from);
            proof {
                assert(chars@.take(to as int).take(from as int) == chars@.take(from as int));
                assert(chars@.subrange(0, kept as int) == chars@.take(kept as int));
            }
            join_path(from_chars(&chars, 0, kept).as_str(), name)
        },
        None => join_path(path, name),
    }
}

pub fn path_with_extension(path: &str, extension: &str) -> (changed: String)
    ensures
        changed@ == with_extension(path@, extension@),
{
    let chars: Vec<char> = to_chars(path);
    match file_name_range(&chars) {
        Some((from, to)) => {
            let len: usize = stem_length(&chars, from, to);
            let mut changed: String = from_chars(&chars, 0, from + len);
            proof {
                assert(chars@.take(to as int).take(from + len) == chars@.subrange(0, from + len));
            }
            changed.push('.');
            changed.append(extension);
            changed
        },
        None => owned(path),
    }
}

// ---------------------------------------------------------------------------------------
// Facts
// ---------------------------------------------------------------------------------------

proof fn lemma_name_start(head: Seq<char>, name: Seq<char>)
    requires
        head.len() == 0 || head.last() == '/',
        !name.contains('/'),
    ensures
        name_start(head + name) == head.len(),
    decreases name.len(),
{
    if name.len() == 0 {
        assert(head + name == head);
        if head.len() == 0 {
            assert(name_start(head) == 0);
        }
    } else {
        assert(name[name.len() - 1] != '/');
        assert((head + name).last() == name.last());
        assert((head + name).drop_last() == head + name.drop_last());
        assert forall|ch: char| name.drop_last().contains(ch) implies name.contains(ch) by {
            let i = choose|i: int| 0 <= i < name.drop_last().len() && name.drop_last()[i] == ch;
            assert(name[i] == ch);
        }
        lemma_name_start(head, name.drop_last());
    }
}

pub proof fn lemma_last_dot(front: Seq<char>, back: Seq<char>)
    requires
        !back.contains('.'),
    ensures
        last_dot(front.push('.') + back) == front.len(),
    decreases back.len(),
{
    let name = front.push('.') + back;
    if back.len() == 0 {
        assert(name == front.push('.'));
    } else {
        assert(back[back.len() - 1] != '.');
        assert(name.drop_last() == front.push('.') + back.drop_last());
        assert forall|ch: char| back.drop_last().contains(ch) implies back.contains(ch) by {
            let i = choose|i: int| 0 <= i < back.drop_last().len() && back.drop_last()[i] == ch;
            assert(back[i] == ch);
        }
        lemma_last_dot(front, back.drop_last());
    }
}

/// A plain file name below a directory is that path's file name, and what stands before it
/// does not depend on the name.
pub proof fn joined_file_name(base: Seq<char>, name: Seq<char>)
    requires
        name.len() > 0,
        !name.contains('/'),
        name.last() != '.',
    ensures
        trim_tail(joined(base, name)) == joined(base, name),
        joined(base, name) == joined(base, Seq::empty()) + name,
        name_start(joined(base, name)) == joined(base, Seq::empty()).len(),
        file_name(joined(base, name)) == Some(name),
{
    let empty = Seq::<char>::empty();
    let head = joined(base, empty);
    assert(name[0] != '/');
    assert(name[name.len() - 1] != '/');
    assert(joined(base, name) == head + name) by {
        if base.len() == 0 || base.last() == '/' {
            assert(base + empty == base);
        } else {
            assert(base.push('/') + empty == base.push('/'));
        }
    }
    assert((head + name)[head.len() + name.len() - 1] == name.last());
    lemma_name_start(head, name);
    assert((head + name).skip(head.len() as int) == name);
}

/// Changing the extension of a file below a directory changes what stands behind the file
/// name's last `.`.
pub proof fn joined_with_extension(
    base: Seq<char>,
    stem: Seq<char>,
    old_extension: Seq<char>,
    extension: Seq<char>,
)
    requires
        stem.len() > 0,
        old_extension.len() > 0,
        !stem.contains('/'),
        !old_extension.contains('/'),
        !old_extension.contains('.'),
    ensures
        file_stem(joined(base, stem.push('.') + old_extension)) == Some(stem),
        with_extension(joined(base, stem.push('.') + old_extension), extension) == joined(
            base,
            stem.push('.') + extension,
        ),
{
    let name = stem.push('.') + old_extension;
    lemma_dotted_name(stem, old_extension);
    assert(name.last() == old_extension[old_extension.len() - 1]);
    joined_file_name(base, name);
    lemma_last_dot(stem, old_extension);
    assert(name.take(stem.len() as int) == stem);
    let head = joined(base, Seq::empty());
    assert((head + name).take((head.len() + stem.len()) as int) == head + stem);
    assert(stem[0] != '/');
    let other = stem.push('.') + extension;
    assert(other[0] == stem[0]);
    assert(joined(base, other) == head + other) by {
        if base.len() == 0 || base.last() == '/' {
            assert(base + Seq::<char>::empty() == base);
        } else {
            assert(base.push('/') + Seq::<char>::empty() == base.push('/'));
        }
    }
    assert((head + stem).push('.') + extension == head + other);
}

proof fn lemma_dotted_name(stem: Seq<char>, extension: Seq<char>)
    requires
        !stem.contains('/'),
        !extension.contains('/'),
    ensures
        !(stem.push('.') + extension).contains('/'),
{
    let name = stem.push('.') + extension;
    if name.contains('/') {
        let i = choose|i: int| 0 <= i < name.len() && name[i] == '/';
        if i < stem.len() {
            assert(stem[i] == '/');
        } else if i > stem.len() {
            assert(extension[i - stem.len() - 1] == '/');
        }
    }
}

/// Below a directory whose path has nothing behind its last component, one file name takes
/// the place of another.
pub proof fn joined_with_file_name(base: Seq<char>, name: Seq<char>, other: Seq<char>)
    requires
        trim_tail(base) == base,
        name.len() > 0,
        !name.contains('/'),
        name.last() != '.',
        !is_absolute(other),
    ensures
        with_file_name(joined(base, name), other) == joined(base, other),
{
    joined_file_name(base, name);
    let head = joined(base, Seq::empty());
    assert((head + name).take(head.len() as int) == head);
    if base.len() > 0 && base.last() != '/' {
        assert(head == base.push('/'));
        assert(head.drop_last() == base);
        assert(trim_tail(head) == trim_tail(base));
    } else {
        assert(base + Seq::<char>::empty() == base);
    }
}

/// One separator stands between a directory and what is below it, and none where there is no
/// directory; what begins at the root stands alone.
pub proof fn join_puts_one_separator(base: Seq<char>, tail: Seq<char>)
    ensures
        tail.len() > 0 && tail[0] == '/' ==> joined(base, tail) == tail,
        !(tail.len() > 0 && tail[0] == '/') ==> {
            &&& base.len() == 0 ==> joined(base, tail) == tail
            &&& base.len() > 0 && base.last() == '/' ==> joined(base, tail) == base + tail
            &&& base.len() > 0 && base.last() != '/' ==> joined(base, tail) == base + seq!['/']
                + tail
        },
        is_absolute(base) <==> base.len() > 0 && base[0] == '/',
{
    if base.len() == 0 {
        assert(base + tail =~= tail);
    }
    assert(base.push('/') =~= base + seq!['/']);
}

/// A name with an extension, in a directory, has the name as its stem; another extension takes
/// the place of its own, and another name the place of both.
pub proof fn names_and_extensions_are_told_apart(
    root: Seq<char>,
    stem: Seq<char>,
    extension: Seq<char>,
    other: Seq<char>,
)
    requires
        root.len() > 0,
        root.last() != '/',
        root.len() >= 2 && root.last() == '.' ==> root[root.len() - 2] != '/',
        stem.len() > 0,
        extension.len() > 0,
        !stem.contains('/'),
        !extension.contains('/'),
        !extension.contains('.'),
        other.len() > 0,
        other[0] != '/',
    ensures
        ({
            let path = root + seq!['/'] + stem + seq!['.'] + extension;
            &&& file_name(path) == Some(stem + seq!['.'] + extension)
            &&& file_stem(path) == Some(stem)
            &&& with_extension(path, other) == root + seq!['/'] + stem + seq!['.'] + other
            &&& with_file_name(path, other) == root + seq!['/'] + other
        }),
{
    let name = stem.push('.') + extension;
    let path = root + seq!['/'] + stem + seq!['.'] + extension;
    lemma_dotted_name(stem, extension);
    assert(stem[0] != '/');
    assert(name[0] == stem[0]);
    assert(name =~= stem + seq!['.'] + extension);
    assert(path =~= joined(root, name));
    assert(name.last() == extension[extension.len() - 1]);
    joined_file_name(root, name);
    joined_with_extension(root, stem, extension, other);
    let changed = stem.push('.') + other;
    assert(changed[0] == stem[0]);
    assert(joined(root, changed) =~= root + seq!['/'] + stem + seq!['.'] + other);
    assert(trim_tail(root) == root);
    joined_with_file_name(root, name, other);
    assert(joined(root, other) =~= root + seq!['/'] + other);
}

/// A separator at the end of a path does not matter, and neither does a `.` behind it.
pub proof fn ends_of_paths_do_not_matter(path: Seq<char>, extension: Seq<char>, name: Seq<char>)
    requires
        path.len() > 0,
        file_name(path) is Some,
    ensures
        file_name(path + seq!['/']) == file_name(path),
        file_name(path + seq!['/', '.']) == file_name(path),
        file_stem(path + seq!['/']) == file_stem(path),
        with_extension(path + seq!['/'], extension) == with_extension(path, extension),
        with_file_name(path + seq!['/'], name) == with_file_name(path, name),
{
    let slash = path + seq!['/'];
    let dot = path + seq!['/', '.'];
    assert(slash.drop_last() =~= path);
    assert(trim_tail(slash) == trim_tail(path));
    assert(dot.drop_last() =~= slash);
    assert(trim_tail(dot) == trim_tail(slash));
}

/// A name without a `.`, or with none but at its beginning, has no extension: it is its own stem,
/// and an extension goes behind it.
pub proof fn name_without_extension_is_its_own_stem(
    root: Seq<char>,
    name: Seq<char>,
    extension: Seq<char>,
)
    requires
        root.len() > 0,
        root.last() != '/',
        name.len() > 0,
        !name.contains('/'),
        name.last() != '.',
        forall|i: int| 0 < i < name.len() ==> name[i] != '.',
    ensures
        ({
            let path = root + seq!['/'] + name;
            &&& file_name(path) == Some(name)
            &&& file_stem(path) == Some(name)
            &&& with_extension(path, extension) == path + seq!['.'] + extension
        }),
{
    let path = root + seq!['/'] + name;
    assert(name[0] != '/');
    assert(path =~= joined(root, name));
    joined_file_name(root, name);
    lemma_no_dot(name);
    assert(name.take(name.len() as int) =~= name);
    assert(path.take(path.len() as int) =~= path);
    assert(path.push('.') + extension =~= path + seq!['.'] + extension);
}

proof fn lemma_no_dot(name: Seq<char>)
    requires
        forall|i: int| 0 < i < name.len() ==> name[i] != '.',
    ensures
        last_dot(name) <= 0,
    decreases name.len(),
{
    if name.len() > 1 {
        assert(name[name.len() - 1] != '.');
        lemma_no_dot(name.drop_last());
    } else if name.len() == 1 {
        assert(last_dot(name.drop_last()) == -1);
    }
}

/// Where a path ends in `..`, or has nothing but the root, it has no name.
pub proof fn paths_without_a_name(root: Seq<char>)
    requires
        root.len() > 0,
        root.last() == '/',
    ensures
        file_name(root + seq!['.', '.']) is None,
        file_stem(root + seq!['.', '.']) is None,
        file_name(seq!['/']) is None,
        file_name(Seq::empty()) is None,
{
    let up = root + seq!['.', '.'];
    let n = up.len() as int;
    assert(up[n - 1] == '.' && up[n - 2] == '.');
    assert(trim_tail(up) == up);
    assert(up.drop_last().drop_last() =~= root);
    assert(name_start(root) == root.len());
    assert(up.drop_last().last() == '.');
    assert(name_start(up.drop_last()) == name_start(root));
    assert(name_start(up) == root.len());
    assert(up.skip(root.len() as int) =~= seq!['.', '.']);
    assert(trim_tail(seq!['/']) == seq!['/']);
    assert(name_start(seq!['/']) == 1);
    assert(seq!['/'].skip(1) =~= Seq::<char>::empty());
}

} // verus!
