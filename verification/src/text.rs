//! Strings as sequences of characters: conversion, trimming, splitting into lines, joining
//! and the few searches that the recorder needs.
use vstd::prelude::*;

verus! {

/// `String::push` appends one character and leaves the rest of the string as it was.
pub assume_specification[ String::push ](string: &mut String, ch: char)
    ensures
        final(string)@ == old(string)@.push(ch),
;

/// The characters of `text`, in order.
pub fn to_chars(text: &str) -> (chars: Vec<char>)
    ensures
        chars@ == text@,
{
    let mut chars: Vec<char> = Vec::new();
    for ch in it: text.chars()
        invariant
            chars@ == text@.take(it.index()),
            it.seq() == text@,
    {
        chars.push(ch);
    }
    chars
}

/// The string made of `chars[from..to]`.
pub fn from_chars(chars: &Vec<char>, from: usize, to: usize) -> (text: String)
    requires
        from <= to <= chars@.len(),
    ensures
        text@ == chars@.subrange(from as int, to as int),
{
    let mut text: String = String::new();
    let mut i: usize = from;
    while i < to
        invariant
            from <= i <= to <= chars@.len(),
            text@ == chars@.subrange(from as int, i as int),
        decreases to - i,
    {
        text.push(chars[i]);
        i += 1;
    }
    text
}

/// A copy of `text` with its own storage.
pub fn owned(text: &str) -> (copy: String)
    ensures
        copy@ == text@,
{
    let mut copy: String = String::new();
    copy.append(text);
    copy
}

/// Whether two strings hold the same characters.
pub fn same_text(a: &str, b: &str) -> (same: bool)
    ensures
        same == (a@ == b@),
{
    let left: Vec<char> = to_chars(a);
    let right: Vec<char> = to_chars(b);
    if left.len() != right.len() {
        return false;
    }
    let mut i: usize = 0;
    while i < left.len()
        invariant
            left@ == a@,
            right@ == b@,
            left@.len() == right@.len(),
            i <= left@.len(),
            left@.take(i as int) == right@.take(i as int),
        decreases left@.len() - i,
    {
        if left[i] != right[i] {
            return false;
        }
        proof {
            assert(left@.take(i + 1) == left@.take(i as int).push(left@[i as int]));
            assert(right@.take(i + 1) == right@.take(i as int).push(right@[i as int]));
        }
        i += 1;
    }
    proof {
        assert(left@.take(left@.len() as int) == left@);
        assert(right@.take(right@.len() as int) == right@);
    }
    true
}

/// Texts as characters.
pub open spec fn views(texts: Seq<String>) -> Seq<Seq<char>> {
    Seq::new(texts.len(), |i: int| texts[i]@)
}

/// What `Option<String>` holds, as characters.
pub open spec fn opt_text(text: Option<String>) -> Option<Seq<char>> {
    match text {
        Some(text) => Some(text@),
        None => None,
    }
}

/// Whether two optional strings are both absent or hold the same characters.
pub fn same_opt_text(a: &Option<String>, b: &Option<String>) -> (same: bool)
    ensures
        same == (opt_text(*a) == opt_text(*b)),
{
    match (a, b) {
        (Some(a), Some(b)) => same_text(a.as_str(), b.as_str()),
        (None, None) => true,
        _ => false,
    }
}

/// A copy of an optional string.
pub fn copy_opt_text(text: &Option<String>) -> (copy: Option<String>)
    ensures
        opt_text(copy) == opt_text(*text),
{
    match text {
        Some(text) => Some(owned(text.as_str())),
        None => None,
    }
}

// ---------------------------------------------------------------------------------------
// Prefixes, suffixes, substrings
// ---------------------------------------------------------------------------------------

pub open spec fn starts_with(text: Seq<char>, prefix: Seq<char>) -> bool {
    prefix.len() <= text.len() && text.take(prefix.len() as int) == prefix
}

pub open spec fn ends_with(text: Seq<char>, suffix: Seq<char>) -> bool {
    suffix.len() <= text.len() && text.skip(text.len() - suffix.len()) == suffix
}

/// `needle` stands in `text` at position `at`.
pub open spec fn occurs_at(text: Seq<char>, needle: Seq<char>, at: int) -> bool {
    0 <= at && at + needle.len() <= text.len() && text.subrange(at, at + needle.len()) == needle
}

pub open spec fn contains(text: Seq<char>, needle: Seq<char>) -> bool {
    exists|at: int| occurs_at(text, needle, at)
}

/// Whether `needle` stands in `text` at position `at`.
fn occurs_here(text: &Vec<char>, needle: &Vec<char>, at: usize) -> (here: bool)
    ensures
        here == occurs_at(text@, needle@, at as int),
{
    if text.len() < needle.len() || text.len() - needle.len() < at {
        return false;
    }
    let mut i: usize = 0;
    while i < needle.len()
        invariant
            at + needle@.len() <= text.len(),
            i <= needle@.len(),
            forall|k: int| 0 <= k < i ==> text@[at + k] == needle@[k],
        decreases needle@.len() - i,
    {
        if text[at + i] != needle[i] {
            proof {
                assert(text@.subrange(at as int, at + needle@.len())[i as int] != needle@[i as int]);
            }
            return false;
        }
        i += 1;
    }
    proof {
        assert(text@.subrange(at as int, at + needle@.len()) == needle@);
    }
    true
}

pub fn text_starts_with(text: &str, prefix: &str) -> (found: bool)
    ensures
        found == starts_with(text@, prefix@),
{
    let found: bool = occurs_here(&to_chars(text), &to_chars(prefix), 0);
    proof {
        if prefix@.len() <= text@.len() {
            assert(text@.subrange(0, prefix@.len() as int) == text@.take(prefix@.len() as int));
        }
    }
    found
}

pub fn text_ends_with(text: &str, suffix: &str) -> (found: bool)
    ensures
        found == ends_with(text@, suffix@),
{
    let chars: Vec<char> = to_chars(text);
    let tail: Vec<char> = to_chars(suffix);
    if chars.len() < tail.len() {
        return false;
    }
    proof {
        let at = text@.len() - suffix@.len();
        assert(text@.subrange(at, at + suffix@.len()) == text@.skip(at));
    }
    occurs_here(&chars, &tail, chars.len() - tail.len())
}

pub fn text_contains(text: &str, needle: &str) -> (found: bool)
    ensures
        found == contains(text@, needle@),
{
    let chars: Vec<char> = to_chars(text);
    let needle_chars: Vec<char> = to_chars(needle);
    let mut at: usize = 0;
    while at < chars.len()
        invariant
            chars@ == text@,
            needle_chars@ == needle@,
            at <= chars@.len(),
            forall|k: int| 0 <= k < at ==> !occurs_at(text@, needle@, k),
        decreases chars@.len() - at,
    {
        if occurs_here(&chars, &needle_chars, at) {
            return true;
        }
        at += 1;
    }
    occurs_here(&chars, &needle_chars, at)
}

// ---------------------------------------------------------------------------------------
// ASCII case
// ---------------------------------------------------------------------------------------

/// ASCII capital letters become small ones; every other character stays.
pub open spec fn ascii_lower(ch: char) -> char {
    if 'A' <= ch && ch <= 'Z' {
        (ch as u32 + 32) as char
    } else {
        ch
    }
}

pub open spec fn ascii_lowercase(text: Seq<char>) -> Seq<char> {
    text.map_values(|ch: char| ascii_lower(ch))
}

fn lower_char(ch: char) -> (lower: char)
    ensures
        lower == ascii_lower(ch),
{
    if 'A' <= ch && ch <= 'Z' {
        let code: u8 = ch as u8;
        (code + 32) as char
    } else {
        ch
    }
}

pub fn to_ascii_lowercase(text: &str) -> (lower: String)
    ensures
        lower@ == ascii_lowercase(text@),
{
    let chars: Vec<char> = to_chars(text);
    let mut lower: String = String::new();
    for i in 0..chars.len()
        invariant
            chars@ == text@,
            lower@ == ascii_lowercase(text@.take(i as int)),
    {
        lower.push(lower_char(chars[i]));
        proof {
            assert(text@.take(i + 1) == text@.take(i as int).push(text@[i as int]));
            assert(ascii_lowercase(text@.take(i + 1)) == lower@);
        }
    }
    proof {
        assert(text@.take(text@.len() as int) == text@);
    }
    lower
}

// ---------------------------------------------------------------------------------------
// White space
// ---------------------------------------------------------------------------------------

/// The characters with Unicode's `White_Space` property.
pub open spec fn is_white(ch: char) -> bool {
    let code = ch as u32;
    ||| 0x09 <= code <= 0x0d
    ||| code == 0x20
    ||| code == 0x85
    ||| code == 0xa0
    ||| code == 0x1680
    ||| 0x2000 <= code <= 0x200a
    ||| code == 0x2028
    ||| code == 0x2029
    ||| code == 0x202f
    ||| code == 0x205f
    ||| code == 0x3000
}

pub fn is_white_space(ch: char) -> (white: bool)
    ensures
        white == is_white(ch),
{
    let code: u32 = ch as u32;
    (0x09 <= code && code <= 0x0d) || code == 0x20 || code == 0x85 || code == 0xa0 || code == 0x1680
        || (0x2000 <= code && code <= 0x200a) || code == 0x2028 || code == 0x2029 || code == 0x202f
        || code == 0x205f || code == 0x3000
}

/// `text` without the white space it begins with.
pub open spec fn trim_start(text: Seq<char>) -> Seq<char>
    decreases text.len(),
{
    if text.len() > 0 && is_white(text.first()) {
        trim_start(text.drop_first())
    } else {
        text
    }
}

/// `text` without the white space it ends in.
pub open spec fn trim_end(text: Seq<char>) -> Seq<char>
    decreases text.len(),
{
    if text.len() > 0 && is_white(text.last()) {
        trim_end(text.drop_last())
    } else {
        text
    }
}

/// `text` without the white space at either end.
pub open spec fn trim(text: Seq<char>) -> Seq<char> {
    trim_end(trim_start(text))
}

/// The characters `chars[from..to]` without the white space at either end.
pub fn trim_range(chars: &Vec<char>, from: usize, to: usize) -> (trimmed: String)
    requires
        from <= to <= chars@.len(),
    ensures
        trimmed@ == trim(chars@.subrange(from as int, to as int)),
{
    let ghost all = chars@.subrange(from as int, to as int);
    let mut lo: usize = from;
    while lo < to && is_white_space(chars[lo])
        invariant
            from <= lo <= to <= chars@.len(),
            trim_start(all) == trim_start(chars@.subrange(lo as int, to as int)),
        decreases to - lo,
    {
        proof {
            let rest = chars@.subrange(lo as int, to as int);
            assert(rest.first() == chars@[lo as int]);
            assert(rest.drop_first() == chars@.subrange(lo + 1, to as int));
        }
        lo += 1;
    }
    proof {
        let rest = chars@.subrange(lo as int, to as int);
        if rest.len() > 0 {
            assert(rest.first() == chars@[lo as int]);
        }
        assert(trim_start(all) == rest);
    }
    let mut hi: usize = to;
    while hi > lo && is_white_space(chars[hi - 1])
        invariant
            lo <= hi <= to <= chars@.len(),
            trim_end(chars@.subrange(lo as int, to as int)) == trim_end(
                chars@.subrange(lo as int, hi as int),
            ),
        decreases hi - lo,
    {
        proof {
            let rest = chars@.subrange(lo as int, hi as int);
            assert(rest.last() == chars@[hi - 1]);
            assert(rest.drop_last() == chars@.subrange(lo as int, hi - 1));
        }
        hi -= 1;
    }
    proof {
        let rest = chars@.subrange(lo as int, hi as int);
        if rest.len() > 0 {
            assert(rest.last() == chars@[hi - 1]);
        }
    }
    from_chars(chars, lo, hi)
}

/// A copy of `text` without the white space at either end.
pub fn trimmed(text: &str) -> (copy: String)
    ensures
        copy@ == trim(text@),
{
    let chars: Vec<char> = to_chars(text);
    proof {
        assert(chars@.subrange(0, chars@.len() as int) == chars@);
    }
    trim_range(&chars, 0, chars.len())
}

// ---------------------------------------------------------------------------------------
// Lines
// ---------------------------------------------------------------------------------------

/// The pieces of `text` between the occurrences of `separator`: always at least one.
pub open spec fn split(text: Seq<char>, separator: char) -> Seq<Seq<char>>
    decreases text.len(),
{
    if text.len() == 0 {
        seq![Seq::empty()]
    } else {
        let before = split(text.drop_last(), separator);
        if text.last() == separator {
            before.push(Seq::empty())
        } else {
            before.drop_last().push(before.last().push(text.last()))
        }
    }
}

/// Each line without the white space around it, in order, leaving out those with nothing
/// else.
pub open spec fn meaningful(lines: Seq<Seq<char>>) -> Seq<Seq<char>>
    decreases lines.len(),
{
    if lines.len() == 0 {
        Seq::empty()
    } else {
        let before = meaningful(lines.drop_last());
        let line = trim(lines.last());
        if line.len() == 0 {
            before
        } else {
            before.push(line)
        }
    }
}

/// The lines one after the other, with `separator` between two of them.
pub open spec fn join(lines: Seq<Seq<char>>, separator: char) -> Seq<char>
    decreases lines.len(),
{
    if lines.len() == 0 {
        Seq::empty()
    } else if lines.len() == 1 {
        lines[0]
    } else {
        join(lines.drop_last(), separator).push(separator) + lines.last()
    }
}

/// The meaningful lines of `text`, one below the other.
pub open spec fn normalized(text: Seq<char>) -> Seq<char> {
    join(meaningful(split(text, '\n')), '\n')
}

/// Puts `line` below what `text` holds.
pub fn append_line(text: &mut String, first: bool, line: &str)
    ensures
        final(text)@ == (if first {
            old(text)@ + line@
        } else {
            old(text)@.push('\n') + line@
        }),
{
    if !first {
        text.push('\n');
    }
    text.append(line);
}

/// The meaningful lines of `text`, one below the other.
pub fn normalize_text(text: &str) -> (normal: String)
    ensures
        normal@ == normalized(text@),
{
    let chars: Vec<char> = to_chars(text);
    let mut normal: String = String::new();
    let mut first: bool = true;
    let mut line_start: usize = 0;
    let mut i: usize = 0;
    let ghost mut kept: Seq<Seq<char>> = Seq::empty();
    proof {
        assert(split(Seq::<char>::empty(), '\n') == seq![Seq::<char>::empty()]);
        assert(text@.take(0) == Seq::<char>::empty());
        assert(split(text@.take(0), '\n').drop_last() == Seq::<Seq<char>>::empty());
        assert(text@.subrange(0, 0) == Seq::<char>::empty());
    }
    while i < chars.len()
        invariant
            chars@ == text@,
            line_start <= i <= chars@.len(),
            split(text@.take(i as int), '\n').len() > 0,
            kept == meaningful(split(text@.take(i as int), '\n').drop_last()),
            split(text@.take(i as int), '\n').last() == text@.subrange(line_start as int, i as int),
            normal@ == join(kept, '\n'),
            first == (kept.len() == 0),
        decreases chars@.len() - i,
    {
        proof {
            assert(text@.take(i + 1).drop_last() == text@.take(i as int));
            assert(text@.take(i + 1).last() == text@[i as int]);
        }
        let ghost before = split(text@.take(i as int), '\n');
        let ghost after = split(text@.take(i + 1), '\n');
        if chars[i] == '\n' {
            proof {
                assert(after == before.push(Seq::<char>::empty()));
                assert(after.drop_last() == before);
            }
            let line: String = trim_range(&chars, line_start, i);
            if !line.as_str().is_empty() {
                append_line(&mut normal, first, line.as_str());
                first = false;
                proof {
                    lemma_join_push(kept, line@, '\n');
                    kept = kept.push(line@);
                }
            }
            line_start = i + 1;
            proof {
                assert(text@.subrange(i + 1, i + 1) == Seq::<char>::empty());
            }
        } else {
            proof {
                let line = text@.subrange(line_start as int, i as int);
                assert(after == before.drop_last().push(line.push(text@[i as int])));
                assert(after.drop_last() == before.drop_last());
                assert(line.push(text@[i as int]) == text@.subrange(line_start as int, i + 1));
            }
        }
        i += 1;
    }
    proof {
        assert(text@.take(text@.len() as int) == text@);
    }
    let line: String = trim_range(&chars, line_start, chars.len());
    if !line.as_str().is_empty() {
        append_line(&mut normal, first, line.as_str());
        proof {
            lemma_join_push(kept, line@, '\n');
        }
    }
    normal
}

/// One more line goes behind a separator, unless it is the first.
pub proof fn lemma_join_push(lines: Seq<Seq<char>>, line: Seq<char>, separator: char)
    ensures
        join(lines.push(line), separator) == (if lines.len() == 0 {
            line
        } else {
            join(lines, separator).push(separator) + line
        }),
{
    assert(lines.push(line).drop_last() == lines);
}

// ---------------------------------------------------------------------------------------
// Laws
// ---------------------------------------------------------------------------------------

proof fn lemma_trim_start_parts(text: Seq<char>)
    ensures
        trim_start(text).len() <= text.len(),
        trim_start(text) == text.skip(text.len() - trim_start(text).len()),
        trim_start(text).len() > 0 ==> !is_white(trim_start(text).first()),
        forall|i: int| 0 <= i < text.len() - trim_start(text).len() ==> is_white(#[trigger] text[i]),
    decreases text.len(),
{
    if text.len() > 0 && is_white(text.first()) {
        let rest = text.drop_first();
        lemma_trim_start_parts(rest);
        assert(trim_start(text) == text.skip(text.len() - trim_start(text).len()));
        assert forall|i: int| 0 <= i < text.len() - trim_start(text).len() implies is_white(
            #[trigger] text[i],
        ) by {
            if i > 0 {
                assert(text[i] == rest[i - 1]);
            }
        }
    } else {
        assert(text == text.skip(0));
    }
}

proof fn lemma_trim_end_parts(text: Seq<char>)
    ensures
        trim_end(text).len() <= text.len(),
        trim_end(text) == text.take(trim_end(text).len() as int),
        trim_end(text).len() > 0 ==> !is_white(trim_end(text).last()),
        forall|i: int| trim_end(text).len() <= i < text.len() ==> is_white(#[trigger] text[i]),
    decreases text.len(),
{
    if text.len() > 0 && is_white(text.last()) {
        let rest = text.drop_last();
        lemma_trim_end_parts(rest);
        assert(trim_end(text) == text.take(trim_end(text).len() as int));
        assert forall|i: int| trim_end(text).len() <= i < text.len() implies is_white(
            #[trigger] text[i],
        ) by {
            if i < rest.len() {
                assert(text[i] == rest[i]);
            }
        }
    } else {
        assert(text == text.take(text.len() as int));
    }
}

/// What trimming leaves begins and ends in a character that is not white space, and is
/// part of the text.
pub proof fn trim_leaves_no_white_ends(text: Seq<char>)
    ensures
        trim(text).len() > 0 ==> !is_white(trim(text).first()) && !is_white(trim(text).last()),
        forall|ch: char| trim(text).contains(ch) ==> text.contains(ch),
{
    let tail = trim_start(text);
    lemma_trim_start_parts(text);
    lemma_trim_end_parts(tail);
    if trim(text).len() > 0 {
        assert(trim(text).first() == tail.first());
    }
    assert forall|ch: char| trim(text).contains(ch) implies text.contains(ch) by {
        let i = choose|i: int| 0 <= i < trim(text).len() && trim(text)[i] == ch;
        assert(tail[i] == ch);
        assert(text[text.len() - tail.len() + i] == ch);
    }
}

/// A text without white space at its ends is left alone.
pub proof fn trim_keeps_trimmed(text: Seq<char>)
    requires
        text.len() > 0 ==> !is_white(text.first()) && !is_white(text.last()),
    ensures
        trim(text) == text,
{
}

/// Trimming twice is trimming once.
pub proof fn trim_is_idempotent(text: Seq<char>)
    ensures
        trim(trim(text)) == trim(text),
{
    trim_leaves_no_white_ends(text);
    trim_keeps_trimmed(trim(text));
}

proof fn lemma_split_pieces(text: Seq<char>, separator: char)
    ensures
        split(text, separator).len() > 0,
        forall|k: int|
            0 <= k < split(text, separator).len() ==> !(#[trigger] split(text, separator)[k]).contains(
                separator,
            ),
    decreases text.len(),
{
    if text.len() > 0 {
        let before = split(text.drop_last(), separator);
        lemma_split_pieces(text.drop_last(), separator);
        let all = split(text, separator);
        assert forall|k: int| 0 <= k < all.len() implies !(#[trigger] all[k]).contains(
            separator,
        ) by {
            if k < before.len() - 1 {
                assert(all[k] == before[k]);
            } else if text.last() == separator {
                if k == before.len() - 1 {
                    assert(all[k] == before[k]);
                }
            } else {
                let longer = before.last().push(text.last());
                assert(all[k] == longer);
                if longer.contains(separator) {
                    let i = choose|i: int| 0 <= i < longer.len() && longer[i] == separator;
                    assert(before.last()[i] == separator);
                    assert(before[before.len() - 1].contains(separator));
                }
            }
        }
    }
}

proof fn lemma_split_longer(head: Seq<char>, tail: Seq<char>, separator: char)
    requires
        !tail.contains(separator),
    ensures
        split(head, separator).len() > 0,
        split(head + tail, separator) == split(head, separator).drop_last().push(
            split(head, separator).last() + tail,
        ),
    decreases tail.len(),
{
    lemma_split_pieces(head, separator);
    let pieces = split(head, separator);
    if tail.len() == 0 {
        assert(head + tail == head);
        assert(pieces.last() + tail == pieces.last());
        assert(pieces.drop_last().push(pieces.last()) == pieces);
    } else {
        assert(tail[tail.len() - 1] != separator);
        assert forall|ch: char| tail.drop_last().contains(ch) implies tail.contains(ch) by {
            let i = choose|i: int| 0 <= i < tail.drop_last().len() && tail.drop_last()[i] == ch;
            assert(tail[i] == ch);
        }
        lemma_split_longer(head, tail.drop_last(), separator);
        assert((head + tail).drop_last() == head + tail.drop_last());
        let before = split(head + tail.drop_last(), separator);
        assert(before.drop_last() == pieces.drop_last());
        assert((pieces.last() + tail.drop_last()).push(tail.last()) == pieces.last() + tail);
    }
}

/// Lines that hold no separator come back from their joined text, unless there is none.
pub proof fn split_undoes_join(lines: Seq<Seq<char>>, separator: char)
    requires
        lines.len() > 0,
        forall|k: int| 0 <= k < lines.len() ==> !(#[trigger] lines[k]).contains(separator),
    ensures
        split(join(lines, separator), separator) == lines,
    decreases lines.len(),
{
    let empty = Seq::<char>::empty();
    assert(split(empty, separator) == seq![empty]);
    if lines.len() == 1 {
        assert(!lines[0].contains(separator));
        lemma_split_longer(empty, lines[0], separator);
        assert(empty + lines[0] == lines[0]);
        assert(split(lines[0], separator) == lines);
    } else {
        let front = lines.drop_last();
        assert forall|k: int| 0 <= k < front.len() implies !(#[trigger] front[k]).contains(
            separator,
        ) by {
            assert(front[k] == lines[k]);
        }
        split_undoes_join(front, separator);
        let head = join(front, separator).push(separator);
        assert(head.drop_last() == join(front, separator));
        assert(split(head, separator) == front.push(empty));
        assert(!lines[lines.len() - 1].contains(separator));
        lemma_split_longer(head, lines.last(), separator);
        assert(front.push(empty).drop_last() == front);
        assert(empty + lines.last() == lines.last());
        assert(front.push(lines.last()) == lines);
    }
}

proof fn lemma_meaningful_lines(lines: Seq<Seq<char>>)
    requires
        forall|k: int| 0 <= k < lines.len() ==> !(#[trigger] lines[k]).contains('\n'),
    ensures
        forall|k: int|
            0 <= k < meaningful(lines).len() ==> {
                let line = #[trigger] meaningful(lines)[k];
                line.len() > 0 && trim(line) == line && !line.contains('\n')
            },
    decreases lines.len(),
{
    if lines.len() > 0 {
        let front = lines.drop_last();
        assert forall|k: int| 0 <= k < front.len() implies !(#[trigger] front[k]).contains('\n') by {
            assert(front[k] == lines[k]);
        }
        lemma_meaningful_lines(front);
        let line = trim(lines.last());
        assert(!lines[lines.len() - 1].contains('\n'));
        trim_leaves_no_white_ends(lines.last());
        trim_is_idempotent(lines.last());
        assert forall|k: int| 0 <= k < meaningful(lines).len() implies {
            let line = #[trigger] meaningful(lines)[k];
            line.len() > 0 && trim(line) == line && !line.contains('\n')
        } by {
            if k < meaningful(front).len() {
                assert(meaningful(lines)[k] == meaningful(front)[k]);
            }
        }
    }
}

proof fn lemma_meaningful_keeps(lines: Seq<Seq<char>>)
    requires
        forall|k: int|
            0 <= k < lines.len() ==> (#[trigger] lines[k]).len() > 0 && trim(lines[k]) == lines[k],
    ensures
        meaningful(lines) == lines,
    decreases lines.len(),
{
    if lines.len() > 0 {
        let front = lines.drop_last();
        assert forall|k: int| 0 <= k < front.len() implies (#[trigger] front[k]).len() > 0 && trim(
            front[k],
        ) == front[k] by {
            assert(front[k] == lines[k]);
        }
        lemma_meaningful_keeps(front);
        assert(lines[lines.len() - 1].len() > 0);
        assert(front.push(lines.last()) == lines);
    }
}

/// Every line of a normalized text says something and has no white space around it.
pub proof fn normalized_lines_are_meaningful(text: Seq<char>)
    ensures
        normalized(text).len() == 0 || (forall|k: int|
            0 <= k < split(normalized(text), '\n').len() ==> {
                let line = #[trigger] split(normalized(text), '\n')[k];
                line.len() > 0 && trim(line) == line
            }),
{
    let lines = meaningful(split(text, '\n'));
    lemma_split_pieces(text, '\n');
    lemma_meaningful_lines(split(text, '\n'));
    if lines.len() > 0 {
        split_undoes_join(lines, '\n');
    }
}

/// Normalizing a normalized text changes nothing.
pub proof fn normalized_is_idempotent(text: Seq<char>)
    ensures
        normalized(normalized(text)) == normalized(text),
{
    let lines = meaningful(split(text, '\n'));
    lemma_split_pieces(text, '\n');
    lemma_meaningful_lines(split(text, '\n'));
    if lines.len() > 0 {
        split_undoes_join(lines, '\n');
        lemma_meaningful_keeps(lines);
    } else {
        let empty = Seq::<char>::empty();
        let pieces = split(empty, '\n');
        assert(pieces == seq![empty]);
        assert(pieces.drop_last() == Seq::<Seq<char>>::empty());
        assert(trim(pieces.last()) == empty);
        assert(meaningful(pieces.drop_last()) == Seq::<Seq<char>>::empty());
        assert(meaningful(pieces) == Seq::<Seq<char>>::empty());
    }
}

/// Trimming takes white space alone, and from the ends alone: what it leaves stands in the text
/// in one piece, with nothing but white space before and behind it.
pub proof fn trim_takes_white_space_alone(text: Seq<char>)
    ensures
        exists|from: int, to: int|
            {
                &&& 0 <= from <= to <= text.len()
                &&& trim(text) == #[trigger] text.subrange(from, to)
                &&& forall|i: int| 0 <= i < from ==> is_white(#[trigger] text[i])
                &&& forall|i: int| to <= i < text.len() ==> is_white(#[trigger] text[i])
            },
{
    let tail = trim_start(text);
    lemma_trim_start_parts(text);
    lemma_trim_end_parts(tail);
    let from = text.len() - tail.len();
    let to = from + trim(text).len();
    assert(trim(text) =~= text.subrange(from, to));
    assert forall|i: int| to <= i < text.len() implies is_white(#[trigger] text[i]) by {
        assert(text[i] == tail[i - from]);
    }
}

/// Among the characters of ASCII, white space is the blank, the tab and what breaks lines or
/// pages; letters, digits and signs are none.
pub proof fn ascii_white_space(ch: char)
    requires
        ch as u32 <= 127,
    ensures
        is_white(ch) <==> ch == ' ' || ch == '\t' || ch == '\n' || ch == '\r' || ch as u32 == 11
            || ch as u32 == 12,
{
}

/// Where a text has a single line, its normal form is that line without the white space around
/// it.
pub proof fn single_line_is_trimmed(line: Seq<char>)
    requires
        !line.contains('\n'),
    ensures
        normalized(line) == trim(line),
{
    let lines = seq![line];
    split_undoes_join(lines, '\n');
    assert(lines.drop_last() =~= Seq::<Seq<char>>::empty());
    assert(meaningful(lines.drop_last()) =~= Seq::<Seq<char>>::empty());
    let kept = meaningful(lines);
    if trim(line).len() > 0 {
        assert(kept =~= seq![trim(line)]);
    } else {
        assert(trim(line) =~= Seq::<char>::empty());
    }
}

/// The normal form of a text in two parts, one below the other, is that of the upper part with
/// that of the lower part below it; a part that says nothing leaves no line behind.
pub proof fn normal_form_keeps_all_lines(upper: Seq<char>, lower: Seq<char>)
    ensures
        normalized(upper + seq!['\n'] + lower) == (if normalized(upper).len() == 0 {
            normalized(lower)
        } else if normalized(lower).len() == 0 {
            normalized(upper)
        } else {
            normalized(upper) + seq!['\n'] + normalized(lower)
        }),
{
    let a = meaningful(split(upper, '\n'));
    let b = meaningful(split(lower, '\n'));
    lemma_split_pieces(upper, '\n');
    lemma_split_pieces(lower, '\n');
    lemma_meaningful_lines(split(upper, '\n'));
    lemma_meaningful_lines(split(lower, '\n'));
    lemma_split_parts(upper, lower, '\n');
    lemma_meaningful_parts(split(upper, '\n'), split(lower, '\n'));
    lemma_join_not_empty(a, '\n');
    lemma_join_not_empty(b, '\n');
    if a.len() == 0 {
        assert(a + b =~= b);
    } else if b.len() == 0 {
        assert(a + b =~= a);
    } else {
        lemma_join_parts(a, b, '\n');
    }
}

proof fn lemma_join_not_empty(lines: Seq<Seq<char>>, separator: char)
    requires
        forall|k: int| 0 <= k < lines.len() ==> (#[trigger] lines[k]).len() > 0,
    ensures
        join(lines, separator).len() == 0 <==> lines.len() == 0,
{
    if lines.len() > 0 {
        assert(lines[lines.len() - 1].len() > 0);
    }
}

proof fn lemma_split_parts(upper: Seq<char>, lower: Seq<char>, separator: char)
    ensures
        split(upper + seq![separator] + lower, separator) == split(upper, separator) + split(
            lower,
            separator,
        ),
    decreases lower.len(),
{
    let text = upper + seq![separator] + lower;
    lemma_split_pieces(lower, separator);
    if lower.len() == 0 {
        assert(text.drop_last() =~= upper);
        assert(split(text, separator) =~= split(upper, separator) + split(lower, separator));
    } else {
        let front = lower.drop_last();
        assert(text.drop_last() =~= upper + seq![separator] + front);
        lemma_split_parts(upper, front, separator);
        lemma_split_pieces(front, separator);
        assert(split(text, separator) =~= split(upper, separator) + split(lower, separator));
    }
}

proof fn lemma_meaningful_parts(a: Seq<Seq<char>>, b: Seq<Seq<char>>)
    ensures
        meaningful(a + b) == meaningful(a) + meaningful(b),
    decreases b.len(),
{
    if b.len() == 0 {
        assert(a + b =~= a);
        assert(meaningful(a) + meaningful(b) =~= meaningful(a));
    } else {
        assert((a + b).drop_last() =~= a + b.drop_last());
        lemma_meaningful_parts(a, b.drop_last());
        assert(meaningful(a + b) =~= meaningful(a) + meaningful(b));
    }
}

proof fn lemma_join_parts(a: Seq<Seq<char>>, b: Seq<Seq<char>>, separator: char)
    requires
        a.len() > 0,
        b.len() > 0,
    ensures
        join(a + b, separator) == join(a, separator) + seq![separator] + join(b, separator),
    decreases b.len(),
{
    assert((a + b).drop_last() =~= a + b.drop_last());
    if b.len() == 1 {
        assert(a + b.drop_last() =~= a);
    } else {
        lemma_join_parts(a, b.drop_last(), separator);
    }
    assert(join(a + b, separator) =~= join(a, separator) + seq![separator] + join(b, separator));
}

/// A text begins with, ends with or contains another exactly where it is made of it and what
/// stands behind it, before it or around it.
pub proof fn searches_find_what_is_there(before: Seq<char>, found: Seq<char>, behind: Seq<char>)
    ensures
        starts_with(found + behind, found),
        ends_with(before + found, found),
        contains(before + found + behind, found),
{
    assert((found + behind).take(found.len() as int) =~= found);
    assert((before + found).skip(before.len() as int) =~= found);
    let text = before + found + behind;
    let at = before.len() as int;
    assert(text.subrange(at, at + found.len()) =~= found);
    assert(occurs_at(text, found, at));
}

/// What a search finds is there.
pub proof fn searches_find_nothing_else(text: Seq<char>, wanted: Seq<char>)
    ensures
        starts_with(text, wanted) ==> exists|behind: Seq<char>| text == #[trigger] (wanted
            + behind),
        ends_with(text, wanted) ==> exists|before: Seq<char>| text == #[trigger] (before + wanted),
        contains(text, wanted) ==> exists|before: Seq<char>, behind: Seq<char>|
            text == #[trigger] (before + wanted + behind),
{
    if starts_with(text, wanted) {
        assert(text =~= wanted + text.skip(wanted.len() as int));
    }
    if ends_with(text, wanted) {
        assert(text =~= text.take(text.len() - wanted.len()) + wanted);
    }
    if contains(text, wanted) {
        let at = choose|at: int| occurs_at(text, wanted, at);
        assert(text =~= text.take(at) + wanted + text.skip(at + wanted.len()));
    }
}

/// Lower case changes the capital letters of ASCII into the small ones and nothing else; two
/// texts that differ in such letters alone become one.
pub proof fn lower_case_changes_capitals_alone(text: Seq<char>, i: int)
    requires
        0 <= i < text.len(),
    ensures
        ascii_lowercase(text).len() == text.len(),
        ({
            let code = text[i] as u32;
            let lower = ascii_lowercase(text)[i] as u32;
            &&& 65 <= code <= 90 ==> lower == code + 32
            &&& !(65 <= code <= 90) ==> lower == code
        }),
        ascii_lowercase(ascii_lowercase(text)) == ascii_lowercase(text),
{
    assert(ascii_lowercase(ascii_lowercase(text)) =~= ascii_lowercase(text));
}

/// White space is what Unicode counts as such, and nothing else.
pub proof fn unicode_white_space(ch: char)
    ensures
        is_white(ch) <==> seq![
            0x9u32, 0xau32, 0xbu32, 0xcu32, 0xdu32, 0x20u32, 0x85u32, 0xa0u32, 0x1680u32, 0x2000u32,
            0x2001u32, 0x2002u32, 0x2003u32, 0x2004u32, 0x2005u32, 0x2006u32, 0x2007u32, 0x2008u32,
            0x2009u32, 0x200au32, 0x2028u32, 0x2029u32, 0x202fu32, 0x205fu32, 0x3000u32,
        ].contains(ch as u32),
{
    let codes = seq![
        0x9u32, 0xau32, 0xbu32, 0xcu32, 0xdu32, 0x20u32, 0x85u32, 0xa0u32, 0x1680u32, 0x2000u32,
        0x2001u32, 0x2002u32, 0x2003u32, 0x2004u32, 0x2005u32, 0x2006u32, 0x2007u32, 0x2008u32,
        0x2009u32, 0x200au32, 0x2028u32, 0x2029u32, 0x202fu32, 0x205fu32, 0x3000u32,
    ];
    let code = ch as u32;
    assert(codes[0] == 0x9 && codes[1] == 0xa && codes[2] == 0xb && codes[3] == 0xc && codes[4]
        == 0xd && codes[5] == 0x20 && codes[6] == 0x85 && codes[7] == 0xa0 && codes[8] == 0x1680
        && codes[9] == 0x2000 && codes[10] == 0x2001 && codes[11] == 0x2002 && codes[12] == 0x2003
        && codes[13] == 0x2004 && codes[14] == 0x2005 && codes[15] == 0x2006 && codes[16] == 0x2007
        && codes[17] == 0x2008 && codes[18] == 0x2009 && codes[19] == 0x200a && codes[20] == 0x2028
        && codes[21] == 0x2029 && codes[22] == 0x202f && codes[23] == 0x205f && codes[24]
        == 0x3000);
    assert(codes.len() == 25);
    if is_white(ch) {
        let at: int = if code <= 0xd {
            code - 9
        } else if code == 0x20 {
            5
        } else if code == 0x85 {
            6
        } else if code == 0xa0 {
            7
        } else if code == 0x1680 {
            8
        } else if code <= 0x200a {
            code - 0x2000 + 9
        } else if code == 0x2028 {
            20
        } else if code == 0x2029 {
            21
        } else if code == 0x202f {
            22
        } else if code == 0x205f {
            23
        } else {
            24
        };
        assert(codes[at] == code);
    }
}

/// Of lines one after the other, those that say anything stay, each without the white space
/// around it.
pub proof fn lines_that_say_something_stay(
    upper: Seq<Seq<char>>,
    lower: Seq<Seq<char>>,
    line: Seq<char>,
)
    ensures
        meaningful(upper + lower) == meaningful(upper) + meaningful(lower),
        trim(line).len() > 0 ==> meaningful(seq![line]) == seq![trim(line)],
        trim(line).len() == 0 ==> meaningful(seq![line]) == Seq::<Seq<char>>::empty(),
{
    lemma_meaningful_parts(upper, lower);
    assert(seq![line].drop_last() =~= Seq::<Seq<char>>::empty());
    assert(meaningful(seq![line].drop_last()) =~= Seq::<Seq<char>>::empty());
}

} // verus!
