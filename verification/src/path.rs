//! Lexical handling of path text.
//!
//! A path is a sequence of characters in which `/` separates components.
//! Nothing here touches the file system: the functions only look at the text.
//! Empty components and `.` components are skipped when looking for the final
//! component, and a path that ends in `..` has no file name.

use crate::text::to_chars;
use vstd::prelude::*;
use vstd::string::StringExecFns;

verus! {

/// Index of the last occurrence of `c` in `s`, or `-1` when `c` does not occur.
pub open spec fn last_position(s: Seq<char>, c: char) -> int
    decreases s.len(),
{
    if s.len() == 0 {
        -1
    } else if s.last() == c {
        s.len() - 1
    } else {
        last_position(s.drop_last(), c)
    }
}

/// The file name of a path: its last component that is neither empty nor `.`,
/// unless that component is `..`.
pub open spec fn final_component(path: Seq<char>) -> Option<Seq<char>>
    decreases path.len(),
{
    let start = last_position(path, '/') + 1;
    let segment = path.skip(start);
    if path.len() == 0 {
        None
    } else if segment.len() == 0 || segment == seq!['.'] {
        if 0 < start <= path.len() {
            final_component(path.take(start - 1))
        } else {
            None
        }
    } else if segment == seq!['.', '.'] {
        None
    } else {
        Some(segment)
    }
}

/// The file name without its extension.
///
/// A name without a dot, or whose only dot is its first character, is its own
/// stem; otherwise the stem is what precedes the last dot.
pub open spec fn stem_of(path: Seq<char>) -> Option<Seq<char>> {
    match final_component(path) {
        None => None,
        Some(name) => {
            let dot = last_position(name, '.');
            if dot <= 0 {
                Some(name)
            } else {
                Some(name.take(dot))
            }
        },
    }
}

/// The extension of the file name: what follows its last dot, provided that
/// dot is not the first character of the name.
pub open spec fn extension_of(path: Seq<char>) -> Option<Seq<char>> {
    match final_component(path) {
        None => None,
        Some(name) => {
            let dot = last_position(name, '.');
            if dot <= 0 {
                None
            } else {
                Some(name.skip(dot + 1))
            }
        },
    }
}

/// The text with every backslash replaced by a forward slash.
pub open spec fn with_forward_slashes(text: Seq<char>) -> Seq<char> {
    text.map_values(
        |c: char|
            if c == '\\' {
                '/'
            } else {
                c
            },
    )
}

/// `last_position` is `k` when `c` stands at `k` and nowhere after it.
pub proof fn lemma_last_position(s: Seq<char>, c: char, k: int)
    requires
        -1 <= k < s.len(),
        k >= 0 ==> s[k] == c,
        forall|j: int| k < j < s.len() ==> s[j] != c,
    ensures
        last_position(s, c) == k,
    decreases s.len(),
{
    if s.len() > 0 && s.last() != c {
        lemma_last_position(s.drop_last(), c, k);
    }
}

/// `last_position` stays inside the sequence, points at an occurrence, and no
/// occurrence follows it.
pub proof fn lemma_last_position_is_last(s: Seq<char>, c: char)
    ensures
        -1 <= last_position(s, c) < s.len(),
        last_position(s, c) >= 0 ==> s[last_position(s, c)] == c,
        forall|j: int| last_position(s, c) < j < s.len() ==> s[j] != c,
    decreases s.len(),
{
    if s.len() > 0 && s.last() != c {
        lemma_last_position_is_last(s.drop_last(), c);
        assert forall|j: int| last_position(s, c) < j < s.len() implies s[j] != c by {
            if j < s.len() - 1 {
                assert(s.drop_last()[j] == s[j]);
            }
        }
    }
}

/// A file name with an extension is its stem, a dot and the extension; the
/// stem is not empty and the extension holds no dot.
pub proof fn lemma_extension_splits_name(path: Seq<char>)
    requires
        extension_of(path) is Some,
    ensures
        stem_of(path) is Some,
        final_component(path) == Some(
            stem_of(path).unwrap() + seq!['.'] + extension_of(path).unwrap(),
        ),
        stem_of(path).unwrap().len() > 0,
        !extension_of(path).unwrap().contains('.'),
{
    let name = final_component(path).unwrap();
    lemma_last_position_is_last(name, '.');
}

/// Normalizing keeps the length and every character but the backslashes,
/// leaves no backslash, and changes nothing when done again.
pub proof fn lemma_with_forward_slashes(text: Seq<char>)
    ensures
        with_forward_slashes(text).len() == text.len(),
        forall|i: int|
            0 <= i < text.len() && text[i] != '\\' ==> #[trigger] with_forward_slashes(text)[i]
                == text[i],
        forall|i: int|
            0 <= i < text.len() && text[i] == '\\' ==> #[trigger] with_forward_slashes(text)[i]
                == '/',
        forall|i: int|
            0 <= i < text.len() ==> #[trigger] with_forward_slashes(text)[i] != '\\',
        with_forward_slashes(with_forward_slashes(text)) == with_forward_slashes(text),
{
}

/// One more than the position of the last `c` in `chars[start..end]`, counted
/// from `start`; zero when `c` does not occur there.
fn after_last(chars: &Vec<char>, start: usize, end: usize, c: char) -> (k: usize)
    requires
        start <= end <= chars@.len(),
    ensures
        k <= end - start,
        k as int == last_position(chars@.subrange(start as int, end as int), c) + 1,
{
    let mut at: usize = end;
    while at > start && chars[at - 1] != c
        invariant
            start <= at <= end <= chars@.len(),
            forall|j: int| at <= j < end ==> chars@[j] != c,
        decreases at,
    {
        at = at - 1;
    }
    proof {
        lemma_last_position(chars@.subrange(start as int, end as int), c, at - start - 1);
    }
    at - start
}

/// Bounds of the file name within the characters of a path.
fn component_bounds(chars: &Vec<char>) -> (bounds: Option<(usize, usize)>)
    ensures
        match bounds {
            Some((start, end)) => start < end <= chars@.len() && final_component(chars@) == Some(
                chars@.subrange(start as int, end as int),
            ),
            None => final_component(chars@) is None,
        },
{
    let mut end: usize = chars.len();
    proof {
        assert(chars@.take(end as int) =~= chars@);
    }
    while end > 0
        invariant
            end <= chars@.len(),
            final_component(chars@) == final_component(chars@.take(end as int)),
        decreases end,
    {
        let start = after_last(chars, 0, end, '/');
        let ghost head = chars@.take(end as int);
        let length = end - start;
        if length == 0 || (length == 1 && chars[start] == '.') {
            proof {
                if length == 1 {
                    assert(head.skip(start as int) =~= seq!['.']);
                }
            }
            if start == 0 {
                return None;
            }
            proof {
                assert(head.take(start - 1) =~= chars@.take(start - 1));
            }
            end = start - 1;
        } else if length == 2 && chars[start] == '.' && chars[start + 1] == '.' {
            proof {
                assert(head.skip(start as int) =~= seq!['.', '.']);
            }
            return None;
        } else {
            proof {
                assert(head.skip(start as int)[0] == chars@[start as int]);
            }
            return Some((start, end));
        }
    }
    None
}

/// Returns the file name of `path`, if it has one.
pub fn file_name(path: &str) -> (name: Option<&str>)
    ensures
        match name {
            Some(text) => final_component(path@) == Some(text@),
            None => final_component(path@) is None,
        },
{
    let chars = to_chars(path);
    match component_bounds(&chars) {
        Some((start, end)) => Some(path.substring_char(start, end)),
        None => None,
    }
}

/// Returns the file name of `path` without its extension, if `path` has a file
/// name.
pub fn file_stem(path: &str) -> (stem: Option<&str>)
    ensures
        match stem {
            Some(text) => stem_of(path@) == Some(text@),
            None => stem_of(path@) is None,
        },
{
    let chars = to_chars(path);
    match component_bounds(&chars) {
        Some((start, end)) => {
            let after_dot = after_last(&chars, start, end, '.');
            if after_dot <= 1 {
                Some(path.substring_char(start, end))
            } else {
                Some(path.substring_char(start, start + (after_dot - 1)))
            }
        },
        None => None,
    }
}

/// Returns the extension of the file name of `path`, if it has one.
pub fn extension(path: &str) -> (extension: Option<&str>)
    ensures
        match extension {
            Some(text) => extension_of(path@) == Some(text@),
            None => extension_of(path@) is None,
        },
{
    let chars = to_chars(path);
    match component_bounds(&chars) {
        Some((start, end)) => {
            let after_dot = after_last(&chars, start, end, '.');
            if after_dot <= 1 {
                None
            } else {
                Some(path.substring_char(start + after_dot, end))
            }
        },
        None => None,
    }
}

/// Returns `text` with every backslash replaced by a forward slash.
pub fn normalize_separators(text: &str) -> (normalized: String)
    ensures
        normalized@ == with_forward_slashes(text@),
{
    let chars = to_chars(text);
    let mut normalized = String::new();
    let mut copied: usize = 0;
    let mut i: usize = 0;
    proof {
        reveal_strlit("/");
    }
    while i < chars.len()
        invariant
            copied <= i <= chars@.len(),
            chars@ == text@,
            "/"@ == seq!['/'],
            forall|j: int| copied <= j < i ==> chars@[j] != '\\',
            normalized@ + chars@.subrange(copied as int, i as int) == with_forward_slashes(
                chars@.take(i as int),
            ),
        decreases chars@.len() - i,
    {
        if chars[i] == '\\' {
            normalized.append(text.substring_char(copied, i));
            normalized.append("/");
            copied = i + 1;
        }
        i = i + 1;
        proof {
            assert(normalized@ + chars@.subrange(copied as int, i as int) =~= with_forward_slashes(
                chars@.take(i as int),
            )) by {
                let before = with_forward_slashes(chars@.take(i - 1));
                let now = with_forward_slashes(chars@.take(i as int));
                assert(now =~= before.push(now[i - 1]));
            }
        }
    }
    normalized.append(text.substring_char(copied, i));
    normalized
}

} // verus!
