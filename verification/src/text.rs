//! Text primitives shared by the scanner and the catalog: case folding,
//! substring tests and the extension of a file name.

use vstd::prelude::*;

verus! {

/// The upper-case form of a text, as `str::to_uppercase` computes it.
pub uninterp spec fn uppercase_of(s: Seq<char>) -> Seq<char>;

/// The lower-case form of a text, as `str::to_lowercase` computes it.
pub uninterp spec fn lowercase_of(s: Seq<char>) -> Seq<char>;

/// `needle` occurs in `hay` as a contiguous run of characters.
pub open spec fn contains_seq(hay: Seq<char>, needle: Seq<char>) -> bool {
    exists|i: int|
        0 <= i && i + needle.len() <= hay.len() && #[trigger] hay.subrange(i, i + needle.len())
            == needle
}

/// Calls `str::to_uppercase`. The Unicode case mapping is not restated here:
/// the result is only given its name, `uppercase_of`.
#[verifier::external_body]
pub(crate) fn to_upper(s: &str) -> (r: String)
    ensures
        r@ == uppercase_of(s@),
{
    s.to_uppercase()
}

/// Calls `str::to_lowercase`. The Unicode case mapping is not restated here:
/// the result is only given its name, `lowercase_of`.
#[verifier::external_body]
pub(crate) fn to_lower(s: &str) -> (r: String)
    ensures
        r@ == lowercase_of(s@),
{
    s.to_lowercase()
}

/// Calls `str::contains` with a string pattern, which std documents as true
/// exactly when the pattern matches a sub-slice of the text.
#[verifier::external_body]
pub(crate) fn str_contains(hay: &str, needle: &str) -> (r: bool)
    ensures
        r == contains_seq(hay@, needle@),
{
    hay.contains(needle)
}

/// Calls `String::push`, which appends one character.
#[verifier::external_body]
pub(crate) fn push_char(text: &mut String, c: char)
    ensures
        final(text)@ == old(text)@.push(c),
{
    text.push(c)
}

/// Position of the last `.` in `name`, if there is one.
pub open spec fn last_dot(name: Seq<char>) -> Option<int>
    decreases name.len(),
{
    if name.len() == 0 {
        None
    } else if name.last() == '.' {
        Some(name.len() - 1)
    } else {
        last_dot(name.drop_last())
    }
}

/// The part of `name` behind its last dot; empty where there is no dot or
/// the last dot leads the name.
pub open spec fn extension_part(name: Seq<char>) -> Seq<char> {
    let d = last_dot(name);
    if d is Some && d->0 > 0 {
        name.subrange(d->0 + 1, name.len() as int)
    } else {
        Seq::empty()
    }
}

/// The extension that a catalog entry carries for `name`: the lower-case
/// form of the part behind the last dot, or nothing where the name has no
/// such part.
pub open spec fn derived_extension(name: Seq<char>) -> Seq<char> {
    if extension_part(name).len() == 0 {
        Seq::empty()
    } else {
        lowercase_of(extension_part(name))
    }
}

/// Finds the last dot of a name, and counts the characters of the name.
pub fn find_last_dot(name: &str) -> (found: (Option<usize>, usize))
    ensures
        found.1 == name@.len(),
        last_dot(name@) == match found.0 {
            Some(d) => Some(d as int),
            None => None::<int>,
        },
        found.0 is Some ==> found.0->0 < found.1,
{
    let n = name.unicode_len();
    let mut last: Option<usize> = None;
    let mut i: usize = 0;
    for c in it: name.chars()
        invariant
            it.seq() == name@,
            n == name@.len(),
            i == it.index(),
            last is Some ==> last->0 < i,
            last_dot(name@.take(i as int)) == match last {
                Some(d) => Some(d as int),
                None => None::<int>,
            },
    {
        assert(name@.take(i + 1).drop_last() == name@.take(i as int));
        if c == '.' {
            last = Some(i);
        }
        i = i + 1;
    }
    assert(name@.take(i as int) == name@);
    (last, n)
}

/// Cuts the part behind the last dot out of a file name.
pub fn extension_part_of(name: &str) -> (part: &str)
    ensures
        part@ == extension_part(name@),
{
    let (last, n) = find_last_dot(name);
    match last {
        Some(d) => {
            if d > 0 {
                name.substring_char(d + 1, n)
            } else {
                name.substring_char(0, 0)
            }
        },
        None => name.substring_char(0, 0),
    }
}

/// Derives the extension of a file name.
pub fn extension_of(name: &str) -> (ext: String)
    ensures
        ext@ == derived_extension(name@),
{
    let part = extension_part_of(name);
    if part.is_empty() {
        String::new()
    } else {
        to_lower(part)
    }
}

/// What `last_dot` finds: the greatest position that holds a dot.
pub proof fn lemma_last_dot(name: Seq<char>)
    ensures
        match last_dot(name) {
            Some(d) => {
                &&& 0 <= d < name.len()
                &&& name[d] == '.'
                &&& forall|k: int| d < k < name.len() ==> name[k] != '.'
            },
            None => forall|k: int| 0 <= k < name.len() ==> name[k] != '.',
        },
    decreases name.len(),
{
    if name.len() > 0 && name.last() != '.' {
        lemma_last_dot(name.drop_last());
        assert forall|k: int| 0 <= k < name.len() - 1 implies name[k] == name.drop_last()[k] by {
        }
    }
}

/// What the derived extension of a name is: nothing for a name without a
/// dot, for a name whose last dot is its first character, and for a name
/// that ends in a dot; for any other name the lower-case form of what
/// stands behind the last dot, in which there is no dot.
pub proof fn lemma_derived_extension(name: Seq<char>)
    ensures
        match last_dot(name) {
            Some(d) => if 0 < d < name.len() - 1 {
                &&& derived_extension(name) == lowercase_of(
                    name.subrange(d + 1, name.len() as int),
                )
                &&& !name.subrange(d + 1, name.len() as int).contains('.')
            } else {
                derived_extension(name) == Seq::<char>::empty()
            },
            None => derived_extension(name) == Seq::<char>::empty() && !name.contains('.'),
        },
{
    lemma_last_dot(name);
    match last_dot(name) {
        Some(d) => {
            if 0 < d < name.len() - 1 {
                let suffix = name.subrange(d + 1, name.len() as int);
                assert(suffix.len() > 0);
                assert forall|k: int| 0 <= k < suffix.len() implies suffix[k] != '.' by {
                    assert(suffix[k] == name[d + 1 + k]);
                }
            }
        },
        None => {},
    }
}

} // verus!
