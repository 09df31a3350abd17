//! Texts taken apart character by character: stripping, cutting at a
//! separator, comparing, replacing, and reading a number.
//!
//! A text is held as a vector of characters, and a part of it is named by
//! the two positions that bound it.

use vstd::prelude::*;
use vstd::string::StringExecFns;
use crate::text::push_char;

verus! {

/// A character is white space in the sense of Unicode.
pub open spec fn is_space(c: char) -> bool {
    let u = c as u32;
    ||| 0x09 <= u <= 0x0D
    ||| u == 0x20
    ||| u == 0x85
    ||| u == 0xA0
    ||| u == 0x1680
    ||| 0x2000 <= u <= 0x200A
    ||| u == 0x2028
    ||| u == 0x2029
    ||| u == 0x202F
    ||| u == 0x205F
    ||| u == 0x3000
}

/// Tells whether a character is white space.
pub fn is_whitespace(c: char) -> (space: bool)
    ensures
        space == is_space(c),
{
    let u = c as u32;
    (0x09 <= u && u <= 0x0D) || u == 0x20 || u == 0x85 || u == 0xA0 || u == 0x1680 || (0x2000 <= u
        && u <= 0x200A) || u == 0x2028 || u == 0x2029 || u == 0x202F || u == 0x205F || u == 0x3000
}

/// A set of characters to look for or to pass over.
#[derive(Clone, Copy, Debug)]
pub enum CharClass {
    /// White space.
    Space,
    /// This one character.
    Only(char),
}

impl CharClass {
    /// The class holds `c`.
    pub open spec fn has(self, c: char) -> bool {
        match self {
            CharClass::Space => is_space(c),
            CharClass::Only(only) => c == only,
        }
    }

    /// Tells whether the class holds `c`.
    pub fn holds(&self, c: char) -> (held: bool)
        ensures
            held == self.has(c),
    {
        match self {
            CharClass::Space => is_whitespace(c),
            CharClass::Only(only) => c == *only,
        }
    }
}

/// The least position of `from..to` whose character is not of the class,
/// or `to` where all of them are.
pub open spec fn skip_class(s: Seq<char>, class: CharClass, from: int, to: int) -> int
    decreases to - from,
{
    if from >= to {
        to
    } else if !class.has(s[from]) {
        from
    } else {
        skip_class(s, class, from + 1, to)
    }
}

/// The least position of `from..to` whose character is of the class, or
/// `to` where none of them is.
pub open spec fn seek_class(s: Seq<char>, class: CharClass, from: int, to: int) -> int
    decreases to - from,
{
    if from >= to {
        to
    } else if class.has(s[from]) {
        from
    } else {
        seek_class(s, class, from + 1, to)
    }
}

/// The least end of a part that begins at `from` such that all characters
/// between it and `to` are of the class.
pub open spec fn back_class(s: Seq<char>, class: CharClass, from: int, to: int) -> int
    decreases to - from,
{
    if to <= from {
        from
    } else if !class.has(s[to - 1]) {
        to
    } else {
        back_class(s, class, from, to - 1)
    }
}

/// What the three scans find.
pub proof fn lemma_scans(s: Seq<char>, class: CharClass, from: int, to: int)
    requires
        from <= to,
    ensures
        from <= skip_class(s, class, from, to) <= to,
        forall|k: int| from <= k < skip_class(s, class, from, to) ==> class.has(s[k]),
        skip_class(s, class, from, to) < to ==> !class.has(s[skip_class(s, class, from, to)]),
        from <= seek_class(s, class, from, to) <= to,
        forall|k: int| from <= k < seek_class(s, class, from, to) ==> !class.has(s[k]),
        seek_class(s, class, from, to) < to ==> class.has(s[seek_class(s, class, from, to)]),
        from <= back_class(s, class, from, to) <= to,
        forall|k: int| back_class(s, class, from, to) <= k < to ==> class.has(s[k]),
        back_class(s, class, from, to) > from ==> !class.has(
            s[back_class(s, class, from, to) - 1],
        ),
    decreases to - from,
{
    if from < to {
        lemma_scans(s, class, from + 1, to);
        lemma_scans(s, class, from, to - 1);
    }
}

/// The part of `s` between `lo` and `hi` without the characters of the
/// class at its two ends.
pub open spec fn stripped(s: Seq<char>, class: CharClass, lo: int, hi: int) -> Seq<char> {
    let from = skip_class(s, class, lo, hi);
    s.subrange(from, back_class(s, class, from, hi))
}

/// `s` without white space at its two ends.
pub open spec fn trimmed(s: Seq<char>) -> Seq<char> {
    stripped(s, CharClass::Space, 0, s.len() as int)
}

/// The characters of a text, one by one.
pub fn chars_of(text: &str) -> (chars: Vec<char>)
    ensures
        chars@ == text@,
{
    let mut chars: Vec<char> = Vec::new();
    for c in it: text.chars()
        invariant
            it.seq() == text@,
            chars@ == text@.take(it.index() as int),
    {
        chars.push(c);
        assert(chars@ =~= text@.take(it.index() + 1));
    }
    assert(chars@ =~= text@);
    chars
}

/// The text made of the characters between `lo` and `hi`.
pub fn text_of(chars: &Vec<char>, lo: usize, hi: usize) -> (text: String)
    requires
        lo <= hi <= chars.len(),
    ensures
        text@ == chars@.subrange(lo as int, hi as int),
{
    let mut text = String::new();
    let mut k = lo;
    while k < hi
        invariant
            lo <= k <= hi <= chars.len(),
            text@ == chars@.subrange(lo as int, k as int),
        decreases hi - k,
    {
        push_char(&mut text, chars[k]);
        k = k + 1;
        assert(text@ =~= chars@.subrange(lo as int, k as int));
    }
    text
}

/// Passes over the characters of the class from `from` on.
pub fn skip(chars: &Vec<char>, class: CharClass, from: usize, to: usize) -> (at: usize)
    requires
        from <= to <= chars.len(),
    ensures
        at == skip_class(chars@, class, from as int, to as int),
        from <= at <= to,
{
    let mut at = from;
    while at < to && class.holds(chars[at])
        invariant
            from <= at <= to <= chars.len(),
            skip_class(chars@, class, from as int, to as int) == skip_class(
                chars@,
                class,
                at as int,
                to as int,
            ),
        decreases to - at,
    {
        at = at + 1;
    }
    at
}

/// Looks for the first character of the class from `from` on.
pub fn seek(chars: &Vec<char>, class: CharClass, from: usize, to: usize) -> (at: usize)
    requires
        from <= to <= chars.len(),
    ensures
        at == seek_class(chars@, class, from as int, to as int),
        from <= at <= to,
{
    let mut at = from;
    while at < to && !class.holds(chars[at])
        invariant
            from <= at <= to <= chars.len(),
            seek_class(chars@, class, from as int, to as int) == seek_class(
                chars@,
                class,
                at as int,
                to as int,
            ),
        decreases to - at,
    {
        at = at + 1;
    }
    at
}

/// Passes backwards over the characters of the class before `to`.
pub fn back(chars: &Vec<char>, class: CharClass, from: usize, to: usize) -> (at: usize)
    requires
        from <= to <= chars.len(),
    ensures
        at == back_class(chars@, class, from as int, to as int),
        from <= at <= to,
{
    let mut at = to;
    while at > from && class.holds(chars[at - 1])
        invariant
            from <= at <= to <= chars.len(),
            back_class(chars@, class, from as int, to as int) == back_class(
                chars@,
                class,
                from as int,
                at as int,
            ),
        decreases at - from,
    {
        at = at - 1;
    }
    at
}

/// Bounds the part between `lo` and `hi` that is left when the characters
/// of the class are stripped from its two ends.
pub fn strip(chars: &Vec<char>, class: CharClass, lo: usize, hi: usize) -> (part: (usize, usize))
    requires
        lo <= hi <= chars.len(),
    ensures
        lo <= part.0 <= part.1 <= hi,
        part.0 == skip_class(chars@, class, lo as int, hi as int),
        part.1 == back_class(chars@, class, part.0 as int, hi as int),
        chars@.subrange(part.0 as int, part.1 as int) == stripped(
            chars@,
            class,
            lo as int,
            hi as int,
        ),
{
    let from = skip(chars, class, lo, hi);
    let to = back(chars, class, from, hi);
    (from, to)
}

/// The part between `lo` and `hi` holds `c`.
pub open spec fn has_char(s: Seq<char>, c: char, lo: int, hi: int) -> bool {
    seek_class(s, CharClass::Only(c), lo, hi) < hi
}

/// Tells whether the part between `lo` and `hi` holds `c`.
pub fn holds_char(chars: &Vec<char>, c: char, lo: usize, hi: usize) -> (held: bool)
    requires
        lo <= hi <= chars.len(),
    ensures
        held == has_char(chars@, c, lo as int, hi as int),
{
    seek(chars, CharClass::Only(c), lo, hi) < hi
}

/// `prefix` stands in `s` at position `at`.
pub open spec fn stands_at(s: Seq<char>, prefix: Seq<char>, at: int) -> bool {
    0 <= at && at + prefix.len() <= s.len() && s.subrange(at, at + prefix.len()) == prefix
}

/// Tells whether `prefix` stands in `chars` at position `at`.
pub fn is_at(chars: &Vec<char>, prefix: &Vec<char>, at: usize) -> (there: bool)
    ensures
        there == stands_at(chars@, prefix@, at as int),
{
    if at > chars.len() || prefix.len() > chars.len() - at {
        return false;
    }
    let mut k: usize = 0;
    while k < prefix.len()
        invariant
            at + prefix.len() <= chars.len(),
            k <= prefix.len(),
            forall|i: int| 0 <= i < k ==> chars[at + i] == prefix[i],
        decreases prefix.len() - k,
    {
        if chars[at + k] != prefix[k] {
            assert(chars@.subrange(at as int, at + prefix.len())[k as int] != prefix@[k as int]);
            return false;
        }
        k = k + 1;
    }
    assert(chars@.subrange(at as int, at + prefix.len()) =~= prefix@);
    true
}

/// Tells whether two texts are the same.
pub fn same_text(a: &str, b: &str) -> (same: bool)
    ensures
        same == (a@ == b@),
{
    let left = chars_of(a);
    let right = chars_of(b);
    if left.len() != right.len() {
        return false;
    }
    let same = is_at(&left, &right, 0);
    assert(left@.subrange(0, left@.len() as int) =~= left@);
    same
}

/// Tells whether a text begins with another.
pub fn begins_with(text: &str, prefix: &str) -> (begins: bool)
    ensures
        begins == stands_at(text@, prefix@, 0),
{
    let chars = chars_of(text);
    let head = chars_of(prefix);
    is_at(&chars, &head, 0)
}

/// The value of a decimal digit, or `None` for any other character.
pub open spec fn digit_value(c: char) -> Option<nat> {
    if 48 <= c as u32 <= 57 {
        Some((c as u32 - 48) as nat)
    } else {
        None
    }
}

/// The number that the decimal digits between `lo` and `hi` spell, commas
/// among them passed over; `None` where any other character stands there.
pub open spec fn number_in(s: Seq<char>, lo: int, hi: int) -> Option<nat>
    decreases hi - lo,
{
    if hi <= lo {
        Some(0)
    } else {
        match number_in(s, lo, hi - 1) {
            None => None,
            Some(before) => if s[hi - 1] == ',' {
                Some(before)
            } else {
                match digit_value(s[hi - 1]) {
                    Some(digit) => Some(10 * before + digit),
                    None => None,
                }
            },
        }
    }
}

/// Number of decimal digits between `lo` and `hi`.
pub open spec fn digits_in(s: Seq<char>, lo: int, hi: int) -> nat
    decreases hi - lo,
{
    if hi <= lo {
        0
    } else {
        digits_in(s, lo, hi - 1) + if digit_value(s[hi - 1]) is Some {
            1nat
        } else {
            0nat
        }
    }
}

/// Where the digits of a number begin between `lo` and `hi`: behind a plus
/// sign where that is the first character other than a comma, at `lo`
/// otherwise.
pub open spec fn digits_start(s: Seq<char>, lo: int, hi: int) -> int {
    let first = skip_class(s, CharClass::Only(','), lo, hi);
    if first < hi && s[first] == '+' {
        first + 1
    } else {
        lo
    }
}

/// The size that the part between `lo` and `hi` states: a decimal number of
/// at least one digit, with commas anywhere and a plus sign before the first
/// digit allowed. Anything else, and a number beyond 64 bits, counts as
/// zero.
pub open spec fn size_in(s: Seq<char>, lo: int, hi: int) -> u64 {
    let start = digits_start(s, lo, hi);
    match number_in(s, start, hi) {
        Some(value) => if digits_in(s, start, hi) > 0 && value <= u64::MAX {
            value as u64
        } else {
            0
        },
        None => 0,
    }
}

/// A number only grows as more digits follow.
proof fn lemma_number_grows(s: Seq<char>, lo: int, mid: int, hi: int)
    requires
        lo <= mid <= hi,
    ensures
        number_in(s, lo, mid) is None ==> number_in(s, lo, hi) is None,
        number_in(s, lo, hi) is Some ==> number_in(s, lo, mid) is Some && number_in(
            s,
            lo,
            mid,
        )->0 <= number_in(s, lo, hi)->0,
    decreases hi - mid,
{
    if mid < hi {
        lemma_number_grows(s, lo, mid, hi - 1);
    }
}

/// Reads the size that the part between `lo` and `hi` states.
pub fn read_size(chars: &Vec<char>, lo: usize, hi: usize) -> (size: u64)
    requires
        lo <= hi <= chars.len(),
    ensures
        size == size_in(chars@, lo as int, hi as int),
{
    let first = skip(chars, CharClass::Only(','), lo, hi);
    let start = if first < hi && chars[first] == '+' {
        first + 1
    } else {
        lo
    };
    let mut value: u64 = 0;
    let mut digits: usize = 0;
    let mut k = start;
    while k < hi
        invariant
            lo <= start <= k <= hi <= chars.len(),
            start == digits_start(chars@, lo as int, hi as int),
            number_in(chars@, start as int, k as int) == Some(value as nat),
            digits == digits_in(chars@, start as int, k as int),
            digits <= k - start,
        decreases hi - k,
    {
        let c = chars[k];
        let code = c as u32;
        if c == ',' {
        } else if 48 <= code && code <= 57 {
            let digit = (code - 48) as u64;
            assert(digit_value(c) == Some(digit as nat));
            let next = match value.checked_mul(10) {
                Some(tens) => tens.checked_add(digit),
                None => None,
            };
            match next {
                Some(next) => {
                    value = next;
                    digits = digits + 1;
                },
                None => {
                    proof {
                        assert(number_in(chars@, start as int, k + 1) == Some(
                            (10 * value + digit) as nat,
                        ));
                        lemma_number_grows(chars@, start as int, k + 1, hi as int);
                    }
                    return 0;
                },
            }
        } else {
            proof {
                assert(digit_value(c) is None);
                assert(number_in(chars@, start as int, k + 1) is None);
                lemma_number_grows(chars@, start as int, k + 1, hi as int);
            }
            return 0;
        }
        k = k + 1;
    }
    if digits > 0 {
        value
    } else {
        0
    }
}

/// The words between `from` and `to`: the longest runs of characters that
/// are not white space, in their order.
pub open spec fn words_in(s: Seq<char>, from: int, to: int) -> Seq<Seq<char>>
    decreases to - from,
{
    let begin = skip_class(s, CharClass::Space, from, to);
    if from >= to || begin >= to {
        Seq::empty()
    } else {
        let end = seek_class(s, CharClass::Space, begin, to);
        if from <= begin < end <= to {
            seq![s.subrange(begin, end)] + words_in(s, end, to)
        } else {
            Seq::empty()
        }
    }
}

/// The words of a text.
pub open spec fn words_of(s: Seq<char>) -> Seq<Seq<char>> {
    words_in(s, 0, s.len() as int)
}

/// Cuts a text into its words.
pub fn split_words(text: &str) -> (words: Vec<String>)
    ensures
        words.deep_view() == words_of(text@),
{
    let chars = chars_of(text);
    let n = chars.len();
    let mut words: Vec<String> = Vec::new();
    let mut at: usize = 0;
    loop
        invariant_except_break
            words.deep_view() + words_in(chars@, at as int, n as int) == words_of(chars@),
        invariant
            n == chars.len(),
            at <= n,
        ensures
            words.deep_view() == words_of(chars@),
        decreases n - at,
    {
        let begin = skip(&chars, CharClass::Space, at, n);
        if at >= n || begin >= n {
            assert(words_in(chars@, at as int, n as int) =~= Seq::<Seq<char>>::empty());
            assert(words.deep_view() + Seq::<Seq<char>>::empty() =~= words.deep_view());
            break;
        }
        let end = seek(&chars, CharClass::Space, begin, n);
        proof {
            lemma_scans(chars@, CharClass::Space, at as int, n as int);
            lemma_scans(chars@, CharClass::Space, begin as int, n as int);
        }
        assert(end > begin);
        let ghost before = words.deep_view();
        let word = text_of(&chars, begin, end);
        words.push(word);
        assert(words.deep_view() =~= before.push(word@));
        assert(before.push(word@) + words_in(chars@, end as int, n as int) =~= before + (seq![
            word@,
        ] + words_in(chars@, end as int, n as int)));
        at = end;
    }
    words
}

/// `s` from `from` on, with `with` in the place of every occurrence of
/// `pattern`, found from the left, one occurrence beginning behind the end
/// of the one before. The empty pattern occurs before every character and
/// at the end.
pub open spec fn replaced_from(s: Seq<char>, pattern: Seq<char>, with: Seq<char>, from: int) -> Seq<
    char,
>
    decreases s.len() - from,
{
    if from < 0 || from > s.len() {
        Seq::empty()
    } else if pattern.len() == 0 {
        if from == s.len() {
            with
        } else {
            with + seq![s[from]] + replaced_from(s, pattern, with, from + 1)
        }
    } else if from == s.len() {
        Seq::empty()
    } else if stands_at(s, pattern, from) {
        with + replaced_from(s, pattern, with, from + pattern.len())
    } else {
        seq![s[from]] + replaced_from(s, pattern, with, from + 1)
    }
}

/// `s` with `with` in the place of every occurrence of `pattern`.
pub open spec fn replaced(s: Seq<char>, pattern: Seq<char>, with: Seq<char>) -> Seq<char> {
    replaced_from(s, pattern, with, 0)
}

/// Puts `with` in the place of every occurrence of `pattern` in `text`.
pub fn replace_all(text: &str, pattern: &str, with: &str) -> (out: String)
    ensures
        out@ == replaced(text@, pattern@, with@),
{
    let chars = chars_of(text);
    let find = chars_of(pattern);
    let n = chars.len();
    let mut out = String::new();
    let mut at: usize = 0;
    while at < n
        invariant
            n == chars.len(),
            at <= n,
            chars@ == text@,
            find@ == pattern@,
            out@ + replaced_from(chars@, find@, with@, at as int) == replaced(
                chars@,
                find@,
                with@,
            ),
        decreases n - at,
    {
        let ghost before = out@;
        if find.len() == 0 {
            out.append(with);
            push_char(&mut out, chars[at]);
            assert((before + with@).push(chars[at as int]) + replaced_from(
                chars@,
                find@,
                with@,
                at + 1,
            ) =~= before + (with@ + seq![chars[at as int]] + replaced_from(
                chars@,
                find@,
                with@,
                at + 1,
            )));
            at = at + 1;
        } else if is_at(&chars, &find, at) {
            out.append(with);
            assert(before + with@ + replaced_from(chars@, find@, with@, at + find.len())
                =~= before + (with@ + replaced_from(chars@, find@, with@, at + find.len())));
            at = at + find.len();
        } else {
            push_char(&mut out, chars[at]);
            assert(before.push(chars[at as int]) + replaced_from(chars@, find@, with@, at + 1)
                =~= before + (seq![chars[at as int]] + replaced_from(
                chars@,
                find@,
                with@,
                at + 1,
            )));
            at = at + 1;
        }
    }
    if find.len() == 0 {
        out.append(with);
    } else {
        assert(out@ + Seq::<char>::empty() =~= out@);
    }
    out
}

} // verus!
