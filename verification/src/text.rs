//! Small verified helpers on text. A string is viewed as its sequence of
//! characters; the helpers here move between `&str`, `String` and `Vec<char>`
//! and do the searching and stripping that the rest of the crate needs.

use crate::views::opt_count;
use vstd::prelude::*;
use vstd::utf8::{decode_utf8, valid_utf8};

verus! {

/// `String::push` appends one character to the end of the string and leaves
/// the characters before it as they were.
pub assume_specification[ String::push ](s: &mut String, ch: char)
    ensures
        final(s)@ == old(s)@.push(ch),
;

/// Whether `char::is_whitespace` holds of `c`, that is whether `c` has the
/// Unicode property `White_Space`.
pub uninterp spec fn char_is_whitespace(c: char) -> bool;

/// Calls `char::is_whitespace`. The answer depends on the character alone.
#[verifier::external_body]
fn is_whitespace(c: char) -> (r: bool)
    ensures
        r == char_is_whitespace(c),
{
    c.is_whitespace()
}

/// Calls `std::str::from_utf8`, which succeeds exactly on well-formed UTF-8
/// and then yields the text that the bytes encode.
#[verifier::external_body]
pub(crate) fn str_from_utf8(bytes: &[u8]) -> (r: Option<&str>)
    ensures
        match r {
            Some(s) => valid_utf8(bytes@) && s@ == decode_utf8(bytes@),
            None => !valid_utf8(bytes@),
        },
{
    std::str::from_utf8(bytes).ok()
}

/// The text that `bytes` encode in UTF-8, if they are well formed.
pub open spec fn utf8_text(bytes: Seq<u8>) -> Option<Seq<char>> {
    if valid_utf8(bytes) {
        Some(decode_utf8(bytes))
    } else {
        None
    }
}

/// One of the characters that end or split a record of the output: tab,
/// newline and NUL.
pub open spec fn is_separator(c: char) -> bool {
    c == '\t' || c == '\n' || c == '\0'
}

/// `s` without its separator characters; all others stay, in their order.
pub open spec fn sanitized(s: Seq<char>) -> Seq<char> {
    s.filter(|c: char| !is_separator(c))
}

/// Whether no character of `s` is a separator.
pub open spec fn is_clean(s: Seq<char>) -> bool {
    forall|i: int| 0 <= i < s.len() ==> !is_separator(#[trigger] s[i])
}

/// `s` without the whitespace at its two ends.
pub open spec fn trimmed(s: Seq<char>) -> Seq<char>
    decreases s.len(),
{
    if s.len() == 0 {
        s
    } else if char_is_whitespace(s.first()) {
        trimmed(s.drop_first())
    } else if char_is_whitespace(s.last()) {
        trimmed(s.drop_last())
    } else {
        s
    }
}

/// The index of the first `c` in `s` at or after `from`, if there is one.
pub open spec fn first_at(s: Seq<char>, from: int, c: char) -> Option<int>
    decreases s.len() - from,
{
    if from < 0 || from >= s.len() {
        None
    } else if s[from] == c {
        Some(from)
    } else {
        first_at(s, from + 1, c)
    }
}

/// The characters of `s`, in order.
pub fn chars_of(s: &str) -> (r: Vec<char>)
    ensures
        r@ == s@,
{
    let mut r: Vec<char> = Vec::new();
    for c in it: s.chars()
        invariant
            r@ == it.seq().take(it.index() as int),
    {
        r.push(c);
    }
    r
}

/// The string made of the characters `v[from..to]`.
pub fn string_of(v: &Vec<char>, from: usize, to: usize) -> (r: String)
    requires
        from <= to <= v.len(),
    ensures
        r@ == v@.subrange(from as int, to as int),
{
    let mut r = String::new();
    let mut i: usize = from;
    while i < to
        invariant
            from <= i <= to <= v.len(),
            r@ == v@.subrange(from as int, i as int),
        decreases to - i,
    {
        r.push(v[i]);
        i += 1;
    }
    r
}

/// Whether `a` and `b` hold the same characters.
pub fn chars_eq(a: &Vec<char>, b: &Vec<char>) -> (r: bool)
    ensures
        r == (a@ == b@),
{
    if a.len() != b.len() {
        return false;
    }
    let mut i: usize = 0;
    while i < a.len()
        invariant
            a.len() == b.len(),
            i <= a.len(),
            a@.take(i as int) == b@.take(i as int),
        decreases a.len() - i,
    {
        if a[i] != b[i] {
            return false;
        }
        assert(a@.take(i + 1) == a@.take(i as int).push(a@[i as int]));
        assert(b@.take(i + 1) == b@.take(i as int).push(b@[i as int]));
        i += 1;
    }
    assert(a@ == a@.take(a.len() as int));
    assert(b@ == b@.take(b.len() as int));
    true
}

/// Whether `a` and `b` are the same text.
pub fn str_eq(a: &str, b: &str) -> (r: bool)
    ensures
        r == (a@ == b@),
{
    let x = chars_of(a);
    let y = chars_of(b);
    chars_eq(&x, &y)
}

/// Whether `v` begins with the characters of `prefix`.
pub fn starts_with(v: &Vec<char>, prefix: &str) -> (r: bool)
    ensures
        r == prefix@.is_prefix_of(v@),
{
    let p = chars_of(prefix);
    if p.len() > v.len() {
        return false;
    }
    let mut i: usize = 0;
    while i < p.len()
        invariant
            p.len() <= v.len(),
            i <= p.len(),
            p@ == prefix@,
            p@.take(i as int) == v@.take(i as int),
        decreases p.len() - i,
    {
        if p[i] != v[i] {
            assert(p@[i as int] != v@.subrange(0, p.len() as int)[i as int]);
            return false;
        }
        assert(p@.take(i + 1) == p@.take(i as int).push(p@[i as int]));
        assert(v@.take(i + 1) == v@.take(i as int).push(v@[i as int]));
        i += 1;
    }
    assert(p@ == p@.take(p.len() as int));
    true
}

/// The place of the first `c` in `v` at or after `from`.
pub fn find_char(v: &Vec<char>, from: usize, c: char) -> (r: Option<usize>)
    ensures
        opt_count(r) == first_at(v@, from as int, c),
        r matches Some(i) ==> from <= i < v.len(),
{
    let mut i: usize = from;
    while i < v.len()
        invariant
            from <= i,
            first_at(v@, from as int, c) == first_at(v@, i as int, c),
        decreases v.len() - i,
    {
        if v[i] == c {
            return Some(i);
        }
        i += 1;
    }
    None
}

/// What `first_at` finds is a `c`, and no `c` stands between `from` and it;
/// where it finds nothing, no `c` stands at or after `from`.
pub proof fn lemma_first_at(s: Seq<char>, from: int, c: char)
    requires
        0 <= from,
    ensures
        match first_at(s, from, c) {
            Some(i) => from <= i < s.len() && s[i] == c && forall|j: int|
                from <= j < i ==> s[j] != c,
            None => forall|j: int| from <= j < s.len() ==> s[j] != c,
        },
    decreases s.len() - from,
{
    if from < s.len() && s[from] != c {
        lemma_first_at(s, from + 1, c);
    }
}

/// The separator-free rest of `v[from..to]`.
pub fn sanitize_chars(v: &Vec<char>, from: usize, to: usize) -> (r: String)
    requires
        from <= to <= v.len(),
    ensures
        r@ == sanitized(v@.subrange(from as int, to as int)),
{
    let mut r = String::new();
    let mut i: usize = from;
    proof {
        reveal(Seq::filter);
        assert(v@.subrange(from as int, from as int) =~= Seq::<char>::empty());
    }
    while i < to
        invariant
            from <= i <= to <= v.len(),
            r@ == sanitized(v@.subrange(from as int, i as int)),
        decreases to - i,
    {
        let c = v[i];
        proof {
            let part = v@.subrange(from as int, i as int);
            assert(v@.subrange(from as int, i + 1) =~= part.push(c));
            part.lemma_filter_push(c, |c: char| !is_separator(c));
        }
        if !(c == '\t' || c == '\n' || c == '\0') {
            r.push(c);
        }
        i += 1;
    }
    r
}

/// Strips tab, newline and NUL from `s`.
pub fn sanitize(s: &str) -> (r: String)
    ensures
        r@ == sanitized(s@),
        is_clean(r@),
{
    let v = chars_of(s);
    proof {
        assert(v@.subrange(0, v.len() as int) =~= s@);
        lemma_sanitized_is_clean(s@);
    }
    sanitize_chars(&v, 0, v.len())
}

/// Sanitizing leaves no separator behind.
pub proof fn lemma_sanitized_is_clean(s: Seq<char>)
    ensures
        is_clean(sanitized(s)),
{
    let keep = |c: char| !is_separator(c);
    assert forall|i: int| 0 <= i < sanitized(s).len() implies !is_separator(
        #[trigger] sanitized(s)[i],
    ) by {
        s.lemma_filter_pred(keep, i);
    }
}

/// Removes the whitespace at both ends of `s`.
pub fn trim(s: &str) -> (r: String)
    ensures
        r@ == trimmed(s@),
{
    let v = chars_of(s);
    let mut start: usize = 0;
    let mut end: usize = v.len();
    proof {
        assert(v@.subrange(0, v.len() as int) =~= s@);
    }
    while start < end && is_whitespace(v[start])
        invariant
            start <= end == v.len(),
            trimmed(s@) == trimmed(v@.subrange(start as int, end as int)),
        decreases end - start,
    {
        proof {
            let part = v@.subrange(start as int, end as int);
            assert(part.drop_first() =~= v@.subrange(start + 1, end as int));
        }
        start += 1;
    }
    while start < end && is_whitespace(v[end - 1])
        invariant
            start <= end <= v.len(),
            trimmed(s@) == trimmed(v@.subrange(start as int, end as int)),
            start < end ==> !char_is_whitespace(v@[start as int]),
        decreases end - start,
    {
        proof {
            let part = v@.subrange(start as int, end as int);
            assert(part.drop_last() =~= v@.subrange(start as int, end - 1));
        }
        end -= 1;
    }
    string_of(&v, start, end)
}

} // verus!
