//! String utilities of the control agent: parsing an IIP literal
//! (`edge:value` with an optional `~action` tag) and deriving camel-case
//! identifiers from edge names.

use vstd::prelude::*;
use vstd::string::*;

verus! {

/// Error raised when an IIP literal lacks the `:` separator.
#[derive(Clone, Copy, Debug, PartialEq, Eq, Structural)]
pub enum ParseError {
    BadIipSyntax,
}

/// Uppercases an ASCII lowercase letter; leaves every other character alone.
pub open spec fn upper_char(c: char) -> char {
    if 'a' <= c && c <= 'z' {
        (((c as u8) - 0x20) as u8) as char
    } else {
        c
    }
}

/// Camel-casing of the suffix of a string, where `start` says whether the
/// next non-separator character opens a segment. Segments are separated by
/// `'_'`; the first character of each segment is uppercased; empty segments
/// contribute nothing.
pub open spec fn camel_rec(s: Seq<char>, start: bool) -> Seq<char>
    decreases s.len(),
{
    if s.len() == 0 {
        Seq::empty()
    } else if s[0] == '_' {
        camel_rec(s.skip(1), true)
    } else if start {
        seq![upper_char(s[0])] + camel_rec(s.skip(1), false)
    } else {
        seq![s[0]] + camel_rec(s.skip(1), false)
    }
}

/// Splits on `'_'`, capitalizes the first character of each segment, and
/// concatenates the segments with no separator.
pub open spec fn camel_of(s: Seq<char>) -> Seq<char> {
    camel_rec(s, true)
}

/// Index of the first occurrence of `c` in `s`, if any.
pub open spec fn find_char(s: Seq<char>, c: char) -> Option<int>
    decreases s.len(),
{
    if s.len() == 0 {
        None
    } else if s[0] == c {
        Some(0)
    } else {
        match find_char(s.skip(1), c) {
            None => None,
            Some(i) => Some(i + 1),
        }
    }
}

/// Index of the last occurrence of `c` in `s`, if any.
pub open spec fn rfind_char(s: Seq<char>, c: char) -> Option<int>
    decreases s.len(),
{
    if s.len() == 0 {
        None
    } else if s.last() == c {
        Some(s.len() - 1)
    } else {
        rfind_char(s.drop_last(), c)
    }
}

/// The segment of `s` after its last `'-'`; all of `s` when it has none.
pub open spec fn last_dash_segment(s: Seq<char>) -> Seq<char> {
    match rfind_char(s, '-') {
        None => s,
        Some(p) => s.skip(p + 1),
    }
}

/// Meaning of an IIP literal `edge:value[~action]`: `None` when the `:`
/// separator is missing; otherwise the edge, the value and the optional
/// action tag, where `~` is searched only after the `:`.
pub open spec fn split_input_spec(s: Seq<char>) -> Option<(Seq<char>, Seq<char>, Option<Seq<char>>)> {
    match find_char(s, ':') {
        None => None,
        Some(p) => {
            let edge = s.take(p);
            let rest = s.skip(p + 1);
            match find_char(rest, '~') {
                None => Some((edge, rest, None)),
                Some(q) => Some((edge, rest.take(q), Some(rest.skip(q + 1)))),
            }
        },
    }
}

/// View of an optional owned string.
pub open spec fn opt_view(o: Option<String>) -> Option<Seq<char>> {
    match o {
        None => None,
        Some(s) => Some(s@),
    }
}

/// Relies on std's `String::push`: appends exactly one character.
#[verifier::external_body]
pub(crate) fn push_char(s: &mut String, c: char)
    ensures
        final(s)@ == old(s)@.push(c),
{
    s.push(c);
}

fn upper_ascii(c: char) -> (r: char)
    ensures
        r == upper_char(c),
{
    if 'a' <= c && c <= 'z' {
        ((c as u8) - 0x20) as char
    } else {
        c
    }
}

/// Character-wise string equality.
pub fn str_eq(a: &str, b: &str) -> (r: bool)
    ensures
        r == (a@ == b@),
{
    let alen = a.unicode_len();
    let blen = b.unicode_len();
    if alen != blen {
        return false;
    }
    let mut i: usize = 0;
    while i < alen
        invariant
            i <= alen,
            alen == a@.len(),
            alen == b@.len(),
            forall|j: int| 0 <= j < i ==> a@[j] == b@[j],
        decreases alen - i,
    {
        if a.get_char(i) != b.get_char(i) {
            return false;
        }
        i += 1;
    }
    proof {
        assert(a@ =~= b@);
    }
    true
}

/// Capitalizes the first character of a non-empty string.
pub fn capitalize_first_letter(s: &str) -> (r: String)
    requires
        s@.len() > 0,
    ensures
        r@ == seq![upper_char(s@[0])] + s@.skip(1),
{
    let len = s.unicode_len();
    let c = s.get_char(0);
    let mut r = String::new();
    push_char(&mut r, upper_ascii(c));
    let rest = s.substring_char(1, len);
    r.append(rest);
    proof {
        assert(r@ =~= seq![upper_char(s@[0])] + s@.skip(1));
    }
    r
}

/// Splits on `'_'`, capitalizes the first character of each segment, and
/// concatenates with no separator; empty segments are skipped.
pub fn to_camel_case(s: &str) -> (r: String)
    ensures
        r@ == camel_of(s@),
{
    let len = s.unicode_len();
    let mut r = String::new();
    let mut start = true;
    let mut i: usize = 0;
    proof {
        assert(s@.skip(0) =~= s@);
    }
    while i < len
        invariant
            i <= len,
            len == s@.len(),
            r@ + camel_rec(s@.skip(i as int), start) == camel_of(s@),
        decreases len - i,
    {
        proof {
            assert(s@.skip(i as int)[0] == s@[i as int]);
            assert(s@.skip(i as int).skip(1) =~= s@.skip(i as int + 1));
        }
        let c = s.get_char(i);
        if c == '_' {
            start = true;
        } else if start {
            push_char(&mut r, upper_ascii(c));
            start = false;
            proof {
                assert(r@ =~= (r@.drop_last() + seq![upper_char(s@[i as int])]));
                assert(r@ + camel_rec(s@.skip(i as int + 1), false) =~= r@.drop_last()
                    + camel_rec(s@.skip(i as int), true));
            }
        } else {
            push_char(&mut r, c);
            proof {
                assert(r@ =~= (r@.drop_last() + seq![s@[i as int]]));
                assert(r@ + camel_rec(s@.skip(i as int + 1), false) =~= r@.drop_last()
                    + camel_rec(s@.skip(i as int), false));
            }
        }
        i += 1;
    }
    proof {
        assert(s@.skip(len as int) =~= Seq::<char>::empty());
        assert(r@ =~= r@ + camel_rec(s@.skip(len as int), start));
    }
    r
}

proof fn lemma_find_char_from(s: Seq<char>, c: char, i: int)
    requires
        0 <= i <= s.len(),
        forall|j: int| 0 <= j < i ==> s[j] != c,
    ensures
        find_char(s, c) == (match find_char(s.skip(i), c) {
            None => None::<int>,
            Some(k) => Some(k + i),
        }),
    decreases i,
{
    if i > 0 {
        lemma_find_char_from(s, c, i - 1);
        assert(s.skip(i - 1)[0] == s[i - 1]);
        assert(s.skip(i - 1).skip(1) =~= s.skip(i));
    } else {
        assert(s.skip(0) =~= s);
    }
}

/// Finds the first occurrence of `c` in `s`.
pub fn find_char_at(s: &str, c: char) -> (r: Option<usize>)
    ensures
        match r {
            Some(p) => find_char(s@, c) == Some(p as int) && p < s@.len() && s@[p as int] == c
                && (forall|j: int| 0 <= j < p ==> s@[j] != c),
            None => find_char(s@, c) is None && (forall|j: int| 0 <= j < s@.len() ==> s@[j] != c),
        },
{
    let len = s.unicode_len();
    let mut i: usize = 0;
    while i < len
        invariant
            i <= len,
            len == s@.len(),
            forall|j: int| 0 <= j < i ==> s@[j] != c,
        decreases len - i,
    {
        if s.get_char(i) == c {
            proof {
                lemma_find_char_from(s@, c, i as int);
                assert(s@.skip(i as int)[0] == s@[i as int]);
            }
            return Some(i);
        }
        i += 1;
    }
    proof {
        lemma_find_char_from(s@, c, len as int);
        assert(s@.skip(len as int) =~= Seq::<char>::empty());
    }
    None
}

proof fn lemma_rfind_char_from(s: Seq<char>, c: char, i: int)
    requires
        0 <= i <= s.len(),
        forall|j: int| i <= j < s.len() ==> s[j] != c,
    ensures
        rfind_char(s, c) == rfind_char(s.take(i), c),
    decreases s.len() - i,
{
    if i == s.len() {
        assert(s.take(i) =~= s);
    } else {
        lemma_rfind_char_from(s, c, i + 1);
        assert(s.take(i + 1).last() == s[i]);
        assert(s.take(i + 1).drop_last() =~= s.take(i));
    }
}

/// Finds the last occurrence of `c` in `s`.
pub fn rfind_char_at(s: &str, c: char) -> (r: Option<usize>)
    ensures
        match r {
            Some(p) => rfind_char(s@, c) == Some(p as int) && p < s@.len(),
            None => rfind_char(s@, c) is None,
        },
{
    let len = s.unicode_len();
    let mut i: usize = len;
    while i > 0
        invariant
            i <= len,
            len == s@.len(),
            forall|j: int| i <= j < s@.len() ==> s@[j] != c,
        decreases i,
    {
        let k = i - 1;
        if s.get_char(k) == c {
            proof {
                lemma_rfind_char_from(s@, c, i as int);
                assert(s@.take(i as int).last() == s@[k as int]);
            }
            return Some(k);
        }
        i -= 1;
    }
    proof {
        lemma_rfind_char_from(s@, c, 0);
        assert(s@.take(0) =~= Seq::<char>::empty());
    }
    None
}

/// The segment of `s` after its last `'-'`; all of `s` when it has none.
pub fn last_dash_segment_of(s: &str) -> (r: String)
    ensures
        r@ == last_dash_segment(s@),
{
    match rfind_char_at(s, '-') {
        None => s.to_owned(),
        Some(p) => {
            let len = s.unicode_len();
            let r = s.substring_char(p + 1, len).to_owned();
            proof {
                assert(r@ =~= s@.skip(p as int + 1));
            }
            r
        },
    }
}

/// Parses an IIP literal `edge:value[~action]`; fails when no `:` is found.
pub fn split_input(s: &str) -> (r: Result<(String, String, Option<String>), ParseError>)
    ensures
        match r {
            Ok(t) => split_input_spec(s@) == Some((t.0@, t.1@, opt_view(t.2))),
            Err(e) => split_input_spec(s@) is None && e == ParseError::BadIipSyntax,
        },
{
    let len = s.unicode_len();
    match find_char_at(s, ':') {
        None => Err(ParseError::BadIipSyntax),
        Some(p) => {
            let edge = s.substring_char(0, p).to_owned();
            let rest = s.substring_char(p + 1, len);
            proof {
                assert(edge@ =~= s@.take(p as int));
                assert(rest@ =~= s@.skip(p as int + 1));
            }
            let rlen = rest.unicode_len();
            match find_char_at(rest, '~') {
                None => Ok((edge, rest.to_owned(), None)),
                Some(q) => {
                    let value = rest.substring_char(0, q).to_owned();
                    let action = rest.substring_char(q + 1, rlen).to_owned();
                    proof {
                        assert(value@ =~= s@.skip(p as int + 1).take(q as int));
                        assert(action@ =~= s@.skip(p as int + 1).skip(q as int + 1));
                    }
                    Ok((edge, value, Some(action)))
                },
            }
        },
    }
}

} // verus!
