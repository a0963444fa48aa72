//! Character level helpers for strings: conversion to and from character
//! vectors, trimming, splitting and searching.
use vstd::prelude::*;
use vstd::string::StrSliceExecFns;

verus! {

/// Whether `c` has the Unicode property White_Space.
pub open spec fn spec_is_whitespace(c: char) -> bool {
    let u = c as u32;
    ||| 0x09 <= u <= 0x0d
    ||| u == 0x20
    ||| u == 0x85
    ||| u == 0xa0
    ||| u == 0x1680
    ||| 0x2000 <= u <= 0x200a
    ||| u == 0x2028
    ||| u == 0x2029
    ||| u == 0x202f
    ||| u == 0x205f
    ||| u == 0x3000
}

/// The string that std's `str::to_lowercase` returns for `s` (Unicode
/// lowercase mapping), for a text that is not all ASCII.
pub uninterp spec fn unicode_lowercase(s: Seq<char>) -> Seq<char>;

/// Every character of `s` is ASCII.
pub open spec fn is_ascii(s: Seq<char>) -> bool {
    forall|i: int| 0 <= i < s.len() ==> (#[trigger] s[i] as u32) < 128
}

/// ASCII lower case of a character: `A` to `Z` become `a` to `z`, others
/// stay.
pub open spec fn ascii_lower_char(c: char) -> char {
    if 'A' <= c <= 'Z' {
        ((c as int) + 32) as char
    } else {
        c
    }
}

/// Lower case form of a text, as `str::to_lowercase` gives it: on ASCII
/// text each upper case letter becomes its lower case letter.
pub open spec fn spec_lowercase(s: Seq<char>) -> Seq<char> {
    if is_ascii(s) {
        s.map_values(|c: char| ascii_lower_char(c))
    } else {
        unicode_lowercase(s)
    }
}

/// Calls `char::is_whitespace`, which tells whether the character has the
/// Unicode property White_Space.
#[verifier::external_body]
pub(crate) fn is_whitespace(c: char) -> (r: bool)
    ensures
        r == spec_is_whitespace(c),
{
    c.is_whitespace()
}

/// Calls `str::to_lowercase`, which maps the text by the Unicode lower
/// case mapping. On ASCII text that is the ASCII lower case of each
/// character; on other text the result is named by `unicode_lowercase` and
/// nothing else is claimed of it.
#[verifier::external_body]
pub(crate) fn lowercase(s: &str) -> (r: String)
    ensures
        r@ == spec_lowercase(s@),
        !is_ascii(s@) ==> r@ == unicode_lowercase(s@),
{
    s.to_lowercase()
}

/// Calls `String::push`, which appends the character to the string.
#[verifier::external_body]
pub(crate) fn push_char(s: &mut String, c: char)
    ensures
        final(s)@ == old(s)@.push(c),
{
    s.push(c)
}

/// Characters of a string.
pub fn to_chars(s: &str) -> (r: Vec<char>)
    ensures
        r@ == s@,
{
    let n = s.unicode_len();
    let mut r: Vec<char> = Vec::new();
    let mut i: usize = 0;
    while i < n
        invariant
            n == s@.len(),
            i <= n,
            r@ == s@.subrange(0, i as int),
        decreases n - i,
    {
        let c = s.get_char(i);
        r.push(c);
        i = i + 1;
    }
    r
}

/// String made of the characters `s[start..end]`.
pub fn from_chars(s: &Vec<char>, start: usize, end: usize) -> (r: String)
    requires
        start <= end <= s@.len(),
    ensures
        r@ == s@.subrange(start as int, end as int),
{
    let mut r = String::new();
    let mut i: usize = start;
    while i < end
        invariant
            start <= i <= end <= s@.len(),
            r@ == s@.subrange(start as int, i as int),
        decreases end - i,
    {
        push_char(&mut r, s[i]);
        i = i + 1;
    }
    r
}

/// Append the characters `s[start..end]` to `out`.
pub fn append_chars(out: &mut String, s: &Vec<char>, start: usize, end: usize)
    requires
        start <= end <= s@.len(),
    ensures
        final(out)@ == old(out)@ + s@.subrange(start as int, end as int),
{
    let mut i: usize = start;
    while i < end
        invariant
            start <= i <= end <= s@.len(),
            out@ == old(out)@ + s@.subrange(start as int, i as int),
        decreases end - i,
    {
        push_char(out, s[i]);
        i = i + 1;
    }
}

/// Append a string to `out`.
pub fn append_str(out: &mut String, s: &str)
    ensures
        final(out)@ == old(out)@ + s@,
{
    let chars = to_chars(s);
    append_chars(out, &chars, 0, chars.len());
    assert(chars@.subrange(0, chars@.len() as int) =~= s@);
}

/// Concatenation of two strings.
pub fn concat(a: &str, b: &str) -> (r: String)
    ensures
        r@ == a@ + b@,
{
    let mut r = String::new();
    append_str(&mut r, a);
    append_str(&mut r, b);
    assert(Seq::<char>::empty() + a@ + b@ =~= a@ + b@);
    r
}

/// Index of the first character of `s` that is not whitespace.
pub open spec fn trim_start_index(s: Seq<char>) -> int
    decreases s.len(),
{
    if s.len() == 0 || !spec_is_whitespace(s[0]) {
        0
    } else {
        1 + trim_start_index(s.drop_first())
    }
}

/// Index past the last character of `s` that is not whitespace.
pub open spec fn trim_end_index(s: Seq<char>) -> int
    decreases s.len(),
{
    if s.len() == 0 || !spec_is_whitespace(s.last()) {
        s.len() as int
    } else {
        trim_end_index(s.drop_last())
    }
}

/// `s` without leading and trailing whitespace.
pub open spec fn spec_trim(s: Seq<char>) -> Seq<char> {
    let a = trim_start_index(s);
    if a >= s.len() {
        Seq::empty()
    } else {
        s.subrange(a, trim_end_index(s))
    }
}

pub(crate) proof fn lemma_trim_start(s: Seq<char>, i: int)
    requires
        0 <= i <= s.len(),
        forall|k: int| 0 <= k < i ==> spec_is_whitespace(#[trigger] s[k]),
    ensures
        trim_start_index(s) >= i,
        i < s.len() && !spec_is_whitespace(s[i]) ==> trim_start_index(s) == i,
        trim_start_index(s) <= s.len(),
    decreases i,
{
    if i > 0 {
        assert forall|k: int| 0 <= k < i - 1 implies spec_is_whitespace(
            #[trigger] s.drop_first()[k],
        ) by {
            assert(s.drop_first()[k] == s[k + 1]);
        }
        lemma_trim_start(s.drop_first(), i - 1);
    } else {
        lemma_trim_start_le(s);
    }
}

proof fn lemma_trim_start_le(s: Seq<char>)
    ensures
        0 <= trim_start_index(s) <= s.len(),
    decreases s.len(),
{
    if s.len() > 0 {
        lemma_trim_start_le(s.drop_first());
    }
}

pub(crate) proof fn lemma_trim_end(s: Seq<char>, j: int)
    requires
        0 <= j <= s.len(),
        forall|k: int| j <= k < s.len() ==> spec_is_whitespace(#[trigger] s[k]),
    ensures
        trim_end_index(s) <= j,
        j > 0 && !spec_is_whitespace(s[j - 1]) ==> trim_end_index(s) == j,
        trim_end_index(s) >= 0,
    decreases s.len() - j,
{
    if j < s.len() {
        assert forall|k: int| j <= k < s.len() - 1 implies spec_is_whitespace(
            #[trigger] s.drop_last()[k],
        ) by {
            assert(s.drop_last()[k] == s[k]);
        }
        assert(spec_is_whitespace(s.last()));
        lemma_trim_end(s.drop_last(), j);
    } else {
        lemma_trim_end_ge(s);
    }
}

proof fn lemma_trim_end_ge(s: Seq<char>)
    ensures
        0 <= trim_end_index(s) <= s.len(),
    decreases s.len(),
{
    if s.len() > 0 {
        lemma_trim_end_ge(s.drop_last());
    }
}

/// The characters before the trimmed start are whitespace, the one at it
/// is not; the characters from the trimmed end on are whitespace, the one
/// before it is not.
proof fn lemma_trim_chars(s: Seq<char>)
    ensures
        0 <= trim_start_index(s) <= s.len(),
        forall|k: int| 0 <= k < trim_start_index(s) ==> spec_is_whitespace(#[trigger] s[k]),
        trim_start_index(s) < s.len() ==> !spec_is_whitespace(s[trim_start_index(s)]),
        0 <= trim_end_index(s) <= s.len(),
        forall|k: int| trim_end_index(s) <= k < s.len() ==> spec_is_whitespace(#[trigger] s[k]),
        trim_end_index(s) > 0 ==> !spec_is_whitespace(s[trim_end_index(s) - 1]),
    decreases s.len(),
{
    if s.len() > 0 {
        lemma_trim_chars(s.drop_first());
        lemma_trim_chars(s.drop_last());
        assert forall|k: int| 0 <= k < trim_start_index(s) implies spec_is_whitespace(#[trigger] s[k]) by {
            if k > 0 {
                assert(s[k] == s.drop_first()[k - 1]);
            }
        }
        assert forall|k: int| trim_end_index(s) <= k < s.len() implies spec_is_whitespace(#[trigger] s[k]) by {
            if k < s.len() - 1 {
                assert(s[k] == s.drop_last()[k]);
            }
        }
        if trim_end_index(s) > 0 && trim_end_index(s) < s.len() {
            assert(s[trim_end_index(s) - 1] == s.drop_last()[trim_end_index(s) - 1]);
        }
    }
}

/// A whitespace character in front of a text does not change its trimmed
/// form.
pub proof fn lemma_trim_space_before(c: char, v: Seq<char>)
    requires
        spec_is_whitespace(c),
    ensures
        spec_trim(seq![c] + v) == spec_trim(v),
{
    let t = seq![c] + v;
    assert(t.drop_first() =~= v);
    lemma_trim_chars(v);
    lemma_trim_chars(t);
    let a = trim_start_index(v);
    let e = trim_end_index(v);
    if a < v.len() {
        assert(a < e) by {
            if e <= a {
                assert(spec_is_whitespace(v[a]));
            }
        }
        assert forall|k: int| 1 + e <= k < t.len() implies spec_is_whitespace(#[trigger] t[k]) by {
            assert(t[k] == v[k - 1]);
        }
        assert(t[e] == v[e - 1]);
        lemma_trim_end(t, 1 + e);
        assert(spec_trim(t) =~= spec_trim(v));
    }
}

/// A whitespace character after a text that is its own trimmed form does
/// not change its trimmed form.
pub proof fn lemma_trim_space_after(v: Seq<char>, c: char)
    requires
        spec_is_whitespace(c),
        spec_trim(v) == v,
    ensures
        spec_trim(v + seq![c]) == v,
{
    let t = v + seq![c];
    assert(t.drop_last() =~= v);
    lemma_trim_chars(v);
    lemma_trim_chars(t);
    if v.len() > 0 {
        let a = trim_start_index(v);
        assert(a < v.len());
        assert(trim_end_index(v) - a == v.len());
        assert(a == 0);
        assert(t[0] == v[0]);
        lemma_trim_start(t, 0);
        assert(spec_trim(t) =~= v);
    } else {
        assert(t[0] == c);
        assert(trim_start_index(t.drop_first()) == 0);
    }
}

/// A text that neither starts nor ends with whitespace is its own trimmed
/// form.
pub proof fn lemma_trim_plain(s: Seq<char>)
    requires
        s.len() > 0,
        !spec_is_whitespace(s[0]),
        !spec_is_whitespace(s.last()),
    ensures
        spec_trim(s) == s,
{
    lemma_trim_start(s, 0);
    lemma_trim_end(s, s.len() as int);
    assert(spec_trim(s) =~= s);
}

/// The lower case form of ASCII text is ASCII, keeps each character that is
/// not an upper case letter (`=` and whitespace among them), is its own
/// lower case form, and has no whitespace around it where the text has none.
pub proof fn lemma_lowercase_ascii(s: Seq<char>)
    requires
        is_ascii(s),
    ensures
        spec_lowercase(s).len() == s.len(),
        is_ascii(spec_lowercase(s)),
        forall|i: int| 0 <= i < s.len() ==> (#[trigger] spec_lowercase(s)[i] == '=') == (s[i] == '='),
        spec_lowercase(spec_lowercase(s)) == spec_lowercase(s),
        spec_trim(s) == s ==> spec_trim(spec_lowercase(s)) == spec_lowercase(s),
{
    let l = spec_lowercase(s);
    assert forall|i: int| 0 <= i < s.len() implies (#[trigger] l[i] as u32) < 128 && (l[i] == '=') == (s[i] == '=')
        && spec_is_whitespace(l[i]) == spec_is_whitespace(s[i]) && !('A' <= l[i] <= 'Z') by {
        assert((s[i] as u32) < 128);
    }
    assert(spec_lowercase(l) =~= l);
    if spec_trim(s) == s && s.len() > 0 {
        lemma_trim_chars(s);
        let a = trim_start_index(s);
        assert(a < s.len());
        assert(trim_end_index(s) - a == s.len());
        lemma_trim_plain(l);
    }
}

/// Trimming takes the whitespace off both ends of a text and nothing else:
/// the trimmed text neither starts nor ends with whitespace, and the text
/// is whitespace, then the trimmed text, then whitespace.
pub proof fn law_trim(s: Seq<char>)
    ensures
        ({
            let t = spec_trim(s);
            &&& t.len() > 0 ==> !spec_is_whitespace(t[0]) && !spec_is_whitespace(t.last())
            &&& exists|a: int|
                0 <= a && a + t.len() <= s.len() && #[trigger] s.subrange(a, a + t.len()) == t && (forall|k: int|
                    0 <= k < a ==> spec_is_whitespace(#[trigger] s[k])) && (forall|k: int|
                    a + t.len() <= k < s.len() ==> spec_is_whitespace(#[trigger] s[k]))
        }),
{
    lemma_trim_chars(s);
    let t = spec_trim(s);
    let a = trim_start_index(s);
    let e = trim_end_index(s);
    if a >= s.len() {
        assert(s.subrange(s.len() as int, s.len() as int) =~= t);
        assert(forall|k: int| 0 <= k < s.len() ==> spec_is_whitespace(#[trigger] s[k]));
    } else {
        assert(a < e) by {
            if e <= a {
                assert(spec_is_whitespace(s[a]));
            }
        }
        assert(s.subrange(a, a + t.len()) =~= t);
        assert(t[0] == s[a]);
        assert(t.last() == s[e - 1]);
    }
}

/// Bounds `[start, end)` of `s` without leading and trailing whitespace.
pub fn trim_bounds(s: &Vec<char>) -> (r: (usize, usize))
    ensures
        r.0 <= r.1 <= s@.len(),
        s@.subrange(r.0 as int, r.1 as int) == spec_trim(s@),
{
    let n = s.len();
    let mut i: usize = 0;
    while i < n && is_whitespace(s[i])
        invariant
            i <= n == s@.len(),
            forall|k: int| 0 <= k < i ==> spec_is_whitespace(#[trigger] s@[k]),
        decreases n - i,
    {
        i = i + 1;
    }
    proof {
        lemma_trim_start(s@, i as int);
    }
    if i == n {
        assert(s@.subrange(i as int, i as int) =~= Seq::<char>::empty());
        return (i, i);
    }
    let mut j: usize = n;
    while j > i && is_whitespace(s[j - 1])
        invariant
            i < n == s@.len(),
            i <= j <= n,
            !spec_is_whitespace(s@[i as int]),
            forall|k: int| j <= k < n ==> spec_is_whitespace(#[trigger] s@[k]),
        decreases j,
    {
        j = j - 1;
    }
    proof {
        lemma_trim_end(s@, j as int);
    }
    (i, j)
}

/// `s` without leading and trailing whitespace.
pub fn trim(s: &str) -> (r: String)
    ensures
        r@ == spec_trim(s@),
{
    let chars = to_chars(s);
    let (a, b) = trim_bounds(&chars);
    from_chars(&chars, a, b)
}

/// `i` is the position of the first occurrence of `c` in `s`.
pub open spec fn is_first(s: Seq<char>, c: char, i: int) -> bool {
    0 <= i < s.len() && s[i] == c && forall|k: int| 0 <= k < i ==> s[k] != c
}

/// `i` is the position of the last occurrence of `c` in `s`.
pub open spec fn is_last(s: Seq<char>, c: char, i: int) -> bool {
    0 <= i < s.len() && s[i] == c && forall|k: int| i < k < s.len() ==> s[k] != c
}

/// Position of the first occurrence of `c` in `s`, if any.
pub open spec fn first_index_of(s: Seq<char>, c: char) -> Option<int> {
    if exists|i: int| is_first(s, c, i) {
        Some(choose|i: int| is_first(s, c, i))
    } else {
        None
    }
}

/// Position of the last occurrence of `c` in `s`, if any.
pub open spec fn last_index_of(s: Seq<char>, c: char) -> Option<int> {
    if exists|i: int| is_last(s, c, i) {
        Some(choose|i: int| is_last(s, c, i))
    } else {
        None
    }
}

/// The first occurrence is unique.
pub proof fn lemma_first_index_of(s: Seq<char>, c: char, i: int)
    requires
        is_first(s, c, i),
    ensures
        first_index_of(s, c) == Some(i),
{
    let j = choose|j: int| is_first(s, c, j);
    assert(is_first(s, c, j));
    if j < i {
        assert(s[j] != c);
    } else if i < j {
        assert(s[i] != c);
    }
}

/// The last occurrence is unique.
pub proof fn lemma_last_index_of(s: Seq<char>, c: char, i: int)
    requires
        is_last(s, c, i),
    ensures
        last_index_of(s, c) == Some(i),
{
    let j = choose|j: int| is_last(s, c, j);
    assert(is_last(s, c, j));
    if j < i {
        assert(s[i] != c);
    } else if i < j {
        assert(s[j] != c);
    }
}

/// Position of the first occurrence of `c` in `s`.
pub fn find_char(s: &Vec<char>, c: char) -> (r: Option<usize>)
    ensures
        r == (match first_index_of(s@, c) {
            Some(i) => Some(i as usize),
            None => None,
        }),
        match r {
            Some(i) => i < s@.len() && s@[i as int] == c && forall|k: int|
                0 <= k < i ==> s@[k] != c,
            None => forall|k: int| 0 <= k < s@.len() ==> s@[k] != c,
        },
{
    let mut i: usize = 0;
    while i < s.len()
        invariant
            i <= s@.len(),
            forall|k: int| 0 <= k < i ==> s@[k] != c,
        decreases s.len() - i,
    {
        if s[i] == c {
            proof {
                lemma_first_index_of(s@, c, i as int);
            }
            return Some(i);
        }
        i = i + 1;
    }
    None
}

/// Position of the last occurrence of `c` in `s`.
pub fn rfind_char(s: &Vec<char>, c: char) -> (r: Option<usize>)
    ensures
        r == (match last_index_of(s@, c) {
            Some(i) => Some(i as usize),
            None => None,
        }),
        match r {
            Some(i) => i < s@.len() && s@[i as int] == c && forall|k: int|
                i < k < s@.len() ==> s@[k] != c,
            None => forall|k: int| 0 <= k < s@.len() ==> s@[k] != c,
        },
{
    let mut i: usize = s.len();
    while i > 0
        invariant
            i <= s@.len(),
            forall|k: int| i <= k < s@.len() ==> s@[k] != c,
        decreases i,
    {
        if s[i - 1] == c {
            proof {
                lemma_last_index_of(s@, c, i - 1);
            }
            return Some(i - 1);
        }
        i = i - 1;
    }
    None
}

/// Whether two character sequences are equal.
pub fn chars_eq(a: &Vec<char>, b: &Vec<char>) -> (r: bool)
    ensures
        r == (a@ == b@),
{
    if a.len() != b.len() {
        return false;
    }
    let mut i: usize = 0;
    while i < a.len()
        invariant
            a@.len() == b@.len(),
            i <= a@.len(),
            forall|k: int| 0 <= k < i ==> a@[k] == b@[k],
        decreases a.len() - i,
    {
        if a[i] != b[i] {
            return false;
        }
        i = i + 1;
    }
    assert(a@ =~= b@);
    true
}

/// Whether `s` equals the string `t`.
pub fn str_eq(s: &str, t: &str) -> (r: bool)
    ensures
        r == (s@ == t@),
{
    let a = to_chars(s);
    let b = to_chars(t);
    chars_eq(&a, &b)
}

} // verus!
