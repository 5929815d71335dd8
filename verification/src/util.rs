//! Text helpers shared by the parser, the formatter and the library functions.

use vstd::prelude::*;

verus! {

/// The character that stands for the digit `d` (0..=9).
pub open spec fn digit_char(d: int) -> char {
    ((('0' as int) + d) as char)
}

/// The decimal digits of a natural number, most significant first.
pub open spec fn nat_text(n: nat) -> Seq<char>
    decreases n,
{
    if n < 10 {
        seq![digit_char(n as int)]
    } else {
        nat_text(n / 10) + seq![digit_char((n % 10) as int)]
    }
}

/// The decimal text of an integer, with a leading `-` for negative values.
pub open spec fn int_text(n: int) -> Seq<char> {
    if n < 0 {
        seq!['-'] + nat_text((-n) as nat)
    } else {
        nat_text(n as nat)
    }
}

/// The value of a digit character in the given radix, if it is a digit there.
/// Digits are `0-9`, then `a-z` (or `A-Z`) for the values 10 to 35.
pub open spec fn digit_value(c: char, radix: int) -> Option<int> {
    let v = if '0' <= c && c <= '9' {
        (c as int) - ('0' as int)
    } else if 'a' <= c && c <= 'z' {
        (c as int) - ('a' as int) + 10
    } else if 'A' <= c && c <= 'Z' {
        (c as int) - ('A' as int) + 10
    } else {
        radix
    };
    if v < radix {
        Some(v)
    } else {
        None
    }
}

/// The value of a non-empty run of digits in the given radix.
pub open spec fn digits_value(s: Seq<char>, radix: int) -> Option<int>
    decreases s.len(),
{
    if s.len() == 0 {
        Some(0)
    } else {
        match (digits_value(s.drop_last(), radix), digit_value(s.last(), radix)) {
            (Some(high), Some(low)) => Some(high * radix + low),
            _ => None,
        }
    }
}

/// An optional `+` or `-` sign followed by one or more digits of the radix.
pub open spec fn signed_digits_value(s: Seq<char>, radix: int) -> Option<int> {
    let negative = s.len() > 0 && s[0] == '-';
    let signed = s.len() > 0 && (s[0] == '-' || s[0] == '+');
    let body = if signed { s.drop_first() } else { s };
    if body.len() == 0 {
        None
    } else {
        match digits_value(body, radix) {
            Some(v) => Some(if negative { -v } else { v }),
            None => None,
        }
    }
}

/// What `i64::from_str_radix` gives: the signed value when it fits in an `i64`.
pub open spec fn parse_i64_spec(s: Seq<char>, radix: int) -> Option<i64> {
    match signed_digits_value(s, radix) {
        Some(v) => if i64::MIN <= v && v <= i64::MAX {
            Some(v as i64)
        } else {
            None
        },
        None => None,
    }
}

/// `char::to_string`: the one-character string.
#[verifier::external_body]
pub(crate) fn char_to_string(c: char) -> (s: String)
    ensures
        s@ == seq![c],
{
    c.to_string()
}

/// `i64::to_string`: the decimal text of the value, as `Display` writes it.
#[verifier::external_body]
pub(crate) fn i64_to_string(n: i64) -> (s: String)
    ensures
        s@ == int_text(n as int),
{
    n.to_string()
}

/// The message of the error that `i64::from_str_radix` gives for a text it
/// does not read.
pub uninterp spec fn int_parse_error_text(s: Seq<char>, radix: int) -> Seq<char>;

/// `i64::from_str_radix`: an optional sign followed by digits of the radix,
/// the value being returned when it fits in an `i64`; otherwise the
/// message of its error.
#[verifier::external_body]
pub(crate) fn parse_i64_radix(s: &str, radix: u32) -> (r: Result<i64, String>)
    requires
        2 <= radix <= 36,
    ensures
        r matches Ok(n) ==> parse_i64_spec(s@, radix as int) == Some(n),
        r matches Err(m) ==> parse_i64_spec(s@, radix as int) is None && m@ == int_parse_error_text(s@, radix as int),
{
    match i64::from_str_radix(s, radix) {
        Ok(n) => Ok(n),
        Err(e) => Err(e.to_string()),
    }
}

/// Whether two texts are the same.
pub fn str_eq(a: &str, b: &str) -> (r: bool)
    ensures
        r == (a@ == b@),
{
    let x = a.to_owned();
    let y = b.to_owned();
    x == y
}

/// The characters of a string slice.
pub fn to_chars(s: &str) -> (v: Vec<char>)
    ensures
        v@ == s@,
{
    let mut v: Vec<char> = Vec::new();
    for c in it: s.chars()
        invariant
            v@ == it.seq().take(it.index() as int),
            it.seq() == s@,
    {
        v.push(c);
    }
    v
}

/// `pat` occurs in `s` starting at index `i`.
pub open spec fn occurs_at(s: Seq<char>, pat: Seq<char>, i: int) -> bool {
    0 <= i && i + pat.len() <= s.len() && s.subrange(i, i + pat.len()) == pat
}

/// The first index at or after `from` where `pat` occurs in `s`.
pub open spec fn find_from(s: Seq<char>, pat: Seq<char>, from: int) -> Option<int>
    decreases s.len() - from,
{
    if from < 0 || from + pat.len() > s.len() {
        None
    } else if occurs_at(s, pat, from) {
        Some(from)
    } else if from < s.len() {
        find_from(s, pat, from + 1)
    } else {
        None
    }
}

/// The first index where `pat` occurs in `s`, as `str::find` gives it.
pub open spec fn find_spec(s: Seq<char>, pat: Seq<char>) -> Option<int> {
    find_from(s, pat, 0)
}

/// The last index where the character `c` occurs in `s`.
pub open spec fn rfind_char_spec(s: Seq<char>, c: char) -> Option<int>
    decreases s.len(),
{
    if s.len() == 0 {
        None
    } else if s.last() == c {
        Some(s.len() - 1)
    } else {
        rfind_char_spec(s.drop_last(), c)
    }
}

/// The index that `find_from` gives is the first occurrence at or after `from`; without one, the pattern occurs nowhere from there.
pub proof fn lemma_find_from_bounds(s: Seq<char>, pat: Seq<char>, from: int)
    requires
        0 <= from,
    ensures
        find_from(s, pat, from) matches Some(i) ==> from <= i && occurs_at(s, pat, i) && forall|j: int|
            from <= j < i ==> !occurs_at(s, pat, j),
        find_from(s, pat, from) is None ==> forall|j: int| from <= j ==> !occurs_at(s, pat, j),
    decreases s.len() - from,
{
    if from + pat.len() > s.len() {
    } else if occurs_at(s, pat, from) {
    } else if from < s.len() {
        lemma_find_from_bounds(s, pat, from + 1);
    } else {
        assert(pat.len() == 0);
        assert(s.subrange(from, from) =~= pat);
    }
}

fn occurs_at_exec(s: &Vec<char>, pat: &Vec<char>, i: usize) -> (r: bool)
    requires
        i + pat@.len() <= s@.len(),
    ensures
        r == occurs_at(s@, pat@, i as int),
{
    let mut k: usize = 0;
    while k < pat.len()
        invariant
            k <= pat@.len(),
            i + pat@.len() <= s@.len(),
            forall|j: int| 0 <= j < k ==> s@[i + j] == pat@[j],
        decreases pat@.len() - k,
    {
        assert(i + k < s.len());
        let at: usize = i + k;
        if s[at] != pat[k] {
            assert(s@.subrange(i as int, i + pat@.len())[k as int] != pat@[k as int]);
            return false;
        }
        k = k + 1;
    }
    assert(s@.subrange(i as int, i + pat@.len()) =~= pat@);
    true
}

/// The first index at or after `from` where `pat` occurs in `s`.
pub fn find_chars_from(s: &Vec<char>, pat: &Vec<char>, from: usize) -> (r: Option<usize>)
    ensures
        r matches Some(i) ==> find_from(s@, pat@, from as int) == Some(i as int),
        r is None ==> find_from(s@, pat@, from as int) is None,
        r matches Some(i) ==> i + pat@.len() <= s@.len(),
{
    let mut i: usize = from;
    if pat.len() > s.len() {
        proof { lemma_find_none_when_long(s@, pat@, from as int); }
        return None;
    }
    let last: usize = s.len() - pat.len();
    while i <= last
        invariant
            from <= i,
            pat@.len() <= s@.len(),
            last == s@.len() - pat@.len(),
            find_from(s@, pat@, from as int) == find_from(s@, pat@, i as int),
        decreases last + 1 - i,
    {
        if occurs_at_exec(s, pat, i) {
            return Some(i);
        }
        if i == last {
            proof {
                if pat@.len() == 0 {
                    assert(s@.subrange(i as int, i as int) =~= pat@);
                }
                assert(find_from(s@, pat@, i + 1) is None);
            }
            return None;
        }
        i = i + 1;
    }
    None
}

proof fn lemma_find_none_when_long(s: Seq<char>, pat: Seq<char>, from: int)
    requires
        pat.len() > s.len(),
        from >= 0,
    ensures
        find_from(s, pat, from) is None,
{
}

/// The first index where `pat` occurs in `s`.
pub fn find_chars(s: &Vec<char>, pat: &Vec<char>) -> (r: Option<usize>)
    ensures
        r matches Some(i) ==> find_spec(s@, pat@) == Some(i as int),
        r is None ==> find_spec(s@, pat@) is None,
        r matches Some(i) ==> i + pat@.len() <= s@.len(),
{
    find_chars_from(s, pat, 0)
}

/// The first index where the character `c` occurs in `s`.
pub fn find_char(s: &Vec<char>, c: char) -> (r: Option<usize>)
    ensures
        r matches Some(i) ==> find_spec(s@, seq![c]) == Some(i as int),
        r is None ==> find_spec(s@, seq![c]) is None,
        r matches Some(i) ==> i < s@.len() && s@[i as int] == c,
{
    let mut pat: Vec<char> = Vec::new();
    pat.push(c);
    assert(pat@ =~= seq![c]);
    let r = find_chars(s, &pat);
    proof {
        lemma_find_from_bounds(s@, pat@, 0);
    }
    if let Some(i) = r {
        assert(occurs_at(s@, pat@, i as int));
        assert(s@.subrange(i as int, i + 1)[0] == s@[i as int]);
    }
    r
}

/// The last index where the character `c` occurs in `s`.
pub fn rfind_char(s: &Vec<char>, c: char) -> (r: Option<usize>)
    ensures
        r matches Some(i) ==> rfind_char_spec(s@, c) == Some(i as int),
        r is None ==> rfind_char_spec(s@, c) is None,
{
    let mut i: usize = s.len();
    assert(s@.take(i as int) =~= s@);
    while i > 0
        invariant
            i <= s@.len(),
            rfind_char_spec(s@, c) == rfind_char_spec(s@.take(i as int), c),
        decreases i,
    {
        assert(s@.take(i as int).drop_last() =~= s@.take(i - 1));
        if s[i - 1] == c {
            return Some(i - 1);
        }
        i = i - 1;
    }
    None
}

/// `s` holds the character `c`.
pub fn contains_char(s: &str, c: char) -> (r: bool)
    ensures
        r == s@.contains(c),
{
    let chars = to_chars(s);
    let mut i: usize = 0;
    while i < chars.len()
        invariant
            chars@ == s@,
            i <= chars@.len(),
            forall|j: int| 0 <= j < i ==> chars@[j] != c,
        decreases chars@.len() - i,
    {
        if chars[i] == c {
            assert(s@[i as int] == c);
            return true;
        }
        i = i + 1;
    }
    false
}

/// The string made of the characters of `s` from index `from` to index `to`.
pub fn substring(s: &str, from: usize, to: usize) -> (r: String)
    requires
        from <= to <= s@.len(),
    ensures
        r@ == s@.subrange(from as int, to as int),
{
    s.substring_char(from, to).to_owned()
}

} // verus!
