//! Recognizers of literal forms: key symbols, range literals and string
//! templates.

use vstd::prelude::*;

use crate::error::Error;
use crate::expr::{push_str, text_of, Expr, Value};
use crate::util::{
    char_to_string, contains_char, digit_char, digit_value, digits_value, find_chars_from, find_from,
    int_text, lemma_find_from_bounds, nat_text, occurs_at, parse_i64_radix, parse_i64_spec,
    signed_digits_value, to_chars,
};

verus! {

/// A key is considered a `KeySymbol` (aka 'keyword') if it contains a colon. A colon
/// can be at the end or at the beginning, or even in the middle of the lexeme.
/// A `KeySymbol` always evaluates to itself.
pub fn is_key_symbol(lexeme: &str) -> (r: bool)
    ensures
        r == lexeme@.contains(':'),
{
    contains_char(lexeme, ':')
}

/// The pieces of `s` between the occurrences of `pat` at or after `from`,
/// found from left to right without overlap, as `str::split` gives them.
pub open spec fn split_from(s: Seq<char>, pat: Seq<char>, from: int) -> Seq<Seq<char>>
    decreases s.len() - from,
{
    if pat.len() == 0 || from < 0 || from > s.len() {
        seq![s.subrange(from, s.len() as int)]
    } else {
        match find_from(s, pat, from) {
            None => seq![s.subrange(from, s.len() as int)],
            Some(i) => {
                proof {
                    lemma_find_from_bounds(s, pat, from);
                }
                seq![s.subrange(from, i)] + split_from(s, pat, i + pat.len())
            },
        }
    }
}

/// The pieces of `s` between the occurrences of `pat`.
pub open spec fn split_spec(s: Seq<char>, pat: Seq<char>) -> Seq<Seq<char>> {
    split_from(s, pat, 0)
}

/// The pieces of a text between the occurrences of a non-empty pattern.
pub fn split_text(s: &Vec<char>, pat: &Vec<char>) -> (r: Vec<Vec<char>>)
    requires
        pat@.len() > 0,
    ensures
        r@.len() == split_spec(s@, pat@).len(),
        forall|i: int| 0 <= i < r@.len() ==> #[trigger] r@[i]@ == split_spec(s@, pat@)[i],
{
    let mut out: Vec<Vec<char>> = Vec::new();
    let mut from: usize = 0;
    loop
        invariant
            from <= s@.len(),
            pat@.len() > 0,
            forall|i: int| 0 <= i < out@.len() ==> #[trigger] out@[i]@ == split_spec(s@, pat@)[i],
            out@.len() + split_from(s@, pat@, from as int).len() == split_spec(s@, pat@).len(),
            forall|i: int|
                0 <= i < split_from(s@, pat@, from as int).len() ==> split_spec(s@, pat@)[out@.len()
                    + i] == #[trigger] split_from(s@, pat@, from as int)[i],
        decreases s@.len() - from,
    {
        let found = find_chars_from(s, pat, from);
        proof {
            lemma_find_from_bounds(s@, pat@, from as int);
        }
        match found {
            None => {
                let piece = slice_chars(s, from, s.len());
                let ghost before = out@;
                out.push(piece);
                assert(split_from(s@, pat@, from as int) =~= seq![s@.subrange(from as int, s@.len() as int)]);
                assert(split_spec(s@, pat@)[before.len() as int] == split_from(s@, pat@, from as int)[0]);
                return out;
            },
            Some(i) => {
                let plen: usize = pat.len();
                let slen: usize = s.len();
                assert(i + plen <= slen);
                let next: usize = i + plen;
                let piece = slice_chars(s, from, i);
                let ghost rest = split_from(s@, pat@, i + pat@.len());
                assert(split_from(s@, pat@, from as int) =~= seq![s@.subrange(from as int, i as int)] + rest);
                assert(split_spec(s@, pat@)[out@.len() as int] == split_from(s@, pat@, from as int)[0]);
                assert forall|k: int| 0 <= k < rest.len() implies split_spec(s@, pat@)[out@.len() + 1 + k]
                    == #[trigger] rest[k] by {
                    assert(split_from(s@, pat@, from as int)[k + 1] == rest[k]);
                }
                out.push(piece);
                from = next;
            },
        }
    }
}

/// The characters of `s` from `from` up to `to`.
fn slice_chars(s: &Vec<char>, from: usize, to: usize) -> (r: Vec<char>)
    requires
        from <= to <= s@.len(),
    ensures
        r@ == s@.subrange(from as int, to as int),
{
    let mut out: Vec<char> = Vec::new();
    let mut k: usize = from;
    while k < to
        invariant
            from <= k <= to <= s@.len(),
            out@ == s@.subrange(from as int, k as int),
        decreases to - k,
    {
        out.push(s[k]);
        assert(s@.subrange(from as int, k + 1) =~= s@.subrange(from as int, k as int).push(s@[k as int]));
        k = k + 1;
    }
    out
}

/// The text of a sequence of characters.
pub fn chars_to_string(v: &Vec<char>) -> (r: String)
    ensures
        r@ == v@,
{
    let mut out = String::new();
    let mut i: usize = 0;
    while i < v.len()
        invariant
            i <= v@.len(),
            out@ == v@.take(i as int),
        decreases v@.len() - i,
    {
        let c = char_to_string(v[i]);
        push_str(&mut out, c.as_str());
        assert(v@.take(i + 1) =~= v@.take(i as int) + seq![v@[i as int]]);
        i = i + 1;
    }
    assert(v@.take(v@.len() as int) =~= v@);
    out
}

/// A range literal: an Int range, or the texts of the parts of a Float
/// range (whose numbers are read as floating point).
#[derive(Debug)]
pub enum RangeLiteral {
    Int(i64, i64, i64),
    Float(String, String, Option<String>),
}

/// The texts of start, end and optional step of a range literal
/// `start..end` followed by the separator and the step, where the literal
/// has that shape.
pub open spec fn range_texts(s: Seq<char>, sep: char) -> Option<(Seq<char>, Seq<char>, Option<Seq<char>>)> {
    let parts = split_spec(s, seq![sep]);
    if parts.len() > 2 {
        None
    } else {
        let start_end = split_spec(parts[0], seq!['.', '.']);
        if start_end.len() != 2 {
            None
        } else {
            Some((start_end[0], start_end[1], if parts.len() == 2 { Some(parts[1]) } else { None }))
        }
    }
}

/// The Int range of the given texts: the step, where it is not given, is 1,
/// or, for a `directed` literal, -1 where the end lies before the start.
pub open spec fn int_range_spec(start: Seq<char>, end: Seq<char>, step: Option<Seq<char>>, directed: bool) -> Option<(i64, i64, i64)> {
    match (parse_i64_spec(start, 10), parse_i64_spec(end, 10)) {
        (Some(a), Some(b)) => match step {
            Some(t) => match parse_i64_spec(t, 10) {
                Some(c) => Some((a, b, c)),
                None => None,
            },
            None => Some((a, b, if directed && b < a { -1i64 } else { 1i64 })),
        },
        _ => None,
    }
}

/// The range literal that the text denotes: `start..end`, then optionally
/// the separator and a step. A start with a `.` makes a Float range.
pub open spec fn range_literal_holds(s: Seq<char>, sep: char, directed: bool, r: Option<RangeLiteral>) -> bool {
    match range_texts(s, sep) {
        None => r is None,
        Some((a, b, st)) => if a.contains('.') {
            r matches Some(RangeLiteral::Float(x, y, z)) && x@ == a && y@ == b && (match z {
                Some(t) => st == Some(t@),
                None => st is None,
            })
        } else {
            match int_range_spec(a, b, st, directed) {
                Some((x, y, z)) => r == Some(RangeLiteral::Int(x, y, z)),
                None => r is None,
            }
        },
    }
}

fn range_literal(range_str: &str, sep: char, directed: bool) -> (r: Option<RangeLiteral>)
    ensures
        range_literal_holds(range_str@, sep, directed, r),
{
    let chars = to_chars(range_str);
    let mut sepv: Vec<char> = Vec::new();
    sepv.push(sep);
    assert(sepv@ =~= seq![sep]);
    let parts = split_text(&chars, &sepv);
    if parts.len() > 2 {
        return None;
    }
    let mut dots: Vec<char> = Vec::new();
    dots.push('.');
    dots.push('.');
    assert(dots@ =~= seq!['.', '.']);
    proof {
        assert(split_spec(chars@, sepv@).len() >= 1) by {
            reveal_with_fuel(split_from, 2);
        }
    }
    let start_end = split_text(&parts[0], &dots);
    if start_end.len() != 2 {
        return None;
    }
    let start = chars_to_string(&start_end[0]);
    let end = chars_to_string(&start_end[1]);
    let step: Option<String> = if parts.len() == 2 {
        Some(chars_to_string(&parts[1]))
    } else {
        None
    };
    if contains_char(start.as_str(), '.') {
        return Some(RangeLiteral::Float(start, end, step));
    }
    let Ok(a) = parse_i64_radix(start.as_str(), 10) else {
        return None;
    };
    let Ok(b) = parse_i64_radix(end.as_str(), 10) else {
        return None;
    };
    match step {
        Some(t) => match parse_i64_radix(t.as_str(), 10) {
            Ok(c) => Some(RangeLiteral::Int(a, b, c)),
            Err(_) => None,
        },
        None => {
            let c: i64 = if directed && b < a { -1 } else { 1 };
            Some(RangeLiteral::Int(a, b, c))
        },
    }
}

/// Parses a range string: `start..end/step`. Without a step, the step is 1,
/// or -1 where the end lies before the start.
pub fn recognize_range(range_str: &str) -> (r: Option<RangeLiteral>)
    ensures
        range_literal_holds(range_str@, '/', true, r),
{
    range_literal(range_str, '/', true)
}

/// Parses a range string: `start..end/step`. Without a step, the step is 1.
pub fn split_range(range_str: &str) -> (r: Option<RangeLiteral>)
    ensures
        range_literal_holds(range_str@, '/', false, r),
{
    range_literal(range_str, '/', false)
}

/// A decimal digit character reads back as its digit.
proof fn lemma_digit_char(d: int)
    requires
        0 <= d < 10,
    ensures
        digit_value(digit_char(d), 10) == Some(d),
        '0' <= digit_char(d) <= '9',
{
    assert(digit_char(d) as int == ('0' as int) + d);
}

/// The decimal text of a natural number is made of digits and reads back as
/// the number.
proof fn lemma_nat_text(n: nat)
    ensures
        digits_value(nat_text(n), 10) == Some(n as int),
        nat_text(n).len() >= 1,
        forall|i: int| 0 <= i < nat_text(n).len() ==> '0' <= #[trigger] nat_text(n)[i] <= '9',
    decreases n,
{
    if n < 10 {
        lemma_digit_char(n as int);
        let t = nat_text(n);
        assert(t.drop_last() =~= Seq::<char>::empty());
        assert(digits_value(t.drop_last(), 10) == Some(0int));
        assert(t.last() == digit_char(n as int));
        assert(digits_value(t, 10) == Some(0int * 10 + n));
    } else {
        lemma_nat_text(n / 10);
        lemma_digit_char((n % 10) as int);
        let t = nat_text(n);
        assert(t.drop_last() =~= nat_text(n / 10));
        assert(t.last() == digit_char((n % 10) as int));
        assert((n / 10) * 10 + n % 10 == n) by (nonlinear_arith);
        assert(digits_value(t, 10) == Some(((n / 10) as int) * 10 + (n % 10) as int));
        assert forall|i: int| 0 <= i < t.len() implies '0' <= #[trigger] t[i] <= '9' by {
            if i < t.len() - 1 {
                assert(t[i] == nat_text(n / 10)[i]);
            }
        }
    }
}

/// The text of an `i64` is made of digits and at most a leading `-`, and
/// reads back as the number.
proof fn lemma_int_text(n: i64)
    ensures
        parse_i64_spec(int_text(n as int), 10) == Some(n),
        int_text(n as int).len() >= 1,
        forall|i: int| 0 <= i < int_text(n as int).len() ==> {
            let c = #[trigger] int_text(n as int)[i];
            ('0' <= c <= '9') || c == '-'
        },
{
    if n < 0 {
        let m = (-(n as int)) as nat;
        lemma_nat_text(m);
        let t = int_text(n as int);
        assert(t.drop_first() =~= nat_text(m));
        assert(signed_digits_value(t, 10) == Some(n as int));
        assert forall|i: int| 0 <= i < t.len() implies {
            let c = #[trigger] t[i];
            ('0' <= c <= '9') || c == '-'
        } by {
            if i > 0 {
                assert(t[i] == nat_text(m)[i - 1]);
            }
        }
    } else {
        lemma_nat_text(n as nat);
        let t = int_text(n as int);
        assert(t[0] != '-' && t[0] != '+');
        assert(signed_digits_value(t, 10) == Some(n as int));
    }
}

/// Where `pat` occurs at `k` and nowhere from `from` up to `k`, the first
/// occurrence at or after `from` is at `k`.
proof fn lemma_find_first_at(s: Seq<char>, pat: Seq<char>, from: int, k: int)
    requires
        0 <= from <= k,
        occurs_at(s, pat, k),
        forall|j: int| from <= j < k ==> !occurs_at(s, pat, j),
    ensures
        find_from(s, pat, from) == Some(k),
    decreases k - from,
{
    if from < k {
        lemma_find_first_at(s, pat, from + 1, k);
    }
}

/// Where `pat` occurs nowhere at or after `from`, it is not found there.
proof fn lemma_find_none(s: Seq<char>, pat: Seq<char>, from: int)
    requires
        0 <= from,
        forall|j: int| from <= j ==> !occurs_at(s, pat, j),
    ensures
        find_from(s, pat, from) is None,
    decreases s.len() - from,
{
    if from + pat.len() <= s.len() && from < s.len() {
        lemma_find_none(s, pat, from + 1);
    }
}

/// A text without the character `c` does not hold the pattern `[c]`, nor any
/// pattern that starts with `c`.
proof fn lemma_no_occurrence(s: Seq<char>, pat: Seq<char>, from: int, lo: int)
    requires
        pat.len() >= 1,
        0 <= lo <= from,
        forall|i: int| lo <= i < s.len() ==> s[i] != pat[0],
    ensures
        forall|j: int| from <= j ==> !occurs_at(s, pat, j),
{
    assert forall|j: int| from <= j implies !occurs_at(s, pat, j) by {
        if occurs_at(s, pat, j) {
            assert(s.subrange(j, j + pat.len())[0] == s[j]);
        }
    }
}

/// The printed form of an Int range, `start..end/step`, reads back as the
/// same range.
pub proof fn law_int_range_text_reads_back(start: i64, end: i64, step: i64)
    ensures
        range_literal_holds(text_of(Value::IntRange(start, end, step)), '/', true, Some(RangeLiteral::Int(start, end, step))),
{
    let a = int_text(start as int);
    let b = int_text(end as int);
    let c = int_text(step as int);
    lemma_int_text(start);
    lemma_int_text(end);
    lemma_int_text(step);
    let p = a + seq!['.', '.'] + b;
    let t = p + seq!['/'] + c;
    assert(text_of(Value::IntRange(start, end, step)) =~= t);
    let k = p.len() as int;
    // The one `|` of the text follows the start and end.
    let bar = seq!['/'];
    assert(t[k] == '/');
    assert(occurs_at(t, bar, k)) by {
        assert(t.subrange(k, k + 1) =~= bar);
    }
    assert forall|i: int| 0 <= i < k implies t[i] != bar[0] by {
        assert(t[i] == p[i]);
        if i < a.len() {
            assert(p[i] == a[i]);
        } else if i >= a.len() + 2 {
            assert(p[i] == b[i - a.len() - 2]);
        }
    }
    lemma_no_occurrence(t.subrange(0, k), bar, 0, 0);
    assert forall|j: int| 0 <= j < k implies !occurs_at(t, bar, j) by {
        if occurs_at(t, bar, j) {
            assert(t.subrange(j, j + 1)[0] == t[j]);
        }
    }
    lemma_find_first_at(t, bar, 0, k);
    assert forall|i: int| k + 1 <= i < t.len() implies t[i] != bar[0] by {
        assert(t[i] == c[i - k - 1]);
    }
    lemma_no_occurrence(t, bar, k + 1, k + 1);
    lemma_find_none(t, bar, k + 1);
    assert(split_from(t, bar, k + 1) == seq![t.subrange(k + 1, t.len() as int)]);
    assert(t.subrange(k + 1, t.len() as int) =~= c);
    assert(t.subrange(0, k) =~= p);
    assert(split_spec(t, bar) =~= seq![p, c]);
    // The one `..` of the first part follows the start.
    let dots = seq!['.', '.'];
    let ka = a.len() as int;
    assert(occurs_at(p, dots, ka)) by {
        assert(p.subrange(ka, ka + 2) =~= dots);
    }
    assert forall|j: int| 0 <= j < ka implies !occurs_at(p, dots, j) by {
        if occurs_at(p, dots, j) {
            assert(p.subrange(j, j + 2)[0] == p[j]);
            assert(p[j] == a[j]);
        }
    }
    lemma_find_first_at(p, dots, 0, ka);
    assert forall|i: int| ka + 2 <= i < p.len() implies p[i] != dots[0] by {
        assert(p[i] == b[i - ka - 2]);
    }
    lemma_no_occurrence(p, dots, ka + 2, ka + 2);
    lemma_find_none(p, dots, ka + 2);
    assert(p.subrange(0, ka) =~= a);
    assert(p.subrange(ka + 2, p.len() as int) =~= b);
    assert(split_from(p, dots, ka + 2) == seq![b]);
    assert(split_spec(p, dots) =~= seq![a, b]);
    assert(!a.contains('.')) by {
        if a.contains('.') {
            let i = choose|i: int| 0 <= i < a.len() && a[i] == '.';
            assert(a[i] == '.');
        }
    }
    assert(range_texts(t, '/') == Some((a, b, Some(c))));
}


/// The text of `s` from `from` on, as a last piece, where it is not empty.
pub open spec fn template_tail(s: Seq<char>, from: int) -> Seq<(bool, Seq<char>)> {
    if from < s.len() {
        seq![(false, s.subrange(from, s.len() as int))]
    } else {
        Seq::empty()
    }
}

/// The pieces of a string template from index `from` on: each `${code}`
/// gives the literal text before it, which may be empty, and then its code
/// (marked `true`); the text after the last one follows where it is not
/// empty. A `${` without a later `}` is literal text.
pub open spec fn template_pieces(s: Seq<char>, from: int) -> Seq<(bool, Seq<char>)>
    decreases s.len() - from,
{
    if from < 0 || from > s.len() {
        Seq::empty()
    } else {
        match find_from(s, seq!['$', '{'], from) {
            None => template_tail(s, from),
            Some(start) => match find_from(s, seq!['}'], start) {
                None => template_tail(s, from),
                Some(close) => {
                    proof {
                        lemma_find_from_bounds(s, seq!['$', '{'], from);
                        lemma_find_from_bounds(s, seq!['}'], start);
                    }
                    seq![(false, s.subrange(from, start)), (true, s.subrange(start + 2, close))]
                        + template_pieces(s, close + 1)
                }
            },
        }
    }
}

/// The closing brace of an interpolation comes after its `${`.
proof fn lemma_close_after_open(s: Seq<char>, from: int)
    requires
        0 <= from <= s.len(),
        find_from(s, seq!['$', '{'], from) is Some,
        find_from(s, seq!['}'], find_from(s, seq!['$', '{'], from)->0) is Some,
    ensures
        ({
            let start = find_from(s, seq!['$', '{'], from)->0;
            let close = find_from(s, seq!['}'], start)->0;
            from <= start && start + 2 <= close < s.len()
        }),
{
    let start = find_from(s, seq!['$', '{'], from)->0;
    lemma_find_from_bounds(s, seq!['$', '{'], from);
    lemma_find_from_bounds(s, seq!['}'], start);
    let close = find_from(s, seq!['}'], start)->0;
    assert(s.subrange(start, start + 2)[0] == '$');
    assert(s.subrange(start, start + 2)[1] == '{');
    assert(s.subrange(close, close + 1)[0] == '}');
    if close == start {
        assert(s[start] == '$');
    }
    if close == start + 1 {
        assert(s[start + 1] == '{');
    }
}

/// The text of the pieces of a template, each code piece wrapped in `${`
/// and `}` again.
pub open spec fn rebuilt_template(ps: Seq<(bool, Seq<char>)>) -> Seq<char>
    decreases ps.len(),
{
    if ps.len() == 0 {
        Seq::empty()
    } else {
        (if ps[0].0 {
            seq!['$', '{'] + ps[0].1 + seq!['}']
        } else {
            ps[0].1
        }) + rebuilt_template(ps.drop_first())
    }
}

/// The last piece of a template spells the rest of its text.
proof fn lemma_tail_rebuild(s: Seq<char>, from: int)
    requires
        0 <= from < s.len(),
    ensures
        rebuilt_template(template_tail(s, from)) == s.subrange(from, s.len() as int),
{
    let t = template_tail(s, from);
    assert(t.drop_first() =~= Seq::<(bool, Seq<char>)>::empty());
    assert(rebuilt_template(t.drop_first()) == Seq::<char>::empty());
    assert(rebuilt_template(t) =~= s.subrange(from, s.len() as int));
}

/// The pieces of a template from index `from` on spell the rest of its text.
proof fn lemma_template_pieces_rebuild(s: Seq<char>, from: int)
    requires
        0 <= from <= s.len(),
    ensures
        rebuilt_template(template_pieces(s, from)) == s.subrange(from, s.len() as int),
    decreases s.len() - from,
{
    let open = seq!['$', '{'];
    let close_pat = seq!['}'];
    match find_from(s, open, from) {
        None => {
            if from < s.len() {
                lemma_tail_rebuild(s, from);
            } else {
                assert(s.subrange(from, s.len() as int) =~= Seq::<char>::empty());
            }
        },
        Some(start) => match find_from(s, close_pat, start) {
            None => {
                if from < s.len() {
                    lemma_tail_rebuild(s, from);
                } else {
                    assert(s.subrange(from, s.len() as int) =~= Seq::<char>::empty());
                }
            },
            Some(close) => {
                lemma_close_after_open(s, from);
                lemma_find_from_bounds(s, open, from);
                lemma_find_from_bounds(s, close_pat, start);
                lemma_template_pieces_rebuild(s, close + 1);
                let text_piece = (false, s.subrange(from, start));
                let code_piece = (true, s.subrange(start + 2, close));
                let rest = template_pieces(s, close + 1);
                let ps = seq![text_piece, code_piece] + rest;
                assert(template_pieces(s, from) == ps);
                assert(ps.drop_first() =~= seq![code_piece] + rest);
                assert((seq![code_piece] + rest).drop_first() =~= rest);
                assert(rebuilt_template(seq![code_piece] + rest) == open + code_piece.1 + close_pat
                    + rebuilt_template(rest));
                assert(rebuilt_template(ps) == text_piece.1 + rebuilt_template(seq![code_piece] + rest));
                assert(s.subrange(start, start + 2) =~= open);
                assert(s.subrange(close, close + 1) =~= close_pat);
                assert(s.subrange(from, s.len() as int) =~= s.subrange(from, start) + (open + s.subrange(
                    start + 2,
                    close,
                ) + close_pat) + s.subrange(close + 1, s.len() as int));
            },
        },
    }
}

/// Nothing of a template's text is lost: its pieces, with each code piece
/// wrapped in `${` and `}` again, spell the text.
pub proof fn law_template_pieces_spell_the_text(s: Seq<char>)
    ensures
        rebuilt_template(template_pieces(s, 0)) == s,
{
    lemma_template_pieces_rebuild(s, 0);
    assert(s.subrange(0, s.len() as int) =~= s);
}

/// The value that a piece of a template gives, where `item` is the
/// expression made of it: the literal text as a String, or what `parse`
/// returned for the code.
pub open spec fn template_item_holds<F: Fn(&str) -> Result<Expr, Vec<Error>>>(
    parse: F,
    piece: (bool, Seq<char>),
    item: Expr,
) -> bool {
    if piece.0 {
        exists|a: &str| a@ == piece.1 && #[trigger] call_ensures(parse, (a,), Ok::<Expr, Vec<Error>>(item))
    } else {
        item.model() == Value::String(piece.1)
    }
}

/// `t` is what the template `s` gives: a `(format ...)` list with an item
/// for each piece of the template.
pub open spec fn template_holds<F: Fn(&str) -> Result<Expr, Vec<Error>>>(parse: F, s: Seq<char>, t: Expr) -> bool {
    t matches Expr::List(items) && items@.len() == template_pieces(s, 0).len() + 1 && items@[0].model()
        == Value::Symbol("format"@) && forall|i: int|
        0 <= i < template_pieces(s, 0).len() ==> template_item_holds(
            parse,
            #[trigger] template_pieces(s, 0)[i],
            items@[i + 1],
        )
}

/// `parse` succeeds on the code of every interpolation of the template `s`,
/// whatever it returns there.
pub open spec fn template_code_parses<F: Fn(&str) -> Result<Expr, Vec<Error>>>(parse: F, s: Seq<char>) -> bool {
    forall|i: int, a: &str, x: Result<Expr, Vec<Error>>|
        0 <= i < template_pieces(s, 0).len() && #[trigger] template_pieces(s, 0)[i].0 && a@ == template_pieces(s, 0)[i].1
            && #[trigger] call_ensures(parse, (a,), x) ==> x is Ok
}

/// Parses a string template, e.g. `"name: ${name}, age: ${age}."`, into a
/// `(format ...)` list of the literal texts and the expressions that
/// `parse` makes of the interpolated code. The first error of `parse` is
/// returned.
pub fn recognize_string_template<F: Fn(&str) -> Result<Expr, Vec<Error>>>(input: &str, parse: F) -> (r: Result<
    Expr,
    Vec<Error>,
>)
    requires
        forall|a: &str| #[trigger] call_requires(parse, (a,)),
    ensures
        r matches Ok(e) ==> template_holds(parse, input@, e),
        r matches Err(es) ==> exists|i: int, a: &str|
            0 <= i < template_pieces(input@, 0).len() && #[trigger] template_pieces(input@, 0)[i].0
                && a@ == template_pieces(input@, 0)[i].1 && #[trigger] call_ensures(
                parse,
                (a,),
                Err::<Expr, Vec<Error>>(es),
            ),
        template_code_parses(parse, input@) ==> r is Ok,
{
    let chars = to_chars(input);
    let mut open: Vec<char> = Vec::new();
    open.push('$');
    open.push('{');
    let mut close_brace: Vec<char> = Vec::new();
    close_brace.push('}');
    assert(open@ =~= seq!['$', '{']);
    assert(close_brace@ =~= seq!['}']);
    let ghost s = chars@;
    let ghost all = template_pieces(s, 0);
    let mut exprs: Vec<Expr> = Vec::new();
    exprs.push(Expr::symbol("format"));
    proof {
        reveal_strlit("format");
    }
    let ghost mut done: Seq<(bool, Seq<char>)> = Seq::empty();
    let mut previous_end: usize = 0;
    assert(all =~= done + template_pieces(s, 0));
    loop
        invariant_except_break
            all == done + template_pieces(s, previous_end as int),
        invariant
            s == chars@,
            s == input@,
            open@ == seq!['$', '{'],
            close_brace@ == seq!['}'],
            all == template_pieces(s, 0),
            forall|a: &str| #[trigger] call_requires(parse, (a,)),
            previous_end <= s.len(),
            exprs@.len() == done.len() + 1,
            exprs@[0].model() == Value::Symbol("format"@),
            forall|i: int| 0 <= i < done.len() ==> template_item_holds(parse, #[trigger] done[i], exprs@[i + 1]),
        ensures
            all == done + template_tail(s, previous_end as int),
        decreases s.len() - previous_end,
    {
        let Some(start) = find_chars_from(&chars, &open, previous_end) else {
            break;
        };
        let Some(close) = find_chars_from(&chars, &close_brace, start) else {
            break;
        };
        proof {
            assert(find_from(s, seq!['$', '{'], previous_end as int) == Some(start as int));
            assert(find_from(s, seq!['}'], start as int) == Some(close as int));
            lemma_close_after_open(s, previous_end as int);
            assert(start + 2 <= close < s.len());
        }
        assert(close < chars.len());
        let end: usize = close + 1;
        let text = chars_to_string(&slice_chars(&chars, previous_end, start));
        let code = chars_to_string(&slice_chars(&chars, start + 2, close));
        let ghost text_piece = (false, s.subrange(previous_end as int, start as int));
        let ghost code_piece = (true, s.subrange(start + 2, close as int));
        assert(template_pieces(s, previous_end as int) =~= seq![text_piece, code_piece] + template_pieces(
            s,
            end as int,
        ));
        exprs.push(Expr::String(text));
        let code_str = code.as_str();
        match parse(code_str) {
            Ok(e) => {
                assert(template_item_holds(parse, code_piece, e));
                exprs.push(e);
            },
            Err(es) => {
                proof {
                    let k: int = done.len() as int + 1;
                    assert(all[k] == code_piece);
                    assert(call_ensures(parse, (code_str,), Err::<Expr, Vec<Error>>(es)));
                    assert(template_pieces(input@, 0)[k].0);
                    if template_code_parses(parse, input@) {
                        assert(Err::<Expr, Vec<Error>>(es) is Ok);
                    }
                }
                return Err(es);
            },
        }
        proof {
            done = done + seq![text_piece, code_piece];
            assert(all =~= done + template_pieces(s, end as int));
        }
        previous_end = end;
    }
    if previous_end < chars.len() {
        let rest = chars_to_string(&slice_chars(&chars, previous_end, chars.len()));
        exprs.push(Expr::String(rest));
        proof {
            done = done.push((false, s.subrange(previous_end as int, s.len() as int)));
        }
    }
    assert(all =~= done);
    Ok(Expr::List(exprs))
}

} // verus!
