//! The expression type: the syntax tree and, at the same time, the values of Tan.

use vstd::prelude::*;

use crate::foreign::ForeignFn;
use crate::util::{char_to_string, i64_to_string, int_text, nat_text};

verus! {

/// A 64-bit float as the library keeps it: its IEEE-754 bit pattern and the
/// decimal text that the host printed for it when the value was made.
#[derive(Debug)]
pub struct Float64 {
    pub bits: u64,
    pub text: String,
}

/// A fixed-point decimal: `mantissa * 10^-scale`.
#[derive(Clone, Copy, PartialEq, Eq, Structural, Debug)]
pub struct Decimal {
    pub mantissa: i128,
    pub scale: u32,
}

/// The two kinds of comment that the lexer produces.
#[derive(Clone, Copy, PartialEq, Eq, Structural, Debug)]
pub enum CommentKind {
    Line,
    Block,
}

#[derive(Debug)]
pub enum Expr {
    Nothing,
    Nil,
    One,
    Never,
    Bool(bool),
    Int(i64),
    U8(u8),
    Float(Float64),
    Dec(Decimal),
    Char(char),
    String(String),
    Symbol(String),
    KeySymbol(String),
    Type(String),
    Comment(String, CommentKind),
    TextSeparator,
    Annotation(String),
    List(Vec<Expr>),
    Array(Vec<Expr>),
    Dict(Vec<(String, Expr)>),
    SetOf(Vec<Expr>),
    Buffer(Vec<u8>),
    IntRange(i64, i64, i64),
    FloatRange(Float64, Float64, Float64),
    ForeignFunc(ForeignFn),
    Error(String),
    Annotated(Box<Expr>, Vec<(String, Expr)>),
}

/// The mathematical value of a float: its bits and its printed text.
pub struct FloatValue {
    pub bits: u64,
    pub text: Seq<char>,
}

/// The mathematical model of an expression.
#[verifier::ext_equal]
pub enum Value {
    Nothing,
    Nil,
    One,
    Never,
    Bool(bool),
    Int(i64),
    U8(u8),
    Float(FloatValue),
    Dec(Decimal),
    Char(char),
    String(Seq<char>),
    Symbol(Seq<char>),
    KeySymbol(Seq<char>),
    Type(Seq<char>),
    Comment(Seq<char>, CommentKind),
    TextSeparator,
    Annotation(Seq<char>),
    List(Seq<Value>),
    Array(Seq<Value>),
    Dict(Seq<(Seq<char>, Value)>),
    SetOf(Seq<Value>),
    Buffer(Seq<u8>),
    IntRange(i64, i64, i64),
    FloatRange(FloatValue, FloatValue, FloatValue),
    ForeignFunc(ForeignFn),
    Error(Seq<char>),
    Annotated(Box<Value>, Seq<(Seq<char>, Value)>),
}

impl Float64 {
    /// The mathematical form of the value.
    pub open spec fn model(&self) -> FloatValue {
        FloatValue { bits: self.bits, text: self.text@ }
    }

    /// A copy of the number.
    pub fn copy(&self) -> (r: Float64)
        ensures
            r.model() == self.model(),
    {
        Float64 { bits: self.bits, text: self.text.clone() }
    }
}

/// The models of a sequence of expressions.
pub open spec fn models(v: Seq<Expr>) -> Seq<Value>
    decreases v,
{
    Seq::new(v.len(), |i: int| if 0 <= i < v.len() { v[i].model() } else { Value::Nothing })
}

/// The models of a sequence of named expressions.
pub open spec fn pair_models(v: Seq<(String, Expr)>) -> Seq<(Seq<char>, Value)>
    decreases v,
{
    Seq::new(
        v.len(),
        |i: int|
            if 0 <= i < v.len() {
                (v[i].0@, v[i].1.model())
            } else {
                (Seq::empty(), Value::Nothing)
            },
    )
}

impl Expr {
    /// The mathematical form of the value.
    pub open spec fn model(&self) -> Value
        decreases self,
    {
        match self {
            Expr::Nothing => Value::Nothing,
            Expr::Nil => Value::Nil,
            Expr::One => Value::One,
            Expr::Never => Value::Never,
            Expr::Bool(b) => Value::Bool(*b),
            Expr::Int(n) => Value::Int(*n),
            Expr::U8(n) => Value::U8(*n),
            Expr::Float(f) => Value::Float(f.model()),
            Expr::Dec(d) => Value::Dec(*d),
            Expr::Char(c) => Value::Char(*c),
            Expr::String(s) => Value::String(s@),
            Expr::Symbol(s) => Value::Symbol(s@),
            Expr::KeySymbol(s) => Value::KeySymbol(s@),
            Expr::Type(s) => Value::Type(s@),
            Expr::Comment(s, k) => Value::Comment(s@, *k),
            Expr::TextSeparator => Value::TextSeparator,
            Expr::Annotation(s) => Value::Annotation(s@),
            Expr::List(v) => Value::List(models(v@)),
            Expr::Array(v) => Value::Array(models(v@)),
            Expr::Dict(v) => Value::Dict(pair_models(v@)),
            Expr::SetOf(v) => Value::SetOf(models(v@)),
            Expr::Buffer(b) => Value::Buffer(b@),
            Expr::IntRange(s, e, st) => Value::IntRange(*s, *e, *st),
            Expr::FloatRange(s, e, st) => Value::FloatRange(s.model(), e.model(), st.model()),
            Expr::ForeignFunc(f) => Value::ForeignFunc(*f),
            Expr::Error(s) => Value::Error(s@),
            Expr::Annotated(e, anns) => Value::Annotated(Box::new(e.model()), pair_models(anns@)),
        }
    }
}

/// The characters of a text, as Char values.
pub open spec fn char_values(s: Seq<char>) -> Seq<Value>
    decreases s.len(),
{
    if s.len() == 0 {
        Seq::empty()
    } else {
        char_values(s.drop_last()).push(Value::Char(s.last()))
    }
}

/// Each character as a Char expression.
pub fn char_exprs(chars: &Vec<char>) -> (r: Vec<Expr>)
    ensures
        models(r@) == char_values(chars@),
{
    let mut exprs: Vec<Expr> = Vec::new();
    let mut i: usize = 0;
    assert(chars@.take(0) =~= Seq::<char>::empty());
    assert(models(exprs@) =~= Seq::<Value>::empty());
    while i < chars.len()
        invariant
            i <= chars@.len(),
            models(exprs@) == char_values(chars@.take(i as int)),
        decreases chars@.len() - i,
    {
        let e = Expr::character(chars[i]);
        let ghost before = exprs@;
        exprs.push(e);
        assert(models(exprs@) =~= models(before).push(e.model()));
        assert(chars@.take(i + 1).drop_last() =~= chars@.take(i as int));
        i = i + 1;
    }
    assert(chars@.take(chars@.len() as int) =~= chars@);
    exprs
}

/// A copy of the expressions of `v`, with the same models.
pub fn clone_exprs(v: &Vec<Expr>) -> (r: Vec<Expr>)
    ensures
        models(r@) == models(v@),
        r@.len() == v@.len(),
    decreases v, 0nat,
{
    let mut out: Vec<Expr> = Vec::new();
    let mut i: usize = 0;
    while i < v.len()
        invariant
            i <= v@.len(),
            out@.len() == i,
            forall|j: int| 0 <= j < i ==> #[trigger] out@[j].model() == v@[j].model(),
        decreases v@.len() - i,
    {
        proof {
            assert(decreases_to!(*v => v@));
            assert(decreases_to!(v@ => v@[i as int]));
        }
        let e = v[i].deep_clone();
        out.push(e);
        i = i + 1;
    }
    assert forall|j: int| 0 <= j < v@.len() implies models(out@)[j] == models(v@)[j] by {
        assert(out@[j].model() == v@[j].model());
    }
    assert(models(out@) =~= models(v@));
    out
}

/// A copy of the named expressions of `v`, with the same models.
pub fn clone_pairs(v: &Vec<(String, Expr)>) -> (r: Vec<(String, Expr)>)
    ensures
        pair_models(r@) == pair_models(v@),
        r@.len() == v@.len(),
    decreases v, 0nat,
{
    let mut out: Vec<(String, Expr)> = Vec::new();
    let mut i: usize = 0;
    while i < v.len()
        invariant
            i <= v@.len(),
            out@.len() == i,
            forall|j: int|
                0 <= j < i ==> (#[trigger] out@[j]).0@ == v@[j].0@ && out@[j].1.model()
                    == v@[j].1.model(),
        decreases v@.len() - i,
    {
        proof {
            assert(decreases_to!(*v => v@));
            assert(decreases_to!(v@ => v@[i as int]));
            assert(decreases_to!(v@[i as int] => v@[i as int].1));
        }
        let k = v[i].0.clone();
        let e = v[i].1.deep_clone();
        out.push((k, e));
        i = i + 1;
    }
    assert(pair_models(out@) =~= pair_models(v@));
    out
}

impl Expr {
    /// A copy of the expression with the same model.
    pub fn deep_clone(&self) -> (r: Expr)
        ensures
            r.model() == self.model(),
        decreases self, 1nat,
    {
        match self {
            Expr::Nothing => Expr::Nothing,
            Expr::Nil => Expr::Nil,
            Expr::One => Expr::One,
            Expr::Never => Expr::Never,
            Expr::Bool(b) => Expr::Bool(*b),
            Expr::Int(n) => Expr::Int(*n),
            Expr::U8(n) => Expr::U8(*n),
            Expr::Float(f) => Expr::Float(f.copy()),
            Expr::Dec(d) => Expr::Dec(*d),
            Expr::Char(c) => Expr::Char(*c),
            Expr::String(s) => Expr::String(s.clone()),
            Expr::Symbol(s) => Expr::Symbol(s.clone()),
            Expr::KeySymbol(s) => Expr::KeySymbol(s.clone()),
            Expr::Type(s) => Expr::Type(s.clone()),
            Expr::Comment(s, k) => Expr::Comment(s.clone(), *k),
            Expr::TextSeparator => Expr::TextSeparator,
            Expr::Annotation(s) => Expr::Annotation(s.clone()),
            Expr::List(v) => Expr::List(clone_exprs(v)),
            Expr::Array(v) => Expr::Array(clone_exprs(v)),
            Expr::Dict(v) => Expr::Dict(clone_pairs(v)),
            Expr::SetOf(v) => Expr::SetOf(clone_exprs(v)),
            Expr::Buffer(b) => Expr::Buffer(b.clone()),
            Expr::IntRange(s, e, st) => Expr::IntRange(*s, *e, *st),
            Expr::FloatRange(s, e, st) => Expr::FloatRange(s.copy(), e.copy(), st.copy()),
            Expr::ForeignFunc(f) => Expr::ForeignFunc(*f),
            Expr::Error(s) => Expr::Error(s.clone()),
            Expr::Annotated(e, anns) => {
                let inner = e.deep_clone();
                Expr::Annotated(Box::new(inner), clone_pairs(anns))
            },
        }
    }
}

} // verus!

verus! {

/// The expression under any annotations.
pub open spec fn unpacked(v: Value) -> Value {
    match v {
        Value::Annotated(inner, _) => *inner,
        _ => v,
    }
}

/// The Int that a value holds, without its annotations.
pub open spec fn int_of(v: Value) -> Option<i64> {
    match unpacked(v) {
        Value::Int(n) => Some(n),
        _ => None,
    }
}

/// The Bool that a value holds, without its annotations.
pub open spec fn bool_of(v: Value) -> Option<bool> {
    match unpacked(v) {
        Value::Bool(b) => Some(b),
        _ => None,
    }
}

/// The U8 that a value holds, without its annotations.
pub open spec fn u8_of(v: Value) -> Option<u8> {
    match unpacked(v) {
        Value::U8(n) => Some(n),
        _ => None,
    }
}

/// The Char that a value holds, without its annotations.
pub open spec fn char_of(v: Value) -> Option<char> {
    match unpacked(v) {
        Value::Char(c) => Some(c),
        _ => None,
    }
}

/// The text of a `String` expression.
pub open spec fn string_of(v: Value) -> Option<Seq<char>> {
    match unpacked(v) {
        Value::String(s) => Some(s),
        _ => None,
    }
}

/// The text of an expression that stands for text: a string, a symbol or a key-symbol.
pub open spec fn stringable_of(v: Value) -> Option<Seq<char>> {
    match unpacked(v) {
        Value::String(s) => Some(s),
        Value::Symbol(s) => Some(s),
        Value::KeySymbol(s) => Some(s),
        _ => None,
    }
}

/// The name of a `Symbol` expression.
pub open spec fn symbol_of(v: Value) -> Option<Seq<char>> {
    match unpacked(v) {
        Value::Symbol(s) => Some(s),
        _ => None,
    }
}

/// The name of a symbolic expression: a symbol, a key-symbol or a type.
pub open spec fn symbolic_of(v: Value) -> Option<Seq<char>> {
    match unpacked(v) {
        Value::Symbol(s) => Some(s),
        Value::KeySymbol(s) => Some(s),
        Value::Type(s) => Some(s),
        _ => None,
    }
}

/// The items of an Array value, without its annotations.
pub open spec fn array_of(v: Value) -> Option<Seq<Value>> {
    match unpacked(v) {
        Value::Array(items) => Some(items),
        _ => None,
    }
}

/// The item expressions of an Array expression, without its annotations.
pub open spec fn array_items(e: Expr) -> Option<Seq<Expr>> {
    match e {
        Expr::Array(v) => Some(v@),
        Expr::Annotated(inner, _) => match *inner {
            Expr::Array(v) => Some(v@),
            _ => None,
        },
        _ => None,
    }
}

/// The terms of a List value, without its annotations.
pub open spec fn list_of(v: Value) -> Option<Seq<Value>> {
    match unpacked(v) {
        Value::List(items) => Some(items),
        _ => None,
    }
}

/// The entries of a Dict value, without its annotations.
pub open spec fn dict_of(v: Value) -> Option<Seq<(Seq<char>, Value)>> {
    match unpacked(v) {
        Value::Dict(items) => Some(items),
        _ => None,
    }
}

/// The value is the none value.
pub open spec fn is_nothing(v: Value) -> bool {
    unpacked(v) is Nothing
}

impl Expr {
    /// The expression under any annotations.
    pub fn unpack(&self) -> (r: &Expr)
        ensures
            r.model() == unpacked(self.model()),
    {
        match self {
            Expr::Annotated(inner, _) => &**inner,
            _ => self,
        }
    }

    /// The Int that the expression holds.
    pub fn as_int(&self) -> (r: Option<i64>)
        ensures
            r == int_of(self.model()),
    {
        match self.unpack() {
            Expr::Int(n) => Some(*n),
            _ => None,
        }
    }

    /// The Bool that the expression holds.
    pub fn as_bool(&self) -> (r: Option<bool>)
        ensures
            r == bool_of(self.model()),
    {
        match self.unpack() {
            Expr::Bool(b) => Some(*b),
            _ => None,
        }
    }

    /// The U8 that the expression holds.
    pub fn as_u8(&self) -> (r: Option<u8>)
        ensures
            r == u8_of(self.model()),
    {
        match self.unpack() {
            Expr::U8(n) => Some(*n),
            _ => None,
        }
    }

    /// The Char that the expression holds.
    pub fn as_char(&self) -> (r: Option<char>)
        ensures
            r == char_of(self.model()),
    {
        match self.unpack() {
            Expr::Char(c) => Some(*c),
            _ => None,
        }
    }

    /// The text of a String expression.
    pub fn as_string(&self) -> (r: Option<&String>)
        ensures
            string_of(self.model()) matches Some(s) ==> r matches Some(t) && t@ == s,
            string_of(self.model()) is None ==> r is None,
    {
        match self.unpack() {
            Expr::String(s) => Some(s),
            _ => None,
        }
    }

    /// The text of a String, Symbol or KeySymbol expression.
    pub fn as_stringable(&self) -> (r: Option<&String>)
        ensures
            stringable_of(self.model()) matches Some(s) ==> r matches Some(t) && t@ == s,
            stringable_of(self.model()) is None ==> r is None,
    {
        match self.unpack() {
            Expr::String(s) => Some(s),
            Expr::Symbol(s) => Some(s),
            Expr::KeySymbol(s) => Some(s),
            _ => None,
        }
    }

    /// The name of a Symbol expression.
    pub fn as_symbol(&self) -> (r: Option<&String>)
        ensures
            symbol_of(self.model()) matches Some(s) ==> r matches Some(t) && t@ == s,
            symbol_of(self.model()) is None ==> r is None,
    {
        match self.unpack() {
            Expr::Symbol(s) => Some(s),
            _ => None,
        }
    }

    /// The name of a Symbol or KeySymbol expression.
    pub fn as_symbolic(&self) -> (r: Option<&String>)
        ensures
            symbolic_of(self.model()) matches Some(s) ==> r matches Some(t) && t@ == s,
            symbolic_of(self.model()) is None ==> r is None,
    {
        match self.unpack() {
            Expr::Symbol(s) => Some(s),
            Expr::KeySymbol(s) => Some(s),
            Expr::Type(s) => Some(s),
            _ => None,
        }
    }

    /// The items of an Array expression.
    pub fn as_array(&self) -> (r: Option<&Vec<Expr>>)
        ensures
            array_items(*self) matches Some(items) ==> r matches Some(v) && v@ == items,
            array_items(*self) is None ==> r is None,
            array_of(self.model()) matches Some(items) ==> r matches Some(v) && models(v@) == items,
            array_of(self.model()) is None ==> r is None,
    {
        match self {
            Expr::Array(v) => Some(v),
            Expr::Annotated(inner, _) => {
                assert(inner.model() == unpacked(self.model()));
                match &**inner {
                    Expr::Array(v) => Some(v),
                    _ => None,
                }
            },
            _ => None,
        }
    }

    /// The terms of a List expression.
    pub fn as_list(&self) -> (r: Option<&Vec<Expr>>)
        ensures
            list_of(self.model()) matches Some(items) ==> r matches Some(v) && models(v@) == items,
            list_of(self.model()) is None ==> r is None,
    {
        match self.unpack() {
            Expr::List(v) => Some(v),
            _ => None,
        }
    }

    /// The entries of a Dict expression.
    pub fn as_dict(&self) -> (r: Option<&Vec<(String, Expr)>>)
        ensures
            dict_of(self.model()) matches Some(items) ==> r matches Some(v) && pair_models(v@)
                == items,
            dict_of(self.model()) is None ==> r is None,
    {
        match self.unpack() {
            Expr::Dict(v) => Some(v),
            _ => None,
        }
    }

    /// Whether the expression is the none value.
    pub fn is_none(&self) -> (r: bool)
        ensures
            r == is_nothing(self.model()),
    {
        match self.unpack() {
            Expr::Nothing => true,
            _ => false,
        }
    }

    /// A string expression.
    pub fn string(s: &str) -> (r: Expr)
        ensures
            r.model() == Value::String(s@),
    {
        Expr::String(s.to_owned())
    }

    /// A Char expression.
    pub fn character(c: char) -> (r: Expr)
        ensures
            r.model() == Value::Char(c),
    {
        Expr::Char(c)
    }

    /// A symbol expression.
    pub fn symbol(s: &str) -> (r: Expr)
        ensures
            r.model() == Value::Symbol(s@),
    {
        Expr::Symbol(s.to_owned())
    }

    /// An array expression.
    pub fn array(items: Vec<Expr>) -> (r: Expr)
        ensures
            r.model() == Value::Array(models(items@)),
    {
        Expr::Array(items)
    }

    /// An error value with the given reason.
    pub fn error(reason: &str) -> (r: Expr)
        ensures
            r.model() == Value::Error(reason@),
    {
        Expr::Error(reason.to_owned())
    }
}

} // verus!

verus! {

/// A decimal that `rust_decimal` can represent: at most 28 fractional digits
/// and a mantissa of at most 96 bits.
pub open spec fn decimal_in_range(d: Decimal) -> bool {
    d.scale <= 28 && -79228162514264337593543950335 <= d.mantissa
        && d.mantissa <= 79228162514264337593543950335
}

/// The digits of `|mantissa|` (none for zero), with zeros in front up to
/// `scale` digits.
pub open spec fn decimal_digits(mantissa: i128, scale: u32) -> Seq<char> {
    let a: int = if mantissa < 0 { -mantissa } else { mantissa as int };
    let digits = if a == 0 { Seq::<char>::empty() } else { nat_text(a as nat) };
    if digits.len() < scale {
        Seq::new((scale - digits.len()) as nat, |i: int| '0') + digits
    } else {
        digits
    }
}

/// The text that `rust_decimal` prints for the decimal `mantissa * 10^-scale`:
/// a `-` for a negative mantissa, then the digits with a point `scale`
/// places from the right and a `0` before a point with no whole digits in
/// front of it; a zero with no fractional digits prints as `0`.
pub open spec fn decimal_display(mantissa: i128, scale: u32) -> Seq<char> {
    let d = decimal_digits(mantissa, scale);
    let whole = d.len() - scale;
    let body = if scale == 0 {
        if d.len() == 0 { seq!['0'] } else { d }
    } else {
        (if whole == 0 { seq!['0'] } else { d.take(whole) }) + seq!['.'] + d.skip(whole)
    };
    if mantissa < 0 { seq!['-'] + body } else { body }
}

/// `rust_decimal::Decimal::try_from_i128_with_scale` followed by its `Display`
/// (`str::to_str_internal`, then the sign): the printed decimal, for a
/// decimal that `rust_decimal` can represent.
#[verifier::external_body]
pub(crate) fn decimal_to_string(d: Decimal) -> (r: String)
    ensures
        decimal_in_range(d) ==> r@ == decimal_display(d.mantissa, d.scale),
{
    match rust_decimal::Decimal::try_from_i128_with_scale(d.mantissa, d.scale) {
        Ok(value) => value.to_string(),
        Err(_) => String::new(),
    }
}

/// The printed form of a decimal.
pub open spec fn decimal_text(d: Decimal) -> Seq<char> {
    if decimal_in_range(d) {
        decimal_display(d.mantissa, d.scale)
    } else {
        Seq::empty()
    }
}

/// The text in double quotes.
pub open spec fn quoted(s: Seq<char>) -> Seq<char> {
    seq!['"'] + s + seq!['"']
}

/// The texts of the values, separated by single spaces.
pub open spec fn join_values(s: Seq<Value>) -> Seq<char>
    decreases s,
{
    if s.len() == 0 {
        Seq::empty()
    } else if s.len() == 1 {
        text_of(s[0])
    } else {
        join_values(s.drop_last()) + seq![' '] + text_of(s.last())
    }
}

/// The text of one dictionary entry: `:key value`.
pub open spec fn entry_text(e: (Seq<char>, Value)) -> Seq<char>
    decreases e,
{
    seq![':'] + e.0 + seq![' '] + text_of(e.1)
}

/// The texts of the dictionary entries, separated by single spaces.
pub open spec fn join_entries(s: Seq<(Seq<char>, Value)>) -> Seq<char>
    decreases s,
{
    if s.len() == 0 {
        Seq::empty()
    } else if s.len() == 1 {
        entry_text(s[0])
    } else {
        join_entries(s.drop_last()) + seq![' '] + entry_text(s.last())
    }
}

/// The decimal texts of the bytes, separated by single spaces.
pub open spec fn join_bytes(s: Seq<u8>) -> Seq<char>
    decreases s.len(),
{
    if s.len() == 0 {
        Seq::empty()
    } else if s.len() == 1 {
        int_text(s[0] as int)
    } else {
        join_bytes(s.drop_last()) + seq![' '] + int_text(s.last() as int)
    }
}

/// The printed form of a value: what `Display` gives for an expression.
pub open spec fn text_of(v: Value) -> Seq<char>
    decreases v,
{
    match v {
        Value::Nothing => "()"@,
        Value::Nil => "()"@,
        Value::One => "()"@,
        Value::Never => "never"@,
        Value::Bool(b) => if b {
            "true"@
        } else {
            "false"@
        },
        Value::Int(n) => int_text(n as int),
        Value::U8(n) => int_text(n as int),
        Value::Float(f) => f.text,
        Value::Dec(d) => decimal_text(d),
        Value::Char(c) => "(Char \""@ + seq![c] + "\")"@,
        Value::String(s) => quoted(s),
        Value::Symbol(s) => s,
        Value::KeySymbol(s) => seq![':'] + s,
        Value::Type(s) => s,
        Value::Comment(s, _) => s,
        Value::TextSeparator => Seq::empty(),
        Value::Annotation(s) => seq!['#'] + s,
        Value::List(items) => seq!['('] + join_values(items) + seq![')'],
        Value::Array(items) => seq!['['] + join_values(items) + seq![']'],
        Value::Dict(entries) => seq!['{'] + join_entries(entries) + seq!['}'],
        Value::SetOf(items) => seq!['#', '{'] + join_values(items) + seq!['}'],
        Value::Buffer(bytes) => seq!['['] + join_bytes(bytes) + seq![']'],
        Value::IntRange(s, e, st) => int_text(s as int) + seq!['.', '.'] + int_text(e as int)
            + seq!['/'] + int_text(st as int),
        Value::FloatRange(s, e, st) => s.text + seq!['.', '.'] + e.text + seq!['/'] + st.text,
        Value::ForeignFunc(_) => "#<foreign-func>"@,
        Value::Error(s) => "(Error "@ + quoted(s) + seq![')'],
        Value::Annotated(inner, _) => text_of(*inner),
    }
}

/// The text of a value as the library shows it: a string shows its contents,
/// any other value its printed form.
pub open spec fn value_text(v: Value) -> Seq<char> {
    match unpacked(v) {
        Value::String(s) => s,
        _ => text_of(v),
    }
}

/// Appends `s` to `out`.
pub fn push_str(out: &mut String, s: &str)
    ensures
        final(out)@ == old(out)@ + s@,
{
    out.append(s);
}

/// The texts of the expressions, separated by single spaces.
pub fn join_texts(v: &Vec<Expr>) -> (r: String)
    ensures
        r@ == join_values(models(v@)),
    decreases v, 0nat,
{
    let mut out = String::new();
    let mut i: usize = 0;
    let ghost ms = models(v@);
    assert(ms.take(0) =~= Seq::<Value>::empty());
    while i < v.len()
        invariant
            i <= v@.len(),
            ms == models(v@),
            out@ == join_values(ms.take(i as int)),
        decreases v@.len() - i,
    {
        proof {
            assert(decreases_to!(*v => v@));
            assert(decreases_to!(v@ => v@[i as int]));
        }
        let t = v[i].to_text();
        if i > 0 {
            push_str(&mut out, " ");
            proof { reveal_strlit(" "); }
        }
        push_str(&mut out, t.as_str());
        proof {
            let next = ms.take(i + 1);
            assert(next.drop_last() =~= ms.take(i as int));
            assert(next.last() == v@[i as int].model());
        }
        i = i + 1;
    }
    assert(ms.take(v@.len() as int) =~= ms);
    out
}

/// The texts of the dictionary entries, separated by single spaces.
pub fn join_entry_texts(v: &Vec<(String, Expr)>) -> (r: String)
    ensures
        r@ == join_entries(pair_models(v@)),
    decreases v, 0nat,
{
    let mut out = String::new();
    let mut i: usize = 0;
    let ghost ms = pair_models(v@);
    assert(ms.take(0) =~= Seq::<(Seq<char>, Value)>::empty());
    while i < v.len()
        invariant
            i <= v@.len(),
            ms == pair_models(v@),
            out@ == join_entries(ms.take(i as int)),
        decreases v@.len() - i,
    {
        proof {
            assert(decreases_to!(*v => v@));
            assert(decreases_to!(v@ => v@[i as int]));
            assert(decreases_to!(v@[i as int] => v@[i as int].1));
        }
        let t = v[i].1.to_text();
        if i > 0 {
            push_str(&mut out, " ");
            proof { reveal_strlit(" "); }
        }
        push_str(&mut out, ":");
        push_str(&mut out, v[i].0.as_str());
        push_str(&mut out, " ");
        push_str(&mut out, t.as_str());
        proof {
            reveal_strlit(":");
            reveal_strlit(" ");
            let next = ms.take(i + 1);
            assert(next.drop_last() =~= ms.take(i as int));
            assert(next.last() == (v@[i as int].0@, v@[i as int].1.model()));
            let e = next.last();
            assert(entry_text(e) == seq![':'] + v@[i as int].0@ + seq![' '] + t@);
            if i > 0 {
                assert(out@ =~= join_entries(next.drop_last()) + seq![' '] + entry_text(e));
            } else {
                assert(out@ =~= entry_text(e));
            }
        }
        i = i + 1;
    }
    assert(ms.take(v@.len() as int) =~= ms);
    out
}

fn join_byte_texts(v: &Vec<u8>) -> (r: String)
    ensures
        r@ == join_bytes(v@),
{
    let mut out = String::new();
    let mut i: usize = 0;
    assert(v@.take(0) =~= Seq::<u8>::empty());
    while i < v.len()
        invariant
            i <= v@.len(),
            out@ == join_bytes(v@.take(i as int)),
        decreases v@.len() - i,
    {
        let t = i64_to_string(v[i] as i64);
        if i > 0 {
            push_str(&mut out, " ");
            proof { reveal_strlit(" "); }
        }
        push_str(&mut out, t.as_str());
        proof {
            let next = v@.take(i + 1);
            assert(next.drop_last() =~= v@.take(i as int));
            assert(next.last() == v@[i as int]);
        }
        i = i + 1;
    }
    assert(v@.take(v@.len() as int) =~= v@);
    out
}

impl Expr {
    /// The printed form of the expression.
    pub fn to_text(&self) -> (r: String)
        ensures
            r@ == text_of(self.model()),
        decreases self, 1nat,
    {
        let mut out = String::new();
        match self {
            Expr::Nothing | Expr::Nil | Expr::One => {
                push_str(&mut out, "()");
            },
            Expr::Never => {
                push_str(&mut out, "never");
            },
            Expr::Bool(b) => {
                if *b {
                    push_str(&mut out, "true");
                } else {
                    push_str(&mut out, "false");
                }
            },
            Expr::Int(n) => {
                out = i64_to_string(*n);
            },
            Expr::U8(n) => {
                out = i64_to_string(*n as i64);
            },
            Expr::Float(f) => {
                out = f.text.clone();
            },
            Expr::Dec(d) => {
                if d.scale <= 28 && -79228162514264337593543950335i128 <= d.mantissa
                    && d.mantissa <= 79228162514264337593543950335i128 {
                    out = decimal_to_string(*d);
                }
            },
            Expr::Char(c) => {
                push_str(&mut out, "(Char \"");
                let cs = char_to_string(*c);
                push_str(&mut out, cs.as_str());
                push_str(&mut out, "\")");
            },
            Expr::String(s) => {
                push_str(&mut out, "\"");
                push_str(&mut out, s.as_str());
                push_str(&mut out, "\"");
                proof { reveal_strlit("\""); }
            },
            Expr::Symbol(s) => {
                out = s.clone();
            },
            Expr::KeySymbol(s) => {
                push_str(&mut out, ":");
                push_str(&mut out, s.as_str());
                proof { reveal_strlit(":"); }
            },
            Expr::Type(s) => {
                out = s.clone();
            },
            Expr::Comment(s, _) => {
                out = s.clone();
            },
            Expr::TextSeparator => {},
            Expr::Annotation(s) => {
                push_str(&mut out, "#");
                push_str(&mut out, s.as_str());
                proof { reveal_strlit("#"); }
            },
            Expr::List(items) => {
                let inner = join_texts(items);
                push_str(&mut out, "(");
                push_str(&mut out, inner.as_str());
                push_str(&mut out, ")");
                proof { reveal_strlit("("); reveal_strlit(")"); }
            },
            Expr::Array(items) => {
                let inner = join_texts(items);
                push_str(&mut out, "[");
                push_str(&mut out, inner.as_str());
                push_str(&mut out, "]");
                proof { reveal_strlit("["); reveal_strlit("]"); }
            },
            Expr::Dict(entries) => {
                let inner = join_entry_texts(entries);
                push_str(&mut out, "{");
                push_str(&mut out, inner.as_str());
                push_str(&mut out, "}");
                proof { reveal_strlit("{"); reveal_strlit("}"); }
            },
            Expr::SetOf(items) => {
                let inner = join_texts(items);
                push_str(&mut out, "#{");
                push_str(&mut out, inner.as_str());
                push_str(&mut out, "}");
                proof { reveal_strlit("#{"); reveal_strlit("}"); }
            },
            Expr::Buffer(bytes) => {
                let inner = join_byte_texts(bytes);
                push_str(&mut out, "[");
                push_str(&mut out, inner.as_str());
                push_str(&mut out, "]");
                proof { reveal_strlit("["); reveal_strlit("]"); }
            },
            Expr::IntRange(s, e, st) => {
                let a = i64_to_string(*s);
                let b = i64_to_string(*e);
                let c = i64_to_string(*st);
                push_str(&mut out, a.as_str());
                push_str(&mut out, "..");
                push_str(&mut out, b.as_str());
                push_str(&mut out, "/");
                push_str(&mut out, c.as_str());
                proof { reveal_strlit(".."); reveal_strlit("/"); }
            },
            Expr::FloatRange(s, e, st) => {
                push_str(&mut out, s.text.as_str());
                push_str(&mut out, "..");
                push_str(&mut out, e.text.as_str());
                push_str(&mut out, "/");
                push_str(&mut out, st.text.as_str());
                proof { reveal_strlit(".."); reveal_strlit("/"); }
            },
            Expr::ForeignFunc(_) => {
                push_str(&mut out, "#<foreign-func>");
            },
            Expr::Error(s) => {
                push_str(&mut out, "(Error \"");
                push_str(&mut out, s.as_str());
                push_str(&mut out, "\")");
                proof {
                    reveal_strlit("(Error \"");
                    reveal_strlit("\")");
                    reveal_strlit("(Error ");
                    assert(out@ =~= "(Error "@ + quoted(s@) + seq![')']);
                }
            },
            Expr::Annotated(inner, _) => {
                out = inner.to_text();
            },
        }
        out
    }
}

/// The text of an expression as the library shows it: the contents of a
/// string, the printed form of anything else.
pub fn format_value(expr: &Expr) -> (r: String)
    ensures
        r@ == value_text(expr.model()),
{
    match expr.unpack() {
        Expr::String(s) => s.clone(),
        _ => expr.to_text(),
    }
}

} // verus!

verus! {

/// The first index at or after `from` of an entry with key `k`.
pub open spec fn first_key_from(s: Seq<(Seq<char>, Value)>, k: Seq<char>, from: int) -> Option<int>
    decreases s.len() - from,
{
    if from < 0 || from >= s.len() {
        None
    } else if s[from].0 == k {
        Some(from)
    } else {
        first_key_from(s, k, from + 1)
    }
}

/// The entries with `k` set to `v`: the first entry with key `k` is replaced,
/// or a new entry is added at the end.
pub open spec fn set_entry(s: Seq<(Seq<char>, Value)>, k: Seq<char>, v: Value) -> Seq<
    (Seq<char>, Value),
> {
    match first_key_from(s, k, 0) {
        Some(i) => s.update(i, (k, v)),
        None => s.push((k, v)),
    }
}

/// The value annotated with `key = val`.
pub open spec fn annotated_value(v: Value, key: Seq<char>, val: Value) -> Value {
    match v {
        Value::Annotated(inner, anns) => Value::Annotated(inner, set_entry(anns, key, val)),
        _ => Value::Annotated(Box::new(v), seq![(key, val)]),
    }
}

proof fn lemma_first_key_from(s: Seq<(Seq<char>, Value)>, k: Seq<char>, from: int)
    requires
        0 <= from <= s.len(),
    ensures
        first_key_from(s, k, from) matches Some(i) ==> from <= i < s.len() && s[i].0 == k,
    decreases s.len() - from,
{
    if from < s.len() && s[from].0 != k {
        lemma_first_key_from(s, k, from + 1);
    }
}

/// The value of the first entry with key `k`.
pub open spec fn entry_value(s: Seq<(Seq<char>, Value)>, k: Seq<char>) -> Option<Value> {
    match first_key_from(s, k, 0) {
        Some(i) => Some(s[i].1),
        None => None,
    }
}

/// The value of the first entry with the key.
pub fn dict_get<'a>(entries: &'a Vec<(String, Expr)>, key: &str) -> (r: Option<&'a Expr>)
    ensures
        entry_value(pair_models(entries@), key@) matches Some(v) ==> (r matches Some(e) && e.model() == v),
        entry_value(pair_models(entries@), key@) is None ==> r is None,
{
    let ghost ms = pair_models(entries@);
    let k = key.to_owned();
    let mut i: usize = 0;
    while i < entries.len()
        invariant
            i <= entries@.len(),
            ms == pair_models(entries@),
            first_key_from(ms, key@, 0) == first_key_from(ms, key@, i as int),
            k@ == key@,
        decreases entries@.len() - i,
    {
        if entries[i].0 == k {
            assert(first_key_from(ms, key@, i as int) == Some(i as int));
            return Some(&entries[i].1);
        }
        i = i + 1;
    }
    None
}

/// Sets the entry `key` to `val`: the first entry with that key is replaced,
/// or a new entry is added at the end.
pub fn set_entry_exec(anns: &mut Vec<(String, Expr)>, key: &str, val: Expr)
    ensures
        pair_models(final(anns)@) == set_entry(pair_models(old(anns)@), key@, val.model()),
{
    let k = key.to_owned();
    let ghost ms = pair_models(anns@);
    let mut i: usize = 0;
    while i < anns.len()
        invariant
            i <= anns@.len(),
            ms == pair_models(anns@),
            anns@ == old(anns)@,
            first_key_from(ms, key@, 0) == first_key_from(ms, key@, i as int),
            k@ == key@,
        decreases anns@.len() - i,
    {
        if anns[i].0 == k {
            let ghost vm = val.model();
            assert(ms[i as int].0 == key@);
            assert(first_key_from(ms, key@, i as int) == Some(i as int));
            anns.set(i, (k, val));
            assert(pair_models(anns@) =~= ms.update(i as int, (key@, vm)));
            return;
        }
        i = i + 1;
    }
    let ghost vm = val.model();
    anns.push((k, val));
    assert(pair_models(anns@) =~= ms.push((key@, vm)));
}

/// The expression annotated with `key = val`.
pub fn annotate(expr: Expr, key: &str, val: Expr) -> (r: Expr)
    ensures
        r.model() == annotated_value(expr.model(), key@, val.model()),
{
    match expr {
        Expr::Annotated(inner, mut anns) => {
            set_entry_exec(&mut anns, key, val);
            Expr::Annotated(inner, anns)
        },
        _ => {
            let ghost em = expr.model();
            let ghost vm = val.model();
            let mut anns: Vec<(String, Expr)> = Vec::new();
            anns.push((key.to_owned(), val));
            assert(pair_models(anns@) =~= seq![(key@, vm)]);
            Expr::Annotated(Box::new(expr), anns)
        },
    }
}

/// The expression annotated with the type `typ`.
pub fn annotate_type(expr: Expr, typ: &str) -> (r: Expr)
    ensures
        r.model() == annotated_value(expr.model(), "type"@, Value::Type(typ@)),
{
    annotate(expr, "type", Expr::Type(typ.to_owned()))
}

} // verus!

verus! {

fn floats_equal(a: &Float64, b: &Float64) -> (r: bool)
    ensures
        r == (a.model() == b.model()),
{
    a.bits == b.bits && a.text == b.text
}

fn strings_equal(a: &String, b: &String) -> (r: bool)
    ensures
        r == (a@ == b@),
{
    *a == *b
}

fn bytes_equal(a: &Vec<u8>, b: &Vec<u8>) -> (r: bool)
    ensures
        r == (a@ == b@),
{
    if a.len() != b.len() {
        return false;
    }
    let mut i: usize = 0;
    while i < a.len()
        invariant
            i <= a@.len(),
            a@.len() == b@.len(),
            forall|j: int| 0 <= j < i ==> a@[j] == b@[j],
        decreases a@.len() - i,
    {
        if a[i] != b[i] {
            return false;
        }
        i = i + 1;
    }
    assert(a@ =~= b@);
    true
}

/// The two sequences of expressions have the same models.
pub fn exprs_equal(a: &Vec<Expr>, b: &Vec<Expr>) -> (r: bool)
    ensures
        r == (models(a@) == models(b@)),
    decreases a, 0nat,
{
    if a.len() != b.len() {
        assert(models(a@).len() != models(b@).len());
        return false;
    }
    let mut i: usize = 0;
    while i < a.len()
        invariant
            i <= a@.len(),
            a@.len() == b@.len(),
            forall|j: int| 0 <= j < i ==> #[trigger] a@[j].model() == b@[j].model(),
        decreases a@.len() - i,
    {
        proof {
            assert(decreases_to!(*a => a@));
            assert(decreases_to!(a@ => a@[i as int]));
        }
        if !a[i].equals(&b[i]) {
            assert(models(a@)[i as int] != models(b@)[i as int]);
            return false;
        }
        i = i + 1;
    }
    assert forall|j: int| 0 <= j < a@.len() implies models(a@)[j] == models(b@)[j] by {
        assert(a@[j].model() == b@[j].model());
    }
    assert(models(a@) =~= models(b@));
    true
}

/// The two sequences of named expressions have the same models.
pub fn pairs_equal(a: &Vec<(String, Expr)>, b: &Vec<(String, Expr)>) -> (r: bool)
    ensures
        r == (pair_models(a@) == pair_models(b@)),
    decreases a, 0nat,
{
    if a.len() != b.len() {
        assert(pair_models(a@).len() != pair_models(b@).len());
        return false;
    }
    let mut i: usize = 0;
    while i < a.len()
        invariant
            i <= a@.len(),
            a@.len() == b@.len(),
            forall|j: int|
                0 <= j < i ==> (#[trigger] a@[j]).0@ == b@[j].0@ && a@[j].1.model() == b@[j].1.model(),
        decreases a@.len() - i,
    {
        proof {
            assert(decreases_to!(*a => a@));
            assert(decreases_to!(a@ => a@[i as int]));
            assert(decreases_to!(a@[i as int] => a@[i as int].1));
        }
        if !strings_equal(&a[i].0, &b[i].0) || !a[i].1.equals(&b[i].1) {
            assert(pair_models(a@)[i as int] != pair_models(b@)[i as int]);
            return false;
        }
        i = i + 1;
    }
    assert forall|j: int| 0 <= j < a@.len() implies pair_models(a@)[j] == pair_models(b@)[j] by {
        assert(a@[j].0@ == b@[j].0@);
    }
    assert(pair_models(a@) =~= pair_models(b@));
    true
}

impl Expr {
    /// The two expressions have the same model.
    pub fn equals(&self, other: &Expr) -> (r: bool)
        ensures
            r == (self.model() == other.model()),
        decreases self, 1nat,
    {
        match (self, other) {
            (Expr::Nothing, Expr::Nothing) => true,
            (Expr::Nil, Expr::Nil) => true,
            (Expr::One, Expr::One) => true,
            (Expr::Never, Expr::Never) => true,
            (Expr::Bool(a), Expr::Bool(b)) => *a == *b,
            (Expr::Int(a), Expr::Int(b)) => *a == *b,
            (Expr::U8(a), Expr::U8(b)) => *a == *b,
            (Expr::Float(a), Expr::Float(b)) => floats_equal(a, b),
            (Expr::Dec(a), Expr::Dec(b)) => a.mantissa == b.mantissa && a.scale == b.scale,
            (Expr::Char(a), Expr::Char(b)) => *a == *b,
            (Expr::String(a), Expr::String(b)) => strings_equal(a, b),
            (Expr::Symbol(a), Expr::Symbol(b)) => strings_equal(a, b),
            (Expr::KeySymbol(a), Expr::KeySymbol(b)) => strings_equal(a, b),
            (Expr::Type(a), Expr::Type(b)) => strings_equal(a, b),
            (Expr::Comment(a, ka), Expr::Comment(b, kb)) => strings_equal(a, b) && *ka == *kb,
            (Expr::TextSeparator, Expr::TextSeparator) => true,
            (Expr::Annotation(a), Expr::Annotation(b)) => strings_equal(a, b),
            (Expr::List(a), Expr::List(b)) => exprs_equal(a, b),
            (Expr::Array(a), Expr::Array(b)) => exprs_equal(a, b),
            (Expr::Dict(a), Expr::Dict(b)) => pairs_equal(a, b),
            (Expr::SetOf(a), Expr::SetOf(b)) => exprs_equal(a, b),
            (Expr::Buffer(a), Expr::Buffer(b)) => bytes_equal(a, b),
            (Expr::IntRange(a1, a2, a3), Expr::IntRange(b1, b2, b3)) => *a1 == *b1 && *a2 == *b2
                && *a3 == *b3,
            (Expr::FloatRange(a1, a2, a3), Expr::FloatRange(b1, b2, b3)) => floats_equal(a1, b1)
                && floats_equal(a2, b2) && floats_equal(a3, b3),
            (Expr::ForeignFunc(a), Expr::ForeignFunc(b)) => *a == *b,
            (Expr::Error(a), Expr::Error(b)) => strings_equal(a, b),
            (Expr::Annotated(a, aa), Expr::Annotated(b, ba)) => {
                if !a.equals(b) {
                    return false;
                }
                pairs_equal(aa, ba)
            },
            _ => false,
        }
    }
}

} // verus!

verus! {

/// The value with the items of its array (under any annotations) replaced.
pub open spec fn with_array_items(v: Value, items: Seq<Value>) -> Value {
    match v {
        Value::Annotated(inner, anns) => Value::Annotated(Box::new(Value::Array(items)), anns),
        _ => Value::Array(items),
    }
}

/// The expression taken apart into the items of its array and the
/// annotations around it.
pub fn split_array(e: Expr) -> (r: (Vec<Expr>, Option<Vec<(String, Expr)>>))
    requires
        array_of(e.model()) is Some,
    ensures
        models(r.0@) == array_of(e.model())->0,
        array_items(e) == Some(r.0@),
        forall|items: Seq<Value>| #[trigger] with_array_items(e.model(), items) == match r.1 {
            Some(anns) => Value::Annotated(Box::new(Value::Array(items)), pair_models(anns@)),
            None => Value::Array(items),
        },
{
    match e {
        Expr::Array(v) => (v, None),
        Expr::Annotated(inner, anns) => {
            let ghost im = inner.model();
            assert(im == unpacked(e.model()));
            match *inner {
                Expr::Array(v) => {
                    assert(models(v@) == array_of(e.model())->0);
                    (v, Some(anns))
                },
                _ => (Vec::new(), None),
            }
        },
        _ => (Vec::new(), None),
    }
}

/// The array of the items, under the annotations if there are any.
pub fn join_array(items: Vec<Expr>, anns: Option<Vec<(String, Expr)>>) -> (r: Expr)
    ensures
        array_items(r) == Some(items@),
        r.model() == match anns {
            Some(a) => Value::Annotated(Box::new(Value::Array(models(items@))), pair_models(a@)),
            None => Value::Array(models(items@)),
        },
{
    let inner = Expr::Array(items);
    assert(inner.model() == Value::Array(models(items@)));
    match anns {
        Some(a) => Expr::Annotated(Box::new(inner), a),
        None => inner,
    }
}

/// The value with the bytes of its buffer (under any annotations) replaced.
pub open spec fn with_buffer_bytes(v: Value, bytes: Seq<u8>) -> Value {
    match v {
        Value::Annotated(inner, anns) => Value::Annotated(Box::new(Value::Buffer(bytes)), anns),
        _ => Value::Buffer(bytes),
    }
}

/// The bytes of a Buffer value, without its annotations.
pub open spec fn buffer_of(v: Value) -> Option<Seq<u8>> {
    match unpacked(v) {
        Value::Buffer(b) => Some(b),
        _ => None,
    }
}

/// The expression taken apart into the bytes of its buffer and the
/// annotations around it.
pub fn split_buffer(e: Expr) -> (r: (Vec<u8>, Option<Vec<(String, Expr)>>))
    requires
        buffer_of(e.model()) is Some,
    ensures
        r.0@ == buffer_of(e.model())->0,
        forall|bytes: Seq<u8>| #[trigger] with_buffer_bytes(e.model(), bytes) == match r.1 {
            Some(anns) => Value::Annotated(Box::new(Value::Buffer(bytes)), pair_models(anns@)),
            None => Value::Buffer(bytes),
        },
{
    match e {
        Expr::Buffer(v) => (v, None),
        Expr::Annotated(inner, anns) => {
            let ghost im = inner.model();
            assert(im == unpacked(e.model()));
            match *inner {
                Expr::Buffer(v) => {
                    assert(v@ == buffer_of(e.model())->0);
                    (v, Some(anns))
                },
                _ => (Vec::new(), None),
            }
        },
        _ => (Vec::new(), None),
    }
}

/// The buffer of the bytes, under the annotations if there are any.
pub fn join_buffer(bytes: Vec<u8>, anns: Option<Vec<(String, Expr)>>) -> (r: Expr)
    ensures
        r.model() == match anns {
            Some(a) => Value::Annotated(Box::new(Value::Buffer(bytes@)), pair_models(a@)),
            None => Value::Buffer(bytes@),
        },
{
    let inner = Expr::Buffer(bytes);
    assert(inner.model() == Value::Buffer(bytes@));
    match anns {
        Some(a) => Expr::Annotated(Box::new(inner), a),
        None => inner,
    }
}

} // verus!

verus! {

/// The items of a Set value, without its annotations.
pub open spec fn set_of(v: Value) -> Option<Seq<Value>> {
    match unpacked(v) {
        Value::SetOf(items) => Some(items),
        _ => None,
    }
}

/// The value with the items of its set (under any annotations) replaced.
pub open spec fn with_set_items(v: Value, items: Seq<Value>) -> Value {
    match v {
        Value::Annotated(inner, anns) => Value::Annotated(Box::new(Value::SetOf(items)), anns),
        _ => Value::SetOf(items),
    }
}

/// The expression taken apart into the items of its set and the annotations
/// around it.
pub fn split_set(e: Expr) -> (r: (Vec<Expr>, Option<Vec<(String, Expr)>>))
    requires
        set_of(e.model()) is Some,
    ensures
        models(r.0@) == set_of(e.model())->0,
        forall|items: Seq<Value>| #[trigger] with_set_items(e.model(), items) == match r.1 {
            Some(anns) => Value::Annotated(Box::new(Value::SetOf(items)), pair_models(anns@)),
            None => Value::SetOf(items),
        },
{
    match e {
        Expr::SetOf(v) => (v, None),
        Expr::Annotated(inner, anns) => {
            let ghost im = inner.model();
            assert(im == unpacked(e.model()));
            match *inner {
                Expr::SetOf(v) => {
                    assert(models(v@) == set_of(e.model())->0);
                    (v, Some(anns))
                },
                _ => (Vec::new(), None),
            }
        },
        _ => (Vec::new(), None),
    }
}

/// The set of the items, under the annotations if there are any.
pub fn join_set(items: Vec<Expr>, anns: Option<Vec<(String, Expr)>>) -> (r: Expr)
    ensures
        r.model() == match anns {
            Some(a) => Value::Annotated(Box::new(Value::SetOf(models(items@))), pair_models(a@)),
            None => Value::SetOf(models(items@)),
        },
{
    let inner = Expr::SetOf(items);
    assert(inner.model() == Value::SetOf(models(items@)));
    match anns {
        Some(a) => Expr::Annotated(Box::new(inner), a),
        None => inner,
    }
}

impl Expr {
    /// The items of a Set expression.
    pub fn as_set(&self) -> (r: Option<&Vec<Expr>>)
        ensures
            set_of(self.model()) matches Some(items) ==> r matches Some(v) && models(v@) == items,
            set_of(self.model()) is None ==> r is None,
    {
        match self.unpack() {
            Expr::SetOf(v) => Some(v),
            _ => None,
        }
    }
}

/// The printed values with one more value in front of at least one.
proof fn lemma_join_values_prepend(a: Value, s: Seq<Value>)
    requires
        s.len() > 0,
    ensures
        join_values(seq![a] + s) == text_of(a) + seq![' '] + join_values(s),
    decreases s.len(),
{
    let all = seq![a] + s;
    if s.len() == 1 {
        assert(all.drop_last() =~= seq![a]);
        assert(all.last() == s[0]);
        assert(join_values(all.drop_last()) == text_of(a));
        assert(join_values(all) == join_values(all.drop_last()) + seq![' '] + text_of(all.last()));
    } else {
        assert(all.drop_last() =~= seq![a] + s.drop_last());
        assert(all.last() == s.last());
        lemma_join_values_prepend(a, s.drop_last());
        assert(join_values(all) =~= text_of(a) + seq![' '] + join_values(s));
    }
}

/// The printed entries with one more entry in front of at least one.
proof fn lemma_join_entries_prepend(a: (Seq<char>, Value), s: Seq<(Seq<char>, Value)>)
    requires
        s.len() > 0,
    ensures
        join_entries(seq![a] + s) == entry_text(a) + seq![' '] + join_entries(s),
    decreases s.len(),
{
    let all = seq![a] + s;
    if s.len() == 1 {
        assert(all.drop_last() =~= seq![a]);
        assert(all.last() == s[0]);
        assert(join_entries(all.drop_last()) == entry_text(a));
        assert(join_entries(all) == join_entries(all.drop_last()) + seq![' '] + entry_text(all.last()));
    } else {
        assert(all.drop_last() =~= seq![a] + s.drop_last());
        assert(all.last() == s.last());
        lemma_join_entries_prepend(a, s.drop_last());
        assert(join_entries(all) =~= entry_text(a) + seq![' '] + join_entries(s));
    }
}

/// An array prints its items in order between `[` and `]`, a list between
/// `(` and `)`, with one space between each two items: an item in front of
/// others is printed, then a space, then the others; one item is printed
/// alone. A dictionary prints each entry as `:key value`, the same way
/// between `{` and `}`.
pub proof fn law_collections_print_items_space_separated(a: Value, rest: Seq<Value>, e: (Seq<char>, Value), es: Seq<(Seq<char>, Value)>)
    ensures
        text_of(Value::Array(seq![a])) == seq!['['] + text_of(a) + seq![']'],
        rest.len() > 0 ==> text_of(Value::Array(seq![a] + rest)) == seq!['['] + text_of(a) + seq![' '] + join_values(rest)
            + seq![']'],
        rest.len() > 0 ==> text_of(Value::List(seq![a] + rest)) == seq!['('] + text_of(a) + seq![' '] + join_values(rest)
            + seq![')'],
        text_of(Value::Dict(seq![e])) == seq!['{', ':'] + e.0 + seq![' '] + text_of(e.1) + seq!['}'],
        es.len() > 0 ==> text_of(Value::Dict(seq![e] + es)) == seq!['{', ':'] + e.0 + seq![' '] + text_of(e.1) + seq![' ']
            + join_entries(es) + seq!['}'],
{
    assert(seq![a][0] == a);
    assert(seq![e][0] == e);
    assert(join_values(seq![a]) == text_of(a));
    assert(join_entries(seq![e]) == entry_text(e));
    assert(text_of(Value::Array(seq![a])) == seq!['['] + join_values(seq![a]) + seq![']']);
    assert(text_of(Value::Dict(seq![e])) == seq!['{'] + join_entries(seq![e]) + seq!['}']);
    assert(text_of(Value::Dict(seq![e])) =~= seq!['{', ':'] + e.0 + seq![' '] + text_of(e.1) + seq!['}']);
    if rest.len() > 0 {
        lemma_join_values_prepend(a, rest);
        assert(text_of(Value::Array(seq![a] + rest)) == seq!['['] + join_values(seq![a] + rest) + seq![']']);
        assert(text_of(Value::List(seq![a] + rest)) == seq!['('] + join_values(seq![a] + rest) + seq![')']);
    }
    if es.len() > 0 {
        lemma_join_entries_prepend(e, es);
        assert(text_of(Value::Dict(seq![e] + es)) =~= seq!['{', ':'] + e.0 + seq![' '] + text_of(e.1) + seq![' ']
            + join_entries(es) + seq!['}']);
    }
}

} // verus!
