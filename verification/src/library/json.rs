//! The JSON codec.

use vstd::prelude::*;

use crate::context::{Context, Modules, bound_foreign, insert_foreign, lemma_bound_required, require_module};
use crate::expr::{
    first_key_from, models, pair_models, set_entry, set_entry_exec, string_of, unpacked, Expr, Float64, FloatValue,
    Value,
};
use crate::error::{error_says, Error, ErrorKind};
use crate::foreign::ForeignFn;
use crate::util::to_chars;
use crate::parser::util::chars_to_string;

verus! {

/// A JSON value, as the codec reads and writes it. Numbers read from a JSON
/// text are Floats; Ints come from the expressions that are written.
#[derive(Debug)]
pub enum JsonValue {
    Null,
    Bool(bool),
    Int(i64),
    Float(Float64),
    String(String),
    Array(Vec<JsonValue>),
    Object(Vec<(String, JsonValue)>),
}

/// The mathematical form of a JSON value.
pub enum JsonModel {
    Null,
    Bool(bool),
    Int(i64),
    Float(FloatValue),
    String(Seq<char>),
    Array(Seq<JsonModel>),
    Object(Seq<(Seq<char>, JsonModel)>),
}

impl JsonValue {
    /// The mathematical form of the value.
    pub open spec fn model(&self) -> JsonModel
        decreases self,
    {
        match self {
            JsonValue::Null => JsonModel::Null,
            JsonValue::Bool(b) => JsonModel::Bool(*b),
            JsonValue::Int(n) => JsonModel::Int(*n),
            JsonValue::Float(f) => JsonModel::Float(f.model()),
            JsonValue::String(s) => JsonModel::String(s@),
            JsonValue::Array(v) => JsonModel::Array(json_models(v@)),
            JsonValue::Object(v) => JsonModel::Object(json_pair_models(v@)),
        }
    }
}

/// The models of a sequence of JSON values.
pub open spec fn json_models(v: Seq<JsonValue>) -> Seq<JsonModel>
    decreases v,
{
    Seq::new(v.len(), |i: int| if 0 <= i < v.len() { v[i].model() } else { JsonModel::Null })
}

/// The models of a sequence of named JSON values.
pub open spec fn json_pair_models(v: Seq<(String, JsonValue)>) -> Seq<(Seq<char>, JsonModel)>
    decreases v,
{
    Seq::new(
        v.len(),
        |i: int|
            if 0 <= i < v.len() {
                (v[i].0@, v[i].1.model())
            } else {
                (Seq::empty(), JsonModel::Null)
            },
    )
}

/// The text with every `_` replaced by `-`.
pub open spec fn dashed(s: Seq<char>) -> Seq<char>
    decreases s.len(),
{
    if s.len() == 0 {
        Seq::empty()
    } else {
        dashed(s.drop_last()).push(if s.last() == '_' { '-' } else { s.last() })
    }
}

/// The text with every `_` replaced by `-`.
fn dashed_text(s: &str) -> (r: String)
    ensures
        r@ == dashed(s@),
{
    let chars = to_chars(s);
    let mut out: Vec<char> = Vec::new();
    let mut i: usize = 0;
    while i < chars.len()
        invariant
            i <= chars@.len(),
            chars@ == s@,
            out@ == dashed(chars@.take(i as int)),
        decreases chars@.len() - i,
    {
        let c = chars[i];
        if c == '_' {
            out.push('-');
        } else {
            out.push(c);
        }
        assert(chars@.take(i + 1).drop_last() =~= chars@.take(i as int));
        i = i + 1;
    }
    assert(chars@.take(chars@.len() as int) =~= chars@);
    chars_to_string(&out)
}

/// The expression that a JSON value reads as: null is Nothing, arrays are
/// Arrays, objects are Dicts whose keys have `_` replaced by `-` (a later
/// entry replaces an earlier one with the same key).
pub open spec fn json_to_value(j: JsonModel) -> Value
    decreases j, 1nat,
{
    match j {
        JsonModel::Null => Value::Nothing,
        JsonModel::Bool(b) => Value::Bool(b),
        JsonModel::Int(n) => Value::Int(n),
        JsonModel::Float(f) => Value::Float(f),
        JsonModel::String(s) => Value::String(s),
        JsonModel::Array(items) => Value::Array(json_values(items)),
        JsonModel::Object(entries) => Value::Dict(json_entries(entries)),
    }
}

/// The expressions that JSON values read as.
pub open spec fn json_values(items: Seq<JsonModel>) -> Seq<Value>
    decreases items, 0nat,
{
    if items.len() == 0 {
        Seq::empty()
    } else {
        json_values(items.drop_last()).push(json_to_value(items.last()))
    }
}

/// The dictionary entries that JSON object entries read as.
pub open spec fn json_entries(entries: Seq<(Seq<char>, JsonModel)>) -> Seq<(Seq<char>, Value)>
    decreases entries, 0nat,
{
    if entries.len() == 0 {
        Seq::empty()
    } else {
        set_entry(json_entries(entries.drop_last()), dashed(entries.last().0), json_to_value(entries.last().1))
    }
}

/// The expressions that the JSON array items read as.
fn json_items_to_exprs(items: &Vec<JsonValue>) -> (r: Vec<Expr>)
    ensures
        models(r@) == json_values(json_models(items@)),
    decreases items, 0nat,
{
    let ghost ms = json_models(items@);
    let mut arr: Vec<Expr> = Vec::new();
    let mut i: usize = 0;
    assert(ms.take(0) =~= Seq::<JsonModel>::empty());
    assert(models(arr@) =~= Seq::<Value>::empty());
    while i < items.len()
        invariant
            i <= items@.len(),
            ms == json_models(items@),
            models(arr@) == json_values(ms.take(i as int)),
        decreases items@.len() - i,
    {
        proof {
            assert(decreases_to!(*items => items@));
            assert(decreases_to!(items@ => items@[i as int]));
        }
        let e = json_value_to_expr(&items[i]);
        let ghost before = arr@;
        arr.push(e);
        assert(models(arr@) =~= models(before).push(e.model()));
        assert(ms.take(i + 1).drop_last() =~= ms.take(i as int));
        i = i + 1;
    }
    assert(ms.take(items@.len() as int) =~= ms);
    arr
}

/// The dictionary entries that the JSON object entries read as.
fn json_entries_to_pairs(entries: &Vec<(String, JsonValue)>) -> (r: Vec<(String, Expr)>)
    ensures
        pair_models(r@) == json_entries(json_pair_models(entries@)),
    decreases entries, 0nat,
{
    let ghost ms = json_pair_models(entries@);
    let mut map: Vec<(String, Expr)> = Vec::new();
    let mut i: usize = 0;
    assert(ms.take(0) =~= Seq::<(Seq<char>, JsonModel)>::empty());
    assert(pair_models(map@) =~= Seq::<(Seq<char>, Value)>::empty());
    while i < entries.len()
        invariant
            i <= entries@.len(),
            ms == json_pair_models(entries@),
            pair_models(map@) == json_entries(ms.take(i as int)),
        decreases entries@.len() - i,
    {
        proof {
            assert(decreases_to!(*entries => entries@));
            assert(decreases_to!(entries@ => entries@[i as int]));
            assert(decreases_to!(entries@[i as int] => entries@[i as int].1));
        }
        let key = dashed_text(entries[i].0.as_str());
        let e = json_value_to_expr(&entries[i].1);
        set_entry_exec(&mut map, key.as_str(), e);
        assert(ms.take(i + 1).drop_last() =~= ms.take(i as int));
        i = i + 1;
    }
    assert(ms.take(entries@.len() as int) =~= ms);
    map
}

/// The expression that a JSON value reads as.
pub fn json_value_to_expr(json: &JsonValue) -> (r: Expr)
    ensures
        r.model() == json_to_value(json.model()),
    decreases json, 1nat,
{
    match json {
        JsonValue::Null => Expr::Nothing,
        JsonValue::Bool(b) => Expr::Bool(*b),
        JsonValue::Int(n) => Expr::Int(*n),
        JsonValue::Float(f) => Expr::Float(f.copy()),
        JsonValue::String(s) => Expr::String(s.clone()),
        JsonValue::Array(items) => Expr::Array(json_items_to_exprs(items)),
        JsonValue::Object(entries) => Expr::Dict(json_entries_to_pairs(entries)),
    }
}

/// The JSON value that an expression is written as: arrays, dictionaries
/// (with their values taken without annotations), texts, numbers and
/// booleans; anything else is the string `Unsupported`.
pub open spec fn value_to_json(v: Value) -> JsonModel
    decreases v, 1nat,
{
    match v {
        Value::Array(items) => JsonModel::Array(values_to_json(items)),
        Value::Dict(entries) => JsonModel::Object(entries_to_json(entries)),
        Value::String(s) => JsonModel::String(s),
        Value::Symbol(s) => JsonModel::String(s),
        Value::KeySymbol(s) => JsonModel::String(s),
        Value::Int(n) => JsonModel::Int(n),
        Value::Float(f) => JsonModel::Float(f),
        Value::Bool(b) => JsonModel::Bool(b),
        _ => JsonModel::String("Unsupported"@),
    }
}

/// The JSON values that expressions are written as.
pub open spec fn values_to_json(items: Seq<Value>) -> Seq<JsonModel>
    decreases items, 0nat,
{
    if items.len() == 0 {
        Seq::empty()
    } else {
        values_to_json(items.drop_last()).push(value_to_json(items.last()))
    }
}

/// The JSON object entries that dictionary entries are written as.
pub open spec fn entries_to_json(entries: Seq<(Seq<char>, Value)>) -> Seq<(Seq<char>, JsonModel)>
    decreases entries, 0nat,
{
    if entries.len() == 0 {
        Seq::empty()
    } else {
        entries_to_json(entries.drop_last()).push((entries.last().0, value_to_json(unpacked(entries.last().1))))
    }
}

/// The JSON values that the expressions are written as.
fn exprs_to_json(items: &Vec<Expr>) -> (r: Vec<JsonValue>)
    ensures
        json_models(r@) == values_to_json(models(items@)),
    decreases items, 0nat,
{
    let ghost ms = models(items@);
    let mut arr: Vec<JsonValue> = Vec::new();
    let mut i: usize = 0;
    assert(ms.take(0) =~= Seq::<Value>::empty());
    assert(json_models(arr@) =~= Seq::<JsonModel>::empty());
    while i < items.len()
        invariant
            i <= items@.len(),
            ms == models(items@),
            json_models(arr@) == values_to_json(ms.take(i as int)),
        decreases items@.len() - i,
    {
        proof {
            assert(decreases_to!(*items => items@));
            assert(decreases_to!(items@ => items@[i as int]));
        }
        let j = expr_to_json_value(&items[i]);
        let ghost before = arr@;
        arr.push(j);
        assert(json_models(arr@) =~= json_models(before).push(j.model()));
        assert(ms.take(i + 1).drop_last() =~= ms.take(i as int));
        i = i + 1;
    }
    assert(ms.take(items@.len() as int) =~= ms);
    arr
}

/// The JSON object entries that the dictionary entries are written as.
fn pairs_to_json(entries: &Vec<(String, Expr)>) -> (r: Vec<(String, JsonValue)>)
    ensures
        json_pair_models(r@) == entries_to_json(pair_models(entries@)),
    decreases entries, 0nat,
{
    let ghost ms = pair_models(entries@);
    let mut obj: Vec<(String, JsonValue)> = Vec::new();
    let mut i: usize = 0;
    assert(ms.take(0) =~= Seq::<(Seq<char>, Value)>::empty());
    assert(json_pair_models(obj@) =~= Seq::<(Seq<char>, JsonModel)>::empty());
    while i < entries.len()
        invariant
            i <= entries@.len(),
            ms == pair_models(entries@),
            json_pair_models(obj@) == entries_to_json(ms.take(i as int)),
        decreases entries@.len() - i,
    {
        proof {
            assert(decreases_to!(*entries => entries@));
            assert(decreases_to!(entries@ => entries@[i as int]));
            assert(decreases_to!(entries@[i as int] => entries@[i as int].1));
        }
        let value = &entries[i].1;
        let j = match value {
            Expr::Annotated(inner, _) => expr_to_json_value(inner),
            _ => expr_to_json_value(value),
        };
        let k = entries[i].0.clone();
        let ghost before = obj@;
        obj.push((k, j));
        assert(json_pair_models(obj@) =~= json_pair_models(before).push((k@, j.model())));
        assert(ms.take(i + 1).drop_last() =~= ms.take(i as int));
        i = i + 1;
    }
    assert(ms.take(entries@.len() as int) =~= ms);
    obj
}

/// The JSON value that an expression is written as.
pub fn expr_to_json_value(expr: &Expr) -> (r: JsonValue)
    ensures
        r.model() == value_to_json(expr.model()),
    decreases expr, 1nat,
{
    match expr {
        Expr::Array(items) => JsonValue::Array(exprs_to_json(items)),
        Expr::Dict(entries) => JsonValue::Object(pairs_to_json(entries)),
        Expr::String(s) => JsonValue::String(s.clone()),
        Expr::Symbol(s) => JsonValue::String(s.clone()),
        Expr::KeySymbol(s) => JsonValue::String(s.clone()),
        Expr::Int(n) => JsonValue::Int(*n),
        Expr::Float(f) => JsonValue::Float(f.copy()),
        Expr::Bool(b) => JsonValue::Bool(*b),
        _ => JsonValue::String("Unsupported".to_owned()),
    }
}

/// A JSON value that reads and writes back unchanged: no null, and objects
/// with distinct keys that hold no `_`.
pub open spec fn plain_json(j: JsonModel) -> bool
    decreases j, 1nat,
{
    match j {
        JsonModel::Null => false,
        JsonModel::Array(items) => plain_items(items),
        JsonModel::Object(entries) => plain_entries(entries),
        _ => true,
    }
}

/// Every item is a plain JSON value.
pub open spec fn plain_items(items: Seq<JsonModel>) -> bool
    decreases items, 0nat,
{
    items.len() == 0 || (plain_items(items.drop_last()) && plain_json(items.last()))
}

/// Every value is plain, and the keys are distinct and hold no `_`.
pub open spec fn plain_entries(entries: Seq<(Seq<char>, JsonModel)>) -> bool
    decreases entries, 0nat,
{
    entries.len() == 0 || (plain_entries(entries.drop_last()) && plain_json(entries.last().1)
        && !entries.last().0.contains('_') && forall|i: int|
        0 <= i < entries.len() - 1 ==> #[trigger] entries[i].0 != entries.last().0)
}

/// A key without `_` keeps its text.
proof fn lemma_dashed_plain(k: Seq<char>)
    requires
        !k.contains('_'),
    ensures
        dashed(k) == k,
    decreases k.len(),
{
    if k.len() > 0 {
        let d = k.drop_last();
        assert(!d.contains('_')) by {
            if d.contains('_') {
                let i = choose|i: int| 0 <= i < d.len() && d[i] == '_';
                assert(k[i] == '_');
            }
        }
        lemma_dashed_plain(d);
        assert(k.last() != '_') by {
            assert(k[k.len() - 1] == k.last());
        }
        assert(d.push(k.last()) =~= k);
    }
}

/// No entry has the key: it is not found.
proof fn lemma_key_absent(s: Seq<(Seq<char>, Value)>, k: Seq<char>, from: int)
    requires
        0 <= from <= s.len(),
        forall|i: int| 0 <= i < s.len() ==> #[trigger] s[i].0 != k,
    ensures
        first_key_from(s, k, from) is None,
    decreases s.len() - from,
{
    if from < s.len() {
        lemma_key_absent(s, k, from + 1);
    }
}

/// A plain JSON value reads as an expression that is not annotated, and
/// that expression writes back as the same JSON value.
proof fn lemma_json_round_trip(j: JsonModel)
    requires
        plain_json(j),
    ensures
        value_to_json(json_to_value(j)) == j,
        !(json_to_value(j) is Annotated),
    decreases j, 1nat,
{
    match j {
        JsonModel::Array(items) => {
            lemma_items_round_trip(items);
        },
        JsonModel::Object(entries) => {
            lemma_entries_round_trip(entries);
        },
        _ => {},
    }
}

/// Plain items read and write back unchanged.
proof fn lemma_items_round_trip(items: Seq<JsonModel>)
    requires
        plain_items(items),
    ensures
        values_to_json(json_values(items)) == items,
        json_values(items).len() == items.len(),
    decreases items, 0nat,
{
    if items.len() > 0 {
        lemma_items_round_trip(items.drop_last());
        lemma_json_round_trip(items.last());
        let vs = json_values(items);
        assert(vs.drop_last() =~= json_values(items.drop_last()));
        assert(items.drop_last().push(items.last()) =~= items);
    }
}

/// Plain entries read as entries with the same keys, and write back unchanged.
proof fn lemma_entries_round_trip(entries: Seq<(Seq<char>, JsonModel)>)
    requires
        plain_entries(entries),
    ensures
        entries_to_json(json_entries(entries)) == entries,
        json_entries(entries).len() == entries.len(),
        forall|i: int| 0 <= i < entries.len() ==> (#[trigger] json_entries(entries)[i]).0 == entries[i].0,
    decreases entries, 0nat,
{
    if entries.len() > 0 {
        let init = entries.drop_last();
        let last = entries.last();
        lemma_entries_round_trip(init);
        lemma_json_round_trip(last.1);
        lemma_dashed_plain(last.0);
        let before = json_entries(init);
        assert forall|i: int| 0 <= i < before.len() implies #[trigger] before[i].0 != last.0 by {
            assert(before[i].0 == init[i].0);
            assert(init[i] == entries[i]);
        }
        lemma_key_absent(before, last.0, 0);
        let after = json_entries(entries);
        assert(after == before.push((last.0, json_to_value(last.1))));
        assert(after.drop_last() =~= before);
        assert(init.push(last) =~= entries);
    }
}

/// A JSON value without nulls, whose objects have distinct keys without
/// `_`, reads as an expression that writes back as the same JSON value.
pub proof fn law_json_read_then_write(j: JsonModel)
    requires
        plain_json(j),
    ensures
        value_to_json(json_to_value(j)) == j,
{
    lemma_json_round_trip(j);
}

/// The JSON text of `(read json)`: its one argument, which should be a
/// String. The text itself is read by the host's JSON parser.
pub fn json_source(args: &[Expr]) -> (r: Result<String, Error>)
    ensures
        args@.len() != 1 ==> (r matches Err(e) && error_says(e, ErrorKind::InvalidArguments, "`read` requires `json` argument"@)),
        args@.len() == 1 && string_of(args@[0].model()) is None ==> (r matches Err(e) && error_says(
            e,
            ErrorKind::InvalidArguments,
            "`json` argument should be a String"@,
        )),
        args@.len() == 1 && string_of(args@[0].model()) is Some ==> (r matches Ok(t) && t@ == string_of(
            args@[0].model(),
        )->0),
{
    if args.len() != 1 {
        return Err(Error::invalid_arguments("`read` requires `json` argument", None));
    }
    let Some(json) = args[0].as_string() else {
        return Err(Error::invalid_arguments("`json` argument should be a String", None));
    };
    Ok(json.clone())
}

/// The modules after `setup_lib_codec_json`: the bindings it adds to the `codec/json-codec` module.
pub open spec fn lib_codec_json(m: Modules) -> Modules {
    let m = bound_foreign(m, "codec/json-codec"@, "read"@, ForeignFn::JsonReadString);
    let m = bound_foreign(m, "codec/json-codec"@, "to-string"@, ForeignFn::ExprToJsonString);
    m
}

/// Binds the functions of this library in the `codec/json-codec` module.
pub fn setup_lib_codec_json(context: &mut Context)
    requires
        old(context).wf(),
    ensures
        final(context).wf(),
        final(context).modules() == lib_codec_json(old(context).modules()),
{
    let module = require_module("codec/json-codec", context);
    insert_foreign(context, module, "read", ForeignFn::JsonReadString);
    proof {
        lemma_bound_required(old(context).modules(), "codec/json-codec"@, "read"@, Value::ForeignFunc(ForeignFn::JsonReadString));
    }
    insert_foreign(context, module, "to-string", ForeignFn::ExprToJsonString);
}

/// The dashed text, character by character: `-` where the text has `_`,
/// the text's character elsewhere.
proof fn lemma_dashed_chars(k: Seq<char>)
    ensures
        dashed(k).len() == k.len(),
        forall|i: int| 0 <= i < k.len() ==> #[trigger] dashed(k)[i] == if k[i] == '_' { '-' } else { k[i] },
    decreases k.len(),
{
    if k.len() > 0 {
        lemma_dashed_chars(k.drop_last());
    }
}

/// A JSON object key reads with every `_` turned into `-` and nothing else
/// changed: the key read has the same length, `-` wherever the JSON key has
/// `_`, and the JSON key's character everywhere else, so it holds no `_`.
/// An object of one entry reads as a Dict of one entry under that key.
pub proof fn law_json_keys_dash_every_underscore(k: Seq<char>, v: JsonModel)
    ensures
        dashed(k).len() == k.len(),
        forall|i: int| 0 <= i < k.len() ==> #[trigger] dashed(k)[i] == if k[i] == '_' { '-' } else { k[i] },
        !dashed(k).contains('_'),
        json_to_value(JsonModel::Object(seq![(k, v)])) == Value::Dict(seq![(dashed(k), json_to_value(v))]),
{
    lemma_dashed_chars(k);
    if dashed(k).contains('_') {
        let i = choose|i: int| 0 <= i < dashed(k).len() && dashed(k)[i] == '_';
        assert(dashed(k)[i] == if k[i] == '_' { '-' } else { k[i] });
    }
    let es = seq![(k, v)];
    assert(es.drop_last() =~= Seq::<(Seq<char>, JsonModel)>::empty());
    assert(json_entries(es.drop_last()) =~= Seq::<(Seq<char>, Value)>::empty());
    assert(json_entries(es) =~= seq![(dashed(k), json_to_value(v))]);
}

} // verus!
