//! The value codec, target rendering and small formatting helpers.

use vstd::prelude::*;
use std::time::Duration;
use std::time::SystemTime;
use surrealdb_types::{RecordId, RecordIdKey, Table, ToSql};
use crate::text::{
    after_first, contains_char, decimal, decimal_pad3, decimal_pad3_string, decimal_string,
    first_field, joined, lemma_fields_rejoin, lower_hex, lower_hex_string,
};
use crate::value::{is_finite_bits, finite_bits, Json, JsonTree, Number, Value, ValueTree};

verus! {

/// The database value that a JSON tree is bound as: the same tree, node for
/// node, with `null` as the absent value.
pub open spec fn encode_tree(j: JsonTree) -> ValueTree
    decreases j,
{
    match j {
        JsonTree::Null => ValueTree::Nothing,
        JsonTree::Bool(b) => ValueTree::Bool(b),
        JsonTree::Int(i) => ValueTree::Int(i),
        JsonTree::Float(f) => ValueTree::Float(f),
        JsonTree::Text(s) => ValueTree::Text(s),
        JsonTree::Array(items) => ValueTree::Array(
            Seq::new(
                items.len(),
                |i: int|
                    if 0 <= i < items.len() {
                        encode_tree(items[i])
                    } else {
                        ValueTree::Nothing
                    },
            ),
        ),
        JsonTree::Object(fields) => ValueTree::Object(
            Seq::new(
                fields.len(),
                |i: int|
                    if 0 <= i < fields.len() {
                        (fields[i].0, encode_tree(fields[i].1))
                    } else {
                        (Seq::empty(), ValueTree::Nothing)
                    },
            ),
        ),
    }
}

/// The JSON tree that a database value is reported as. Decimals and the
/// kinds that JSON lacks become their text; a number that is not finite
/// becomes `null`, as JSON has no such number.
pub open spec fn decode_tree(v: ValueTree) -> JsonTree
    decreases v,
{
    match v {
        ValueTree::Nothing => JsonTree::Null,
        ValueTree::Null => JsonTree::Null,
        ValueTree::Bool(b) => JsonTree::Bool(b),
        ValueTree::Int(i) => JsonTree::Int(i),
        ValueTree::Float(f) => if is_finite_bits(f) {
            JsonTree::Float(f)
        } else {
            JsonTree::Null
        },
        ValueTree::Decimal(d) => JsonTree::Text(d),
        ValueTree::Text(s) => JsonTree::Text(s),
        ValueTree::Array(items) => JsonTree::Array(
            Seq::new(
                items.len(),
                |i: int|
                    if 0 <= i < items.len() {
                        decode_tree(items[i])
                    } else {
                        JsonTree::Null
                    },
            ),
        ),
        ValueTree::Object(fields) => JsonTree::Object(
            Seq::new(
                fields.len(),
                |i: int|
                    if 0 <= i < fields.len() {
                        (fields[i].0, decode_tree(fields[i].1))
                    } else {
                        (Seq::empty(), JsonTree::Null)
                    },
            ),
        ),
        ValueTree::Opaque(_, text) => JsonTree::Text(text),
    }
}

/// The text that places a failure below element `index` of an array.
pub open spec fn index_path(index: nat, rest: Seq<char>) -> Seq<char> {
    seq!['['] + decimal(index) + seq![']'] + rest
}

/// The text that places a failure below field `key` of an object.
pub open spec fn field_path(key: Seq<char>, rest: Seq<char>) -> Seq<char> {
    seq!['.'] + key + rest
}

/// The message for parameter `name` whose conversion failed at `path`: the
/// name stands in quotes, and the path follows the closing quote.
pub open spec fn conversion_error(name: Seq<char>, path: Seq<char>) -> Seq<char> {
    "Failed to convert parameter '"@ + name + seq!['\''] + path
}

/// Puts `[index]` in front of the path `rest`.
pub fn prefix_index(index: usize, rest: &str) -> (r: String)
    ensures
        r@ == index_path(index as nat, rest@),
{
    proof {
        reveal_strlit("[");
        reveal_strlit("]");
    }
    let mut out = String::from_str("[");
    let digits = decimal_string(index as u128);
    out.append(digits.as_str());
    out.append("]");
    out.append(rest);
    assert(out@ =~= index_path(index as nat, rest@));
    out
}

/// Puts `.key` in front of the path `rest`.
pub fn prefix_field(key: &str, rest: &str) -> (r: String)
    ensures
        r@ == field_path(key@, rest@),
{
    proof {
        reveal_strlit(".");
    }
    let mut out = String::from_str(".");
    out.append(key);
    out.append(rest);
    assert(out@ =~= field_path(key@, rest@));
    out
}

/// Words the failure of parameter `name` at `path`.
pub fn parameter_error(name: &str, path: &str) -> (r: String)
    ensures
        r@ == conversion_error(name@, path@),
{
    proof {
        reveal_strlit("'");
    }
    let mut out = String::from_str("Failed to convert parameter '");
    out.append(name);
    out.append("'");
    out.append(path);
    assert(out@ =~= conversion_error(name@, path@));
    out
}

/// Converts a JSON value into the database value it is bound as.
///
/// Every JSON value has a counterpart, so the conversion always succeeds;
/// `name` would only be used to word a failure.
pub fn convert_json_to_surreal(value: Json, name: &str) -> (r: Result<Value, String>)
    ensures
        r is Ok,
        r.unwrap()@ == encode_tree(value@),
{
    match convert_json_to_surreal_recursive(&value) {
        Ok(v) => Ok(v),
        Err(path) => Err(parameter_error(name, path.as_str())),
    }
}

/// Converts one node and, through it, everything below. An error is the path
/// to the node that failed, built from the inside outwards.
pub(crate) fn convert_json_to_surreal_recursive(json: &Json) -> (r: Result<Value, String>)
    ensures
        r is Ok,
        r.unwrap()@ == encode_tree(json@),
    decreases json,
{
    match json {
        Json::Null => Ok(Value::Nothing),
        Json::Bool(b) => Ok(Value::Bool(*b)),
        Json::Int(i) => Ok(Value::Number(Number::Int(*i))),
        Json::Float(f) => Ok(Value::Number(Number::Float(*f))),
        Json::String(s) => Ok(Value::String(s.clone())),
        Json::Array(items) => {
            let mut vals: Vec<Value> = Vec::with_capacity(items.len());
            let mut i: usize = 0;
            while i < items.len()
                invariant
                    i <= items.len(),
                    vals.len() == i,
                    json == Json::Array(*items),
                    forall|k: int| 0 <= k < i ==> (#[trigger] vals[k])@ == encode_tree(items[k]@),
                decreases items.len() - i,
            {
                proof {
                    vstd::std_specs::vec::axiom_vec_index_decreases(*items, i as int);
                }
                match convert_json_to_surreal_recursive(&items[i]) {
                    Ok(v) => vals.push(v),
                    Err(path) => {
                        return Err(prefix_index(i, path.as_str()));
                    },
                }
                i += 1;
            }
            let out = Value::Array(vals);
            proof {
                assert(out@->Array_0 =~= encode_tree(json@)->Array_0);
            }
            Ok(out)
        },
        Json::Object(fields) => {
            let mut vals: Vec<(String, Value)> = Vec::with_capacity(fields.len());
            let mut i: usize = 0;
            while i < fields.len()
                invariant
                    i <= fields.len(),
                    vals.len() == i,
                    json == Json::Object(*fields),
                    forall|k: int|
                        0 <= k < i ==> (#[trigger] vals[k]).0@ == fields[k].0@ && vals[k].1@
                            == encode_tree(fields[k].1@),
                decreases fields.len() - i,
            {
                let key: &String = &fields[i].0;
                proof {
                    vstd::std_specs::vec::axiom_vec_index_decreases(*fields, i as int);
                }
                match convert_json_to_surreal_recursive(&fields[i].1) {
                    Ok(v) => vals.push((key.clone(), v)),
                    Err(path) => {
                        return Err(prefix_field(key.as_str(), path.as_str()));
                    },
                }
                i += 1;
            }
            let out = Value::Object(vals);
            proof {
                assert(out@->Object_0 =~= encode_tree(json@)->Object_0);
            }
            Ok(out)
        },
    }
}

/// Converts a database value into the JSON tree it is reported as.
///
/// Decimals keep every digit by becoming strings; values of kinds that JSON
/// lacks become their canonical query text.
pub fn surreal_to_json(value: Value) -> (r: Json)
    ensures
        r@ == decode_tree(value@),
        value@ matches ValueTree::Opaque(_, text) ==> r@ == JsonTree::Text(text),
        value@ matches ValueTree::Decimal(digits) ==> r@ == JsonTree::Text(digits),
{
    decode_value(&value)
}

pub(crate) fn decode_value(value: &Value) -> (r: Json)
    ensures
        r@ == decode_tree(value@),
    decreases value,
{
    match value {
        Value::Nothing => Json::Null,
        Value::Null => Json::Null,
        Value::Bool(b) => Json::Bool(*b),
        Value::Number(n) => match n {
            Number::Int(i) => Json::Int(*i),
            Number::Float(f) => if finite_bits(*f) {
                Json::Float(*f)
            } else {
                Json::Null
            },
            Number::Decimal(d) => Json::String(d.clone()),
        },
        Value::String(s) => Json::String(s.clone()),
        Value::Array(items) => {
            let mut vals: Vec<Json> = Vec::with_capacity(items.len());
            let mut i: usize = 0;
            while i < items.len()
                invariant
                    i <= items.len(),
                    vals.len() == i,
                    value == Value::Array(*items),
                    forall|k: int| 0 <= k < i ==> (#[trigger] vals[k])@ == decode_tree(items[k]@),
                decreases items.len() - i,
            {
                proof {
                    vstd::std_specs::vec::axiom_vec_index_decreases(*items, i as int);
                    assert(value->Array_0 == *items);
                }
                let v = decode_value(&items[i]);
                vals.push(v);
                i += 1;
            }
            let out = Json::Array(vals);
            proof {
                assert(out@->Array_0 =~= decode_tree(value@)->Array_0);
            }
            out
        },
        Value::Object(fields) => {
            let mut vals: Vec<(String, Json)> = Vec::with_capacity(fields.len());
            let mut i: usize = 0;
            while i < fields.len()
                invariant
                    i <= fields.len(),
                    vals.len() == i,
                    value == Value::Object(*fields),
                    forall|k: int|
                        0 <= k < i ==> (#[trigger] vals[k]).0@ == fields[k].0@ && vals[k].1@
                            == decode_tree(fields[k].1@),
                decreases fields.len() - i,
            {
                proof {
                    vstd::std_specs::vec::axiom_vec_index_decreases(*fields, i as int);
                    assert(value->Object_0 == *fields);
                }
                let v = decode_value(&fields[i].1);
                vals.push((fields[i].0.clone(), v));
                i += 1;
            }
            let out = Json::Object(vals);
            proof {
                assert(out@->Object_0 =~= decode_tree(value@)->Object_0);
            }
            out
        },
        Value::Opaque(_, text) => Json::String(text.clone()),
    }
}

/// Encoding keeps a tree well formed.
pub proof fn lemma_encode_well_formed(j: JsonTree)
    requires
        j.wf(),
    ensures
        encode_tree(j).wf(),
    decreases j,
{
    match j {
        JsonTree::Array(items) => {
            let out = encode_tree(j)->Array_0;
            assert forall|i: int| 0 <= i < out.len() implies (#[trigger] out[i]).wf() by {
                assert(items[i].wf());
                lemma_encode_well_formed(items[i]);
            }
        },
        JsonTree::Object(fields) => {
            let out = encode_tree(j)->Object_0;
            assert forall|i: int| 0 <= i < out.len() implies (#[trigger] out[i]).1.wf() by {
                assert(fields[i].1.wf());
                lemma_encode_well_formed(fields[i].1);
            }
            assert forall|i: int, k: int| 0 <= i < k < out.len() implies (#[trigger] out[i]).0 != (
            #[trigger] out[k]).0 by {
                assert(fields[i].0 != fields[k].0);
            }
        },
        _ => {},
    }
}

/// Decoding yields a well-formed JSON tree from every well-formed value:
/// no number in it is an infinity or a NaN, and no key is doubled.
pub proof fn lemma_decode_well_formed(v: ValueTree)
    requires
        v.wf(),
    ensures
        decode_tree(v).wf(),
    decreases v,
{
    match v {
        ValueTree::Array(items) => {
            let out = decode_tree(v)->Array_0;
            assert forall|i: int| 0 <= i < out.len() implies (#[trigger] out[i]).wf() by {
                assert(items[i].wf());
                lemma_decode_well_formed(items[i]);
            }
        },
        ValueTree::Object(fields) => {
            let out = decode_tree(v)->Object_0;
            assert forall|i: int| 0 <= i < out.len() implies (#[trigger] out[i]).1.wf() by {
                assert(fields[i].1.wf());
                lemma_decode_well_formed(fields[i].1);
            }
            assert forall|i: int, k: int| 0 <= i < k < out.len() implies (#[trigger] out[i]).0 != (
            #[trigger] out[k]).0 by {
                assert(fields[i].0 != fields[k].0);
            }
        },
        _ => {},
    }
}

/// Whether every number in `j` is finite.
pub open spec fn all_finite(j: JsonTree) -> bool
    decreases j,
{
    match j {
        JsonTree::Float(f) => is_finite_bits(f),
        JsonTree::Array(items) => forall|i: int|
            0 <= i < items.len() ==> all_finite(#[trigger] items[i]),
        JsonTree::Object(fields) => forall|i: int|
            0 <= i < fields.len() ==> all_finite((#[trigger] fields[i]).1),
        _ => true,
    }
}

/// Round trip: a JSON tree of nulls, booleans, integers, finite numbers,
/// strings, arrays and objects comes back from encoding and then decoding
/// exactly as it went in.
pub proof fn lemma_decode_encode_round_trip(j: JsonTree)
    requires
        all_finite(j),
    ensures
        decode_tree(encode_tree(j)) == j,
    decreases j,
{
    match j {
        JsonTree::Array(items) => {
            let back = decode_tree(encode_tree(j))->Array_0;
            assert forall|i: int| 0 <= i < items.len() implies back[i] == items[i] by {
                assert(all_finite(items[i]));
                lemma_decode_encode_round_trip(items[i]);
            }
            assert(back =~= items);
        },
        JsonTree::Object(fields) => {
            let back = decode_tree(encode_tree(j))->Object_0;
            assert forall|i: int| 0 <= i < fields.len() implies back[i] == fields[i] by {
                assert(all_finite(fields[i].1));
                lemma_decode_encode_round_trip(fields[i].1);
            }
            assert(back =~= fields);
        },
        _ => {},
    }
}

/// The reverse trip is lossy on purpose: the absent value, decimals and the
/// kinds that JSON lacks do not come back from decoding and then encoding,
/// while every other leaf does.
pub proof fn lemma_encode_decode_leaves(v: ValueTree)
    ensures
        v is Null ==> encode_tree(decode_tree(v)) == ValueTree::Nothing,
        v matches ValueTree::Decimal(d) ==> encode_tree(decode_tree(v)) == ValueTree::Text(d),
        v matches ValueTree::Opaque(_, text) ==> encode_tree(decode_tree(v)) == ValueTree::Text(
            text,
        ),
        v matches ValueTree::Float(f) ==> encode_tree(decode_tree(v)) == if is_finite_bits(f) {
            v
        } else {
            ValueTree::Nothing
        },
        v is Nothing || v is Bool || v is Int || v is Text ==> encode_tree(decode_tree(v)) == v,
{
}

/// The table and the key of the record identifier that `input` parses to
/// as `table:key`, or `None` where it does not parse.
pub uninterp spec fn parsed_record_id(input: Seq<char>) -> Option<(Seq<char>, Seq<char>)>;

/// The canonical query text of the record identifier of `table` with the
/// string `key`.
pub uninterp spec fn record_id_sql(table: Seq<char>, key: Seq<char>) -> Seq<char>;

/// The canonical query text of the table called `name`.
pub uninterp spec fn table_sql(name: Seq<char>) -> Seq<char>;

/// Whether `name` can stand in query text as it is: not empty, no digit in
/// front, and made of ASCII letters, digits and underscores only.
pub open spec fn is_plain_ident(name: Seq<char>) -> bool {
    &&& name.len() > 0
    &&& !('0' <= name[0] <= '9')
    &&& forall|i: int|
        0 <= i < name.len() ==> {
            let c = #[trigger] name[i];
            ('a' <= c <= 'z') || ('A' <= c <= 'Z') || ('0' <= c <= '9') || c == '_'
        }
}

/// Whether `key` can stand in query text as it is: not empty, made of ASCII
/// letters, digits and underscores only, and with a letter among them.
pub open spec fn is_plain_key(key: Seq<char>) -> bool {
    &&& key.len() > 0
    &&& forall|i: int|
        0 <= i < key.len() ==> {
            let c = #[trigger] key[i];
            ('a' <= c <= 'z') || ('A' <= c <= 'Z') || ('0' <= c <= '9') || c == '_'
        }
    &&& exists|i: int|
        0 <= i < key.len() && {
            let c = #[trigger] key[i];
            ('a' <= c <= 'z') || ('A' <= c <= 'Z')
        }
}

/// Whether `input` holds a colon and no backtick, so that nothing in it is
/// quoted.
pub open spec fn splits_plainly(input: Seq<char>) -> bool {
    input.contains(':') && !input.contains('`')
}

/// What stands before the first colon of `input`.
pub open spec fn plain_table(input: Seq<char>) -> Seq<char> {
    first_field(input, ':')
}

/// What stands after the first colon of `input`.
pub open spec fn plain_key(input: Seq<char>) -> Seq<char> {
    after_first(input, ':')
}

/// `surrealdb_types::RecordId::parse_simple`, which makes every key a
/// string. Trusted: the result holds the named table and key of the input,
/// and is there exactly where the parse succeeds; an input with a colon and
/// without a backtick parses, and is split at its first colon with both
/// parts kept as they are.
#[verifier::external_body]
fn parse_record_id(input: &str) -> (r: Option<(String, String)>)
    ensures
        match r {
            Some(parts) => parsed_record_id(input@) == Some((parts.0@, parts.1@)),
            None => parsed_record_id(input@) is None,
        },
        splits_plainly(input@) ==> r is Some && r.unwrap().0@ == plain_table(input@)
            && r.unwrap().1@ == plain_key(input@),
{
    match RecordId::parse_simple(input) {
        Ok(RecordId { table, key: RecordIdKey::String(key) }) => Some((table.into_string(), key)),
        _ => None,
    }
}

/// `ToSql::to_sql` of a `surrealdb_types::RecordId` with a string key, as a
/// value. Trusted: the result is the named rendering of table and key,
/// which is the table, a colon and the key where neither needs quoting.
#[verifier::external_body]
fn record_id_to_sql(table: String, key: String) -> (r: String)
    ensures
        r@ == record_id_sql(table@, key@),
        is_plain_ident(table@) && is_plain_key(key@) ==> r@ == table@ + seq![':'] + key@,
{
    surrealdb_types::Value::RecordId(RecordId::new(table, key)).to_sql()
}

/// `ToSql::to_sql` of `surrealdb_types::Table` as a value. Trusted: the
/// result is the named rendering of the name, which is the name itself
/// where it needs no quoting.
#[verifier::external_body]
fn table_to_sql(name: String) -> (r: String)
    ensures
        r@ == table_sql(name@),
        is_plain_ident(name@) ==> r@ == name@,
{
    surrealdb_types::Value::Table(Table::from(name)).to_sql()
}

/// The query text that `input` stands for: the record identifier where the
/// input holds a colon and parses as one, else the table of that name.
pub open spec fn target_text(input: Seq<char>) -> Seq<char> {
    if input.contains(':') && parsed_record_id(input) is Some {
        record_id_sql(parsed_record_id(input).unwrap().0, parsed_record_id(input).unwrap().1)
    } else {
        table_sql(input)
    }
}

/// A name that can stand in query text as it is holds no colon.
pub proof fn lemma_plain_ident_has_no_colon(name: Seq<char>)
    requires
        is_plain_ident(name),
    ensures
        !name.contains(':'),
{
    if name.contains(':') {
        let i = choose|i: int| 0 <= i < name.len() && name[i] == ':';
        assert(name[i] == ':');
    }
}

/// Whether `input` needs no quoting anywhere: a plain table name, or a plain
/// table name, a colon and a plain key.
pub open spec fn is_plain_target(input: Seq<char>) -> bool {
    is_plain_ident(input) || (splits_plainly(input) && is_plain_ident(plain_table(input))
        && is_plain_key(plain_key(input)))
}

/// Renders one target, a record identifier or a table name, as query text.
/// A target that needs no quoting is its own rendering.
/// Every input has a rendering: what is no record identifier is a table.
pub fn parse_target(value: String) -> (r: Result<String, String>)
    ensures
        r is Ok,
        r.unwrap()@ == target_text(value@),
        !value@.contains(':') ==> r.unwrap()@ == table_sql(value@),
        is_plain_ident(value@) ==> r.unwrap()@ == value@,
        is_plain_target(value@) ==> r.unwrap()@ == value@,
{
    proof {
        if is_plain_ident(value@) {
            lemma_plain_ident_has_no_colon(value@);
        }
        if value@.contains(':') {
            lemma_fields_rejoin(value@, ':');
        }
    }
    if contains_char(value.as_str(), ':') {
        if let Some(parts) = parse_record_id(value.as_str()) {
            return Ok(record_id_to_sql(parts.0, parts.1));
        }
    }
    Ok(table_to_sql(value))
}

/// The texts of `items`, in order.
pub open spec fn texts(items: Seq<String>) -> Seq<Seq<char>> {
    Seq::new(items.len(), |i: int| items[i]@)
}

/// Writes `items` in one line, separated by a comma and a space.
pub fn join_targets(items: &Vec<String>) -> (r: String)
    ensures
        r@ == joined(texts(items@), ", "@),
{
    let ghost all = texts(items@);
    let mut out = String::new();
    let mut i: usize = 0;
    while i < items.len()
        invariant
            i <= items.len(),
            all == texts(items@),
            out@ == joined(all.take(i as int), ", "@),
        decreases items.len() - i,
    {
        proof {
            let next = all.take(i + 1);
            assert(next.drop_last() =~= all.take(i as int));
            assert(next.last() == items[i as int]@);
            if i == 0 {
                assert(joined(all.take(0), ", "@) =~= Seq::<char>::empty());
            }
        }
        if i > 0 {
            out.append(", ");
        }
        out.append(items[i].as_str());
        proof {
            if i == 0 {
                assert(out@ =~= items[0]@);
            }
        }
        i += 1;
    }
    assert(all.take(i as int) =~= all);
    out
}

/// The query texts that `inputs` stand for, in order.
pub open spec fn target_texts(inputs: Seq<String>) -> Seq<Seq<char>> {
    Seq::new(inputs.len(), |i: int| target_text(inputs[i]@))
}

/// Renders each target and joins the renderings with `", "`. A target that
/// needs no quoting stands in the result as it was given.
pub fn parse_targets(values: Vec<String>) -> (r: Result<String, String>)
    ensures
        r is Ok,
        r.unwrap()@ == joined(target_texts(values@), ", "@),
        forall|k: int|
            0 <= k < values@.len() && is_plain_target(values@[k]@) ==> #[trigger] target_texts(
                values@,
            )[k] == values@[k]@,
{
    let mut items: Vec<String> = Vec::new();
    let mut i: usize = 0;
    while i < values.len()
        invariant
            i <= values.len(),
            items.len() == i,
            forall|k: int| 0 <= k < i ==> (#[trigger] items[k])@ == target_text(values[k]@),
            forall|k: int|
                0 <= k < i && is_plain_target(values[k]@) ==> (#[trigger] items[k])@
                    == values[k]@,
        decreases values.len() - i,
    {
        match parse_target(values[i].clone()) {
            Ok(text) => items.push(text),
            Err(e) => {
                return Err(e);
            },
        }
        i += 1;
    }
    assert(texts(items@) =~= target_texts(values@));
    Ok(join_targets(&items))
}

/// How a duration of `secs` whole seconds and `millis` further milliseconds
/// reads: milliseconds below a second, seconds with three decimals below a
/// minute, then minutes and seconds, then hours, minutes and seconds.
pub open spec fn duration_text(secs: nat, millis: nat) -> Seq<char> {
    if secs == 0 {
        decimal(millis) + "ms"@
    } else if secs < 60 {
        decimal(secs) + "."@ + decimal_pad3(millis) + "s"@
    } else if secs < 3600 {
        decimal(secs / 60) + "m "@ + decimal(secs % 60) + "s"@
    } else {
        decimal(secs / 3600) + "h "@ + decimal((secs % 3600) / 60) + "m "@ + decimal(secs % 60)
            + "s"@
    }
}

/// Writes a duration given as whole seconds and further milliseconds.
pub fn format_duration_parts(total_secs: u64, millis: u32) -> (r: String)
    ensures
        r@ == duration_text(total_secs as nat, millis as nat),
{
    if total_secs == 0 {
        let mut out = decimal_string(millis as u128);
        out.append("ms");
        out
    } else if total_secs < 60 {
        let mut out = decimal_string(total_secs as u128);
        out.append(".");
        let fraction = decimal_pad3_string(millis as u128);
        out.append(fraction.as_str());
        out.append("s");
        assert(out@ =~= duration_text(total_secs as nat, millis as nat));
        out
    } else if total_secs < 3600 {
        let minutes: u64 = total_secs / 60;
        let seconds: u64 = total_secs % 60;
        let mut out = decimal_string(minutes as u128);
        out.append("m ");
        let tail = decimal_string(seconds as u128);
        out.append(tail.as_str());
        out.append("s");
        assert(out@ =~= duration_text(total_secs as nat, millis as nat));
        out
    } else {
        let hours: u64 = total_secs / 3600;
        let minutes: u64 = (total_secs % 3600) / 60;
        let seconds: u64 = total_secs % 60;
        let mut out = decimal_string(hours as u128);
        out.append("h ");
        let middle = decimal_string(minutes as u128);
        out.append(middle.as_str());
        out.append("m ");
        let tail = decimal_string(seconds as u128);
        out.append(tail.as_str());
        out.append("s");
        assert(out@ =~= duration_text(total_secs as nat, millis as nat));
        out
    }
}

/// The whole seconds that a duration holds.
pub uninterp spec fn duration_secs(d: Duration) -> u64;

/// The milliseconds that a duration holds beyond its whole seconds.
pub uninterp spec fn duration_subsec_millis(d: Duration) -> u32;

/// `Duration::as_secs`. Trusted: the result is the duration's whole
/// seconds.
#[verifier::external_body]
fn whole_secs(d: &Duration) -> (secs: u64)
    ensures
        secs == duration_secs(*d),
{
    d.as_secs()
}

/// `Duration::subsec_millis`. Trusted: the result is the part of the
/// duration below a second in whole milliseconds, which is under a
/// thousand.
#[verifier::external_body]
fn subsec_millis(d: &Duration) -> (millis: u32)
    ensures
        millis == duration_subsec_millis(*d),
        millis < 1000,
{
    d.subsec_millis()
}

/// Writes a duration for people to read: [`duration_text`] of its whole
/// seconds and the milliseconds beyond them.
pub fn format_duration(duration: Duration) -> (r: String)
    ensures
        r@ == duration_text(
            duration_secs(duration) as nat,
            duration_subsec_millis(duration) as nat,
        ),
        duration_subsec_millis(duration) < 1000,
{
    let secs: u64 = whole_secs(&duration);
    let millis: u32 = subsec_millis(&duration);
    format_duration_parts(secs, millis)
}

/// The connection identifier made of a time stamp and a random number, both
/// in lower-case hexadecimal.
pub open spec fn connection_id_text(timestamp: nat, random: nat) -> Seq<char> {
    "conn_"@ + lower_hex(timestamp) + "_"@ + lower_hex(random)
}

/// Writes the connection identifier for a time stamp and a random number.
pub fn connection_id(timestamp: u128, random: u32) -> (r: String)
    ensures
        r@ == connection_id_text(timestamp as nat, random as nat),
{
    let mut out = String::from_str("conn_");
    let stamp = lower_hex_string(timestamp);
    out.append(stamp.as_str());
    out.append("_");
    let tail = lower_hex_string(random as u128);
    out.append(tail.as_str());
    assert(out@ =~= connection_id_text(timestamp as nat, random as nat));
    out
}

/// `SystemTime::elapsed` of the Unix epoch: the time since then, or `None`
/// while the clock stands before it.
#[verifier::external_body]
fn since_epoch() -> (elapsed: Option<Duration>) {
    SystemTime::UNIX_EPOCH.elapsed().ok()
}

/// `rand::random` at `u32`: any number may come back.
#[verifier::external_body]
fn random_u32() -> (n: u32) {
    rand::random::<u32>()
}

/// Makes an identifier for a new connection from the clock and a random
/// number. A clock before the Unix epoch counts as the epoch itself.
pub fn generate_connection_id() -> (r: String)
    ensures
        exists|timestamp: u128, random: u32|
            r@ == #[trigger] connection_id_text(timestamp as nat, random as nat),
{
    let timestamp: u128 = match since_epoch() {
        Some(elapsed) => {
            let secs: u64 = whole_secs(&elapsed);
            let millis: u32 = subsec_millis(&elapsed);
            secs as u128 * 1000 + millis as u128
        },
        None => 0,
    };
    let random: u32 = random_u32();
    connection_id(timestamp, random)
}

/// What is reported of a database that gives `version` as its version.
pub open spec fn health_report(version: Seq<char>) -> (bool, Seq<char>) {
    if version.len() > 0 && version[0] == '3' {
        (true, version)
    } else {
        (false, "Unsupported SurrealDB version: "@ + version + ". Expected 3.x"@)
    }
}

/// Judges a database by its version: one of the 3.x line is healthy and
/// reported with its version, any other is not and reported with the
/// reason.
pub fn health_from_version(version: String) -> (r: (bool, String))
    ensures
        r.0 == health_report(version@).0,
        r.1@ == health_report(version@).1,
{
    let is_v3 = version.as_str().unicode_len() > 0 && version.as_str().get_char(0) == '3';
    if is_v3 {
        (true, version)
    } else {
        let mut message = String::from_str("Unsupported SurrealDB version: ");
        message.append(version.as_str());
        message.append(". Expected 3.x");
        assert(message@ =~= health_report(version@).1);
        (false, message)
    }
}

} // verus!
