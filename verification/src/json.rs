use vstd::prelude::*;

verus! {

/// A JSON document held as plain values: numbers are kept in their textual
/// form, and objects are entry lists in document order.
#[derive(Debug, PartialEq, Eq)]
pub enum JsonValue {
    Null,
    Bool(bool),
    Num(String),
    Str(String),
    Array(Vec<JsonValue>),
    Object(Vec<(String, JsonValue)>),
}

/// The mathematical model of a JSON document, used by every contract that
/// speaks about JSON data.
pub enum JsonV {
    Null,
    Bool(bool),
    Num(Seq<char>),
    Str(Seq<char>),
    Arr(Seq<JsonV>),
    Obj(Seq<(Seq<char>, JsonV)>),
}

/// The model of a JSON value.
pub open spec fn jv(v: JsonValue) -> JsonV
    decreases v,
{
    match v {
        JsonValue::Null => JsonV::Null,
        JsonValue::Bool(b) => JsonV::Bool(b),
        JsonValue::Num(t) => JsonV::Num(t@),
        JsonValue::Str(s) => JsonV::Str(s@),
        JsonValue::Array(es) => JsonV::Arr(jv_arr(es@)),
        JsonValue::Object(ms) => JsonV::Obj(jv_obj(ms@)),
    }
}

/// The models of an array's elements.
pub open spec fn jv_arr(es: Seq<JsonValue>) -> Seq<JsonV>
    decreases es,
{
    if es.len() == 0 {
        Seq::empty()
    } else {
        jv_arr(es.drop_last()).push(jv(es.last()))
    }
}

/// The models of an object's entries.
pub open spec fn jv_obj(ms: Seq<(String, JsonValue)>) -> Seq<(Seq<char>, JsonV)>
    decreases ms,
{
    if ms.len() == 0 {
        Seq::empty()
    } else {
        jv_obj(ms.drop_last()).push((ms.last().0@, jv(ms.last().1)))
    }
}

pub broadcast proof fn lemma_jv_arr(es: Seq<JsonValue>)
    ensures
        (#[trigger] jv_arr(es)).len() == es.len(),
        forall|i: int| 0 <= i < es.len() ==> jv_arr(es)[i] == jv(es[i]),
    decreases es.len(),
{
    if es.len() > 0 {
        lemma_jv_arr(es.drop_last());
    }
}

pub broadcast proof fn lemma_jv_obj(ms: Seq<(String, JsonValue)>)
    ensures
        (#[trigger] jv_obj(ms)).len() == ms.len(),
        forall|i: int| 0 <= i < ms.len() ==> jv_obj(ms)[i] == (ms[i].0@, jv(ms[i].1)),
    decreases ms.len(),
{
    if ms.len() > 0 {
        lemma_jv_obj(ms.drop_last());
    }
}

/// First entry of an object with the given key, if any.
pub open spec fn obj_get(ms: Seq<(Seq<char>, JsonV)>, key: Seq<char>) -> Option<JsonV>
    decreases ms.len(),
{
    if ms.len() == 0 {
        None
    } else if ms[0].0 == key {
        Some(ms[0].1)
    } else {
        obj_get(ms.drop_first(), key)
    }
}

/// Looks a key up among an object's entries, returning the first match.
pub fn json_obj_get<'a>(ms: &'a Vec<(String, JsonValue)>, key: &str) -> (r: Option<
    &'a JsonValue,
>)
    ensures
        match r {
            Some(x) => obj_get(jv_obj(ms@), key@) == Some(jv(*x)),
            None => obj_get(jv_obj(ms@), key@) is None,
        },
{
    proof {
        lemma_jv_obj(ms@);
        assert(jv_obj(ms@).skip(0) =~= jv_obj(ms@));
    }
    let n = ms.len();
    let mut i: usize = 0;
    while i < n
        invariant
            n == ms@.len(),
            jv_obj(ms@).len() == n,
            forall|j: int| 0 <= j < n ==> #[trigger] jv_obj(ms@)[j] == (ms@[j].0@, jv(ms@[j].1)),
            0 <= i <= n,
            obj_get(jv_obj(ms@), key@) == obj_get(jv_obj(ms@).skip(i as int), key@),
        decreases n - i,
    {
        proof {
            lemma_obj_get_step(jv_obj(ms@), key@, i as int);
        }
        if crate::strutil::str_eq(ms[i].0.as_str(), key) {
            return Some(&ms[i].1);
        }
        i += 1;
    }
    proof {
        assert(jv_obj(ms@).skip(n as int) =~= Seq::<(Seq<char>, JsonV)>::empty());
    }
    None
}

proof fn lemma_obj_get_step(ms: Seq<(Seq<char>, JsonV)>, key: Seq<char>, i: int)
    requires
        0 <= i < ms.len(),
    ensures
        ms[i].0 == key ==> obj_get(ms.skip(i), key) == Some(ms[i].1),
        ms[i].0 != key ==> obj_get(ms.skip(i), key) == obj_get(ms.skip(i + 1), key),
{
    assert(ms.skip(i)[0] == ms[i]);
    assert(ms.skip(i).drop_first() =~= ms.skip(i + 1));
}

/// Deep copy that keeps the model of the value.
#[verifier::loop_isolation(false)]
pub fn clone_json(v: &JsonValue) -> (r: JsonValue)
    ensures
        jv(r) == jv(*v),
    decreases *v,
{
    match v {
        JsonValue::Null => JsonValue::Null,
        JsonValue::Bool(b) => JsonValue::Bool(*b),
        JsonValue::Num(t) => JsonValue::Num(t.clone()),
        JsonValue::Str(s) => JsonValue::Str(s.clone()),
        JsonValue::Array(es) => {
            let mut out: Vec<JsonValue> = Vec::new();
            let n = es.len();
            let mut i: usize = 0;
            while i < n
                invariant
                    n == es@.len(),
                    0 <= i <= n,
                    out@.len() == i,
                    forall|j: int| 0 <= j < i ==> jv(out@[j]) == jv(#[trigger] es@[j]),
                decreases n - i,
            {
                proof {
                    assert(decreases_to!(*v => (*v)->Array_0));
                    assert((*v)->Array_0 == *es);
                    assert(decreases_to!(*es => es@));
                    assert(decreases_to!(es@ => es@[i as int]));
                }
                out.push(clone_json(&es[i]));
                i += 1;
            }
            proof {
                lemma_jv_arr(out@);
                lemma_jv_arr(es@);
                assert(jv_arr(out@) =~= jv_arr(es@));
            }
            JsonValue::Array(out)
        },
        JsonValue::Object(ms) => {
            let mut out: Vec<(String, JsonValue)> = Vec::new();
            let n = ms.len();
            let mut i: usize = 0;
            while i < n
                invariant
                    n == ms@.len(),
                    0 <= i <= n,
                    out@.len() == i,
                    forall|j: int|
                        0 <= j < i ==> out@[j].0@ == (#[trigger] ms@[j]).0@ && jv(out@[j].1) == jv(
                            ms@[j].1,
                        ),
                decreases n - i,
            {
                proof {
                    assert(decreases_to!(*v => (*v)->Object_0));
                    assert((*v)->Object_0 == *ms);
                    assert(decreases_to!(*ms => ms@));
                    assert(decreases_to!(ms@ => ms@[i as int]));
                    assert(decreases_to!(ms@[i as int] => ms@[i as int].1));
                }
                let key = ms[i].0.clone();
                let val = clone_json(&ms[i].1);
                out.push((key, val));
                i += 1;
            }
            proof {
                lemma_jv_obj(out@);
                lemma_jv_obj(ms@);
                assert(jv_obj(out@) =~= jv_obj(ms@));
            }
            JsonValue::Object(out)
        },
    }
}

#[verifier::external_type_specification]
#[verifier::external_body]
pub struct ExSerdeValue(serde_json::Value);

/// What a text parses to as JSON, if anything: the result depends on the text
/// alone.
pub uninterp spec fn parsed_json(s: Seq<char>) -> Option<JsonV>;

/// The parser's message for a text that is not JSON: it too depends on the
/// text alone.
pub uninterp spec fn json_parse_error(s: Seq<char>) -> Seq<char>;

/// The contents of a parsed document, as the library's model.
pub uninterp spec fn json_model(v: serde_json::Value) -> JsonV;

/// Relies on serde_json::from_str::<Value>: whether and how a text parses,
/// and the parser's error message, depend on the text alone.
#[verifier::external_body]
fn from_str_value(s: &str) -> (r: Result<serde_json::Value, String>)
    ensures
        (r is Ok) == (parsed_json(s@) is Some),
        r matches Ok(v) ==> json_model(v) == parsed_json(s@)->Some_0,
        r matches Err(e) ==> e@ == json_parse_error(s@),
{
    serde_json::from_str::<serde_json::Value>(s).map_err(|e| e.to_string())
}

/// Relies on serde_json::Value's accessors only to take the parsed document
/// apart, one arm per variant; numbers keep the text that serde_json's
/// Display gives them, and objects keep serde_json's entry order.
#[verifier::external_body]
fn value_to_json(v: &serde_json::Value) -> (r: JsonValue)
    ensures
        jv(r) == json_model(*v),
{
    match v {
        serde_json::Value::Null => JsonValue::Null,
        serde_json::Value::Bool(b) => JsonValue::Bool(*b),
        serde_json::Value::Number(n) => JsonValue::Num(n.to_string()),
        serde_json::Value::String(s) => JsonValue::Str(s.clone()),
        serde_json::Value::Array(xs) => JsonValue::Array(xs.iter().map(value_to_json).collect()),
        serde_json::Value::Object(m) => JsonValue::Object(
            m.iter().map(|(k, x)| (k.clone(), value_to_json(x))).collect(),
        ),
    }
}

/// Parses a JSON text into the library's own tree.
pub fn parse_json_text(s: &str) -> (r: Result<JsonValue, String>)
    ensures
        (r is Ok) == (parsed_json(s@) is Some),
        r matches Ok(v) ==> jv(v) == parsed_json(s@)->Some_0,
        r matches Err(e) ==> e@ == json_parse_error(s@),
{
    match from_str_value(s) {
        Ok(v) => Ok(value_to_json(&v)),
        Err(e) => Err(e),
    }
}

} // verus!
