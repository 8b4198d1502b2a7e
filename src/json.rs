//! JSON documents as the library reads them, and the reading of response
//! bodies into them.
use vstd::prelude::*;

verus! {

/// A JSON value. A number keeps the text that the parser prints for it, so
/// that no precision is lost on the way.
#[derive(Debug)]
pub enum Json {
    Null,
    Bool(bool),
    Number(String),
    Str(String),
    Array(Vec<Json>),
    Object(Vec<(String, Json)>),
}

/// The value a JSON document denotes: numbers as their text, object members
/// in order.
pub enum JsonModel {
    Null,
    Bool(bool),
    Number(Seq<char>),
    Str(Seq<char>),
    Array(Seq<JsonModel>),
    Object(Seq<(Seq<char>, JsonModel)>),
}

/// What a `Json` value denotes.
pub open spec fn json_model(j: Json) -> JsonModel
    decreases j,
{
    match j {
        Json::Null => JsonModel::Null,
        Json::Bool(b) => JsonModel::Bool(b),
        Json::Number(t) => JsonModel::Number(t@),
        Json::Str(t) => JsonModel::Str(t@),
        Json::Array(items) => JsonModel::Array(
            Seq::new(
                items.len() as nat,
                |i: int|
                    if 0 <= i < items.len() {
                        json_model(items[i])
                    } else {
                        JsonModel::Null
                    },
            ),
        ),
        Json::Object(members) => JsonModel::Object(
            Seq::new(
                members.len() as nat,
                |i: int|
                    if 0 <= i < members.len() {
                        (members[i].0@, json_model(members[i].1))
                    } else {
                        (Seq::empty(), JsonModel::Null)
                    },
            ),
        ),
    }
}

/// What the members of an object denote.
pub open spec fn members_model(f: Seq<(String, Json)>) -> Seq<(Seq<char>, JsonModel)> {
    Seq::new(f.len(), |i: int| (f[i].0@, json_model(f[i].1)))
}

/// What the items of an array denote.
pub open spec fn items_model(items: Seq<Json>) -> Seq<JsonModel> {
    Seq::new(items.len(), |i: int| json_model(items[i]))
}

/// An object denotes the model of its members; an array, that of its items.
pub proof fn lemma_json_model_parts(j: Json)
    ensures
        j matches Json::Object(f) ==> json_model(j) == JsonModel::Object(members_model(f@)),
        j matches Json::Array(items) ==> json_model(j) == JsonModel::Array(items_model(items@)),
{
    match j {
        Json::Object(f) => {
            assert(json_model(j)->Object_0 =~= members_model(f@));
        },
        Json::Array(items) => {
            assert(json_model(j)->Array_0 =~= items_model(items@));
        },
        _ => {},
    }
}

/// Why a response could not be read.
#[derive(Debug, Clone, Copy, PartialEq, Eq, Structural)]
pub enum RpcError {
    /// The body is not JSON, or holds no `result`.
    Envelope,
    /// The `result` does not have the shape that the call returns.
    Schema,
    /// A memo field of the result could not be decoded.
    Memo(crate::memo::MemoError),
}

/// The document that serde_json reads from the bytes; none where it refuses
/// them.
pub uninterp spec fn json_document(b: Seq<u8>) -> Option<JsonModel>;

/// What a serde_json::Value holds: numbers as serde_json prints them,
/// object members in the order serde_json::Map iterates them.
pub uninterp spec fn value_model(v: serde_json::Value) -> JsonModel;

#[verifier::external_type_specification]
#[verifier::external_body]
pub struct ExValue(serde_json::Value);

#[verifier::external_type_specification]
#[verifier::external_body]
pub struct ExJsonError(serde_json::Error);

/// One level of a parsed document.
enum Node {
    Null,
    Bool(bool),
    Number(String),
    Str(String),
    Array(Vec<serde_json::Value>),
    Object(Vec<(String, serde_json::Value)>),
}

/// Relies on serde_json::from_slice: it reads the bytes as one JSON document
/// or refuses them, and depends on the bytes alone.
#[verifier::external_body]
fn parse_value(body: &[u8]) -> (r: Result<serde_json::Value, serde_json::Error>)
    ensures
        match r {
            Ok(v) => json_document(body@) == Some(value_model(v)),
            Err(_) => json_document(body@) is None,
        },
{
    serde_json::from_slice(body)
}

/// Relies on the variants of serde_json::Value, on the Display of
/// serde_json::Number for a number's text, and on serde_json::Map's iterator
/// for the members of an object.
#[verifier::external_body]
fn node_of(v: &serde_json::Value) -> (r: Node)
    ensures
        match r {
            Node::Null => value_model(*v) == JsonModel::Null,
            Node::Bool(b) => value_model(*v) == JsonModel::Bool(b),
            Node::Number(t) => value_model(*v) == JsonModel::Number(t@),
            Node::Str(s) => value_model(*v) == JsonModel::Str(s@),
            Node::Array(items) => value_model(*v) == JsonModel::Array(
                Seq::new(items.len() as nat, |i: int| value_model(items[i])),
            ),
            Node::Object(members) => value_model(*v) == JsonModel::Object(
                Seq::new(members.len() as nat, |i: int| (members[i].0@, value_model(members[i].1))),
            ),
        },
{
    match v {
        serde_json::Value::Null => Node::Null,
        serde_json::Value::Bool(b) => Node::Bool(*b),
        serde_json::Value::Number(n) => Node::Number(n.to_string()),
        serde_json::Value::String(s) => Node::Str(s.clone()),
        serde_json::Value::Array(a) => Node::Array(a.clone()),
        serde_json::Value::Object(m) => Node::Object(
            m.iter().map(|(k, x)| (k.clone(), x.clone())).collect(),
        ),
    }
}

/// Converts a parsed value into the library's own.
fn json_of(v: &serde_json::Value) -> (r: Json)
    ensures
        json_model(r) == value_model(*v),
    decreases value_model(*v),
{
    let ghost m = value_model(*v);
    match node_of(v) {
        Node::Null => Json::Null,
        Node::Bool(b) => Json::Bool(b),
        Node::Number(t) => Json::Number(t),
        Node::Str(s) => Json::Str(s),
        Node::Array(items) => {
            let mut out: Vec<Json> = Vec::new();
            let mut i: usize = 0;
            while i < items.len()
                invariant
                    m == value_model(*v),
                    i <= items.len(),
                    out.len() == i,
                    m == JsonModel::Array(Seq::new(items.len() as nat, |k: int| value_model(items[k]))),
                    forall|k: int| 0 <= k < i ==> json_model(#[trigger] out@[k]) == value_model(items[k]),
                decreases items.len() - i,
            {
                proof {
                    let s = m->Array_0;
                    assert(s[i as int] == value_model(items[i as int]));
                    assert(decreases_to!(m => s));
                    assert(decreases_to!(s => s[i as int]));
                    assert(decreases_to!(m => value_model(items[i as int])));
                }
                let j = json_of(&items[i]);
                out.push(j);
                i = i + 1;
            }
            let r = Json::Array(out);
            proof {
                lemma_json_model_parts(r);
                assert(items_model(out@) =~= m->Array_0);
            }
            r
        },
        Node::Object(members) => {
            let mut out: Vec<(String, Json)> = Vec::new();
            let mut i: usize = 0;
            while i < members.len()
                invariant
                    m == value_model(*v),
                    i <= members.len(),
                    out.len() == i,
                    m == JsonModel::Object(
                        Seq::new(members.len() as nat, |k: int| (members[k].0@, value_model(members[k].1))),
                    ),
                    forall|k: int|
                        0 <= k < i ==> (#[trigger] out@[k]).0@ == members[k].0@ && json_model(out@[k].1)
                            == value_model(members[k].1),
                decreases members.len() - i,
            {
                proof {
                    let s = m->Object_0;
                    assert(s[i as int] == (members[i as int].0@, value_model(members[i as int].1)));
                    assert(decreases_to!(m => s));
                    assert(decreases_to!(s => s[i as int]));
                    assert(decreases_to!(s[i as int] => s[i as int].1));
                    assert(decreases_to!(m => value_model(members[i as int].1)));
                }
                let j = json_of(&members[i].1);
                out.push((members[i].0.clone(), j));
                i = i + 1;
            }
            let r = Json::Object(out);
            proof {
                lemma_json_model_parts(r);
                assert(members_model(out@) =~= m->Object_0);
            }
            r
        },
    }
}

/// Reads a response body as one JSON document; a body that is not JSON is
/// an `Envelope` error.
pub fn parse_json(body: &[u8]) -> (r: Result<Json, RpcError>)
    ensures
        match json_document(body@) {
            Some(m) => r matches Ok(j) && json_model(j) == m,
            None => r == Err::<Json, RpcError>(RpcError::Envelope),
        },
{
    match parse_value(body) {
        Ok(v) => Ok(json_of(&v)),
        Err(_) => Err(RpcError::Envelope),
    }
}

/// `i` is the first member of `f` named `key`.
pub open spec fn first_key_at(f: Seq<(Seq<char>, JsonModel)>, key: Seq<char>, i: int) -> bool {
    &&& 0 <= i < f.len()
    &&& f[i].0 == key
    &&& forall|j: int| 0 <= j < i ==> (#[trigger] f[j]).0 != key
}

/// The value of the first member of `f` named `key`, if any.
pub open spec fn field(f: Seq<(Seq<char>, JsonModel)>, key: Seq<char>) -> Option<JsonModel> {
    if exists|i: int| first_key_at(f, key, i) {
        Some(f[choose|i: int| first_key_at(f, key, i)].1)
    } else {
        None
    }
}

proof fn lemma_first_key_unique(f: Seq<(Seq<char>, JsonModel)>, key: Seq<char>, i: int, k: int)
    requires
        first_key_at(f, key, i),
        first_key_at(f, key, k),
    ensures
        i == k,
{
    if i < k {
        assert(f[i].0 != key);
    } else if k < i {
        assert(f[k].0 != key);
    }
}

/// Position of the first member of `fields` named `key`.
pub fn find_field(fields: &Vec<(String, Json)>, key: &String) -> (r: Option<usize>)
    ensures
        r matches Some(i) ==> first_key_at(members_model(fields@), key@, i as int) && field(
            members_model(fields@),
            key@,
        ) == Some(json_model(fields@[i as int].1)),
        r is None ==> field(members_model(fields@), key@) is None,
{
    let ghost f = members_model(fields@);
    let mut i: usize = 0;
    while i < fields.len()
        invariant
            i <= fields.len(),
            f == members_model(fields@),
            forall|j: int| 0 <= j < i ==> (#[trigger] f[j]).0 != key@,
        decreases fields.len() - i,
    {
        if fields[i].0 == *key {
            proof {
                assert(first_key_at(f, key@, i as int));
                let c = choose|c: int| first_key_at(f, key@, c);
                lemma_first_key_unique(f, key@, i as int, c);
            }
            return Some(i);
        }
        assert(f[i as int].0 != key@);
        i = i + 1;
    }
    assert(!exists|c: int| first_key_at(f, key@, c));
    None
}

/// The text of member `key` of an object, where it is a string.
pub open spec fn str_field(f: Seq<(Seq<char>, JsonModel)>, key: Seq<char>) -> Option<Seq<char>> {
    match field(f, key) {
        Some(JsonModel::Str(s)) => Some(s),
        _ => None,
    }
}

/// The text of member `key` of an object, where it is a number.
pub open spec fn number_field(f: Seq<(Seq<char>, JsonModel)>, key: Seq<char>) -> Option<Seq<char>> {
    match field(f, key) {
        Some(JsonModel::Number(s)) => Some(s),
        _ => None,
    }
}

/// The string member `key` of an object; `Schema` where it is missing or of
/// another kind.
pub fn get_str(fields: &Vec<(String, Json)>, key: &String) -> (r: Result<String, RpcError>)
    ensures
        match r {
            Ok(s) => str_field(members_model(fields@), key@) == Some(s@),
            Err(e) => str_field(members_model(fields@), key@) is None && e == RpcError::Schema,
        },
{
    match find_field(fields, key) {
        Some(i) => match &fields[i].1 {
            Json::Str(s) => Ok(s.clone()),
            _ => Err(RpcError::Schema),
        },
        None => Err(RpcError::Schema),
    }
}

/// The text of the number member `key` of an object; `Schema` where it is
/// missing or of another kind.
pub fn get_number(fields: &Vec<(String, Json)>, key: &String) -> (r: Result<String, RpcError>)
    ensures
        match r {
            Ok(s) => number_field(members_model(fields@), key@) == Some(s@),
            Err(e) => number_field(members_model(fields@), key@) is None && e == RpcError::Schema,
        },
{
    match find_field(fields, key) {
        Some(i) => match &fields[i].1 {
            Json::Number(s) => Ok(s.clone()),
            _ => Err(RpcError::Schema),
        },
        None => Err(RpcError::Schema),
    }
}

/// A decimal digit.
pub open spec fn is_digit(c: char) -> bool {
    48 <= c as u32 && c as u32 <= 57
}

/// Non-empty text of decimal digits alone.
pub open spec fn all_digits(s: Seq<char>) -> bool {
    &&& s.len() > 0
    &&& forall|i: int| 0 <= i < s.len() ==> is_digit(#[trigger] s[i])
}

/// The value of decimal digits, most significant first.
pub open spec fn digits_value(s: Seq<char>) -> int
    decreases s.len(),
{
    if s.len() == 0 {
        0
    } else {
        10 * digits_value(s.drop_last()) + (s.last() as u32 - 48)
    }
}

/// The integer that number text spells: digits, with a leading minus sign
/// where `signed`.
pub open spec fn integer_of(t: Seq<char>, signed: bool) -> Option<int> {
    if signed && t.len() > 0 && t[0] == '-' {
        if all_digits(t.drop_first()) {
            Some(-digits_value(t.drop_first()))
        } else {
            None
        }
    } else if all_digits(t) {
        Some(digits_value(t))
    } else {
        None
    }
}

/// The member `key` of an object as an integer in `[lo, hi]`.
pub open spec fn integer_field(
    f: Seq<(Seq<char>, JsonModel)>,
    key: Seq<char>,
    lo: int,
    hi: int,
) -> Option<int> {
    match number_field(f, key) {
        Some(t) => match integer_of(t, lo < 0) {
            Some(n) => if lo <= n && n <= hi {
                Some(n)
            } else {
                None
            },
            None => None,
        },
        None => None,
    }
}

proof fn lemma_digits_prefix(s: Seq<char>, k: int)
    requires
        0 <= k <= s.len(),
        forall|i: int| 0 <= i < s.len() ==> is_digit(#[trigger] s[i]),
    ensures
        0 <= digits_value(s.take(k)) <= digits_value(s),
    decreases s.len(),
{
    if k == s.len() {
        assert(s.take(k) =~= s);
        if s.len() > 0 {
            lemma_digits_prefix(s.drop_last(), 0);
            assert(is_digit(s[s.len() - 1]));
        } else {
            assert(s.take(k) =~= Seq::<char>::empty());
        }
    } else {
        let r = s.drop_last();
        assert forall|i: int| 0 <= i < r.len() implies is_digit(#[trigger] r[i]) by {
            assert(is_digit(s[i]));
        }
        lemma_digits_prefix(r, k);
        assert(r.take(k) =~= s.take(k));
        assert(is_digit(s[s.len() - 1]));
    }
}

/// Reads the characters of `t` from `start` on as decimal digits whose value
/// is at most `limit`.
fn parse_digits(t: &str, start: usize, limit: u64) -> (r: Option<u64>)
    requires
        start <= t@.len(),
    ensures
        r is Some <==> all_digits(t@.skip(start as int)) && digits_value(t@.skip(start as int))
            <= limit,
        r matches Some(n) ==> n == digits_value(t@.skip(start as int)),
{
    let ghost s = t@.skip(start as int);
    let n = t.unicode_len();
    if n == start {
        return None;
    }
    let mut acc: u64 = 0;
    let mut i: usize = start;
    assert(s.take(0) =~= Seq::<char>::empty());
    while i < n
        invariant
            start <= i <= n,
            n == t@.len(),
            s == t@.skip(start as int),
            acc == digits_value(s.take(i - start)),
            acc <= limit,
            forall|j: int| 0 <= j < i - start ==> is_digit(#[trigger] s[j]),
        decreases n - i,
    {
        let c = t.get_char(i);
        if !((c as u32) >= 48 && (c as u32) <= 57) {
            assert(s[i - start] == c);
            return None;
        }
        let d = (c as u32 - 48) as u64;
        assert(s.take(i - start + 1).drop_last() =~= s.take(i - start));
        assert(s[i - start] == c);
        if d > limit || acc > (limit - d) / 10 {
            proof {
                if d <= limit {
                    assert(10 * acc + d > limit) by (nonlinear_arith)
                        requires
                            acc > (limit - d) / 10,
                            d <= limit,
                    ;
                }
                if all_digits(s) {
                    lemma_digits_prefix(s, i - start + 1);
                }
            }
            return None;
        }
        assert(10 * acc + d <= limit) by (nonlinear_arith)
            requires
                acc <= (limit - d) / 10,
                d <= limit,
        ;
        acc = acc * 10 + d;
        i = i + 1;
    }
    assert(s.take(n - start) =~= s);
    Some(acc)
}

/// The number member `key` of an object as a `u32`; `Schema` where it is
/// missing, of another kind, not plain digits or too large.
pub fn get_u32(fields: &Vec<(String, Json)>, key: &String) -> (r: Result<u32, RpcError>)
    ensures
        match r {
            Ok(n) => integer_field(members_model(fields@), key@, 0, u32::MAX as int) == Some(n as int),
            Err(e) => integer_field(members_model(fields@), key@, 0, u32::MAX as int) is None && e
                == RpcError::Schema,
        },
{
    let t = match get_number(fields, key) {
        Ok(t) => t,
        Err(e) => {
            return Err(e);
        },
    };
    assert(t@.skip(0) =~= t@);
    match parse_digits(t.as_str(), 0, u32::MAX as u64) {
        Some(n) => Ok(n as u32),
        None => Err(RpcError::Schema),
    }
}

/// The number member `key` of an object as an `i64`; `Schema` where it is
/// missing, of another kind, not an integer or out of range.
pub fn get_i64(fields: &Vec<(String, Json)>, key: &String) -> (r: Result<i64, RpcError>)
    ensures
        match r {
            Ok(n) => integer_field(members_model(fields@), key@, i64::MIN as int, i64::MAX as int) == Some(
                n as int,
            ),
            Err(e) => integer_field(members_model(fields@), key@, i64::MIN as int, i64::MAX as int) is None && e
                == RpcError::Schema,
        },
{
    let t = match get_number(fields, key) {
        Ok(t) => t,
        Err(e) => {
            return Err(e);
        },
    };
    let s = t.as_str();
    if s.unicode_len() > 0 && s.get_char(0) == '-' {
        assert(s@.skip(1) =~= s@.drop_first());
        match parse_digits(s, 1, 9223372036854775808u64) {
            Some(n) => {
                if n == 9223372036854775808u64 {
                    Ok(i64::MIN)
                } else {
                    Ok(-(n as i64))
                }
            },
            None => Err(RpcError::Schema),
        }
    } else {
        assert(s@.skip(0) =~= s@);
        match parse_digits(s, 0, i64::MAX as u64) {
            Some(n) => Ok(n as i64),
            None => Err(RpcError::Schema),
        }
    }
}

} // verus!
