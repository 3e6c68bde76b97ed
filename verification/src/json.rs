use vstd::prelude::*;

use crate::strutil::str_eq;

verus! {

/// The library's own JSON tree. Number tokens are kept as text, exactly as
/// the parser rendered them, so that no information is lost and no
/// floating-point value ever enters the verified code.
#[derive(Debug)]
pub enum Json {
    Null,
    Bool(bool),
    Num(String),
    Str(String),
    Arr(Vec<Json>),
    Obj(Vec<(String, Json)>),
}

/// Looks a key up in an object's field list; absent keys read as `Null`,
/// matching how a missing member reads during response shaping.
pub open spec fn obj_lookup(fields: Seq<(String, Json)>, key: Seq<char>) -> Json
    decreases fields.len(),
{
    if fields.len() == 0 {
        Json::Null
    } else if fields[0].0@ == key {
        fields[0].1
    } else {
        obj_lookup(fields.drop_first(), key)
    }
}

/// Member access: the value under `key` if `j` is an object holding it,
/// `Null` otherwise.
pub open spec fn jget(j: Json, key: Seq<char>) -> Json {
    match j {
        Json::Obj(fields) => obj_lookup(fields@, key),
        _ => Json::Null,
    }
}

proof fn lemma_obj_lookup_step(fields: Seq<(String, Json)>, key: Seq<char>, i: int)
    requires
        0 <= i < fields.len(),
        forall|k: int| 0 <= k < i ==> #[trigger] fields[k].0@ != key,
    ensures
        obj_lookup(fields, key) == obj_lookup(fields.skip(i), key),
    decreases i,
{
    if i > 0 {
        assert(fields[0].0@ != key);
        assert(forall|k: int|
            0 <= k < i - 1 ==> #[trigger] fields.drop_first()[k].0@ == fields[k + 1].0@);
        lemma_obj_lookup_step(fields.drop_first(), key, i - 1);
        assert(fields.drop_first().skip(i - 1) =~= fields.skip(i));
    } else {
        assert(fields.skip(0) =~= fields);
    }
}

/// Lookup finds the first field whose key matches.
pub proof fn lemma_obj_lookup_at(fields: Seq<(String, Json)>, key: Seq<char>, i: int)
    requires
        0 <= i < fields.len(),
        forall|k: int| 0 <= k < i ==> #[trigger] fields[k].0@ != key,
        fields[i].0@ == key,
    ensures
        obj_lookup(fields, key) == fields[i].1,
{
    lemma_obj_lookup_step(fields, key, i);
    assert(fields.skip(i)[0] == fields[i]);
}

/// Lookup misses when no field's key matches.
pub proof fn lemma_obj_lookup_none(fields: Seq<(String, Json)>, key: Seq<char>)
    requires
        forall|k: int| 0 <= k < fields.len() ==> #[trigger] fields[k].0@ != key,
    ensures
        obj_lookup(fields, key) == Json::Null,
    decreases fields.len(),
{
    if fields.len() > 0 {
        assert(fields[0].0@ != key);
        assert(forall|k: int|
            0 <= k < fields.len() - 1 ==> #[trigger] fields.drop_first()[k].0@ == fields[k
                + 1].0@);
        lemma_obj_lookup_none(fields.drop_first(), key);
    }
}

impl Json {
    /// Member access on an object, `None` where the spec-level access
    /// reads `Null`.
    pub fn get<'a>(&'a self, key: &str) -> (r: Option<&'a Json>)
        ensures
            match r {
                Some(v) => jget(*self, key@) == *v,
                None => jget(*self, key@) == Json::Null,
            },
    {
        match self {
            Json::Obj(fields) => {
                let n = fields.len();
                let mut i: usize = 0;
                while i < n
                    invariant
                        *self == Json::Obj(*fields),
                        n == fields@.len(),
                        i <= n,
                        forall|k: int| 0 <= k < i ==> #[trigger] fields@[k].0@ != key@,
                    decreases n - i,
                {
                    if str_eq(fields[i].0.as_str(), key) {
                        proof {
                            lemma_obj_lookup_step(fields@, key@, i as int);
                            assert(fields@.skip(i as int)[0] == fields@[i as int]);
                            assert(obj_lookup(fields@.skip(i as int), key@) == fields@.skip(
                                i as int,
                            )[0].1);
                        }
                        return Some(&fields[i].1);
                    }
                    i = i + 1;
                }
                proof {
                    lemma_obj_lookup_none(fields@, key@);
                }
                None
            },
            _ => None,
        }
    }

    /// The member's text if it is a string.
    pub fn str_of<'a>(&'a self) -> (r: Option<&'a String>)
        ensures
            match r {
                Some(s) => *self == Json::Str(*s),
                None => !(*self is Str),
            },
    {
        match self {
            Json::Str(s) => Some(s),
            _ => None,
        }
    }

    /// The member's elements if it is an array.
    pub fn arr_of<'a>(&'a self) -> (r: Option<&'a Vec<Json>>)
        ensures
            match r {
                Some(a) => *self == Json::Arr(*a),
                None => !(*self is Arr),
            },
    {
        match self {
            Json::Arr(a) => Some(a),
            _ => None,
        }
    }

    /// The member's value if it is a boolean.
    pub fn bool_of(&self) -> (r: Option<bool>)
        ensures
            match r {
                Some(b) => *self == Json::Bool(b),
                None => !(*self is Bool),
            },
    {
        match self {
            Json::Bool(b) => Some(*b),
            _ => None,
        }
    }
}

/// A non-empty run of decimal digits.
pub open spec fn is_dec_digits(s: Seq<char>) -> bool {
    s.len() > 0 && forall|i: int| 0 <= i < s.len() ==> '0' <= #[trigger] s[i] <= '9'
}

/// The numeric value of a run of decimal digits.
pub open spec fn dec_val(s: Seq<char>) -> nat
    decreases s.len(),
{
    if s.len() == 0 {
        0
    } else {
        (dec_val(s.drop_last()) * 10 + (s.last() as int - '0' as int)) as nat
    }
}

/// Reads an unsigned integer from a JSON number token: defined exactly for
/// whole-number tokens whose value fits, as `as_u64` is on a parsed number.
pub fn num_as_u64(s: &str) -> (r: Option<u64>)
    ensures
        match r {
            Some(v) => is_dec_digits(s@) && dec_val(s@) == v,
            None => !(is_dec_digits(s@) && dec_val(s@) <= u64::MAX),
        },
{
    let len = s.unicode_len();
    if len == 0 {
        return None;
    }
    let mut acc: u64 = 0;
    let mut i: usize = 0;
    while i < len
        invariant
            len == s@.len(),
            0 < len,
            i <= len,
            forall|k: int| 0 <= k < i ==> '0' <= #[trigger] s@[k] <= '9',
            acc == dec_val(s@.take(i as int)),
        decreases len - i,
    {
        let c = s.get_char(i);
        if c < '0' || c > '9' {
            proof {
                assert(!('0' <= s@[i as int] <= '9'));
            }
            return None;
        }
        let d: u64 = (c as u32 as u64) - 48;
        if acc > (u64::MAX - d) / 10 {
            proof {
                if is_dec_digits(s@) {
                    lemma_dec_val_monotone(s@, i as int);
                    assert(s@.take(i + 1int).drop_last() =~= s@.take(i as int));
                    assert(s@.take(i + 1int).last() == s@[i as int]);
                    assert(dec_val(s@.take(i + 1int)) == acc * 10 + d);
                    let limit = (u64::MAX - d) as int;
                    assert(limit == 10 * (limit / 10) + limit % 10) by (nonlinear_arith);
                    assert(acc * 10 + d > u64::MAX);
                }
            }
            return None;
        }
        acc = acc * 10 + d;
        proof {
            assert(s@.take(i + 1int).drop_last() =~= s@.take(i as int));
            assert(s@.take(i + 1int).last() == s@[i as int]);
        }
        i = i + 1;
    }
    proof {
        assert(s@.take(len as int) =~= s@);
    }
    Some(acc)
}

/// Rendering a number in decimal and reading the digits back is the
/// identity.
pub proof fn lemma_dec_str_round_trip(n: nat)
    ensures
        dec_val(crate::strutil::dec_str(n)) == n,
    decreases n,
{
    let s = crate::strutil::dec_str(n);
    if n < 10 {
        assert(s == seq![crate::strutil::digit_char(n)]);
        assert(s.drop_last() =~= Seq::<char>::empty());
        assert(dec_val(Seq::<char>::empty()) == 0);
        assert(s.last() == crate::strutil::digit_char(n));
        assert(crate::strutil::digit_char(n) as int - '0' as int == n);
    } else {
        lemma_dec_str_round_trip(n / 10);
        assert(s == crate::strutil::dec_str(n / 10).push(crate::strutil::digit_char(n % 10)));
        assert(s.drop_last() =~= crate::strutil::dec_str(n / 10));
        assert(s.last() == crate::strutil::digit_char(n % 10));
        assert(crate::strutil::digit_char(n % 10) as int - '0' as int == n % 10);
        assert(n == (n / 10) * 10 + n % 10);
    }
}

/// Different numbers render differently.
pub proof fn lemma_dec_str_injective(a: nat, b: nat)
    requires
        a != b,
    ensures
        crate::strutil::dec_str(a) != crate::strutil::dec_str(b),
{
    if crate::strutil::dec_str(a) == crate::strutil::dec_str(b) {
        lemma_dec_str_round_trip(a);
        lemma_dec_str_round_trip(b);
    }
}

/// Once a digit prefix already exceeds the limit, the value of the whole
/// run of digits exceeds it too.
proof fn lemma_dec_val_monotone(s: Seq<char>, i: int)
    requires
        0 <= i < s.len(),
        is_dec_digits(s),
    ensures
        dec_val(s) >= dec_val(s.take(i + 1)),
    decreases s.len() - i,
{
    if i + 1 == s.len() {
        assert(s.take(i + 1) =~= s);
    } else {
        lemma_dec_val_monotone(s, i + 1);
        assert(s.take(i + 2).drop_last() =~= s.take(i + 1));
        assert(s.take(i + 2).last() == s[i + 1]);
        assert('0' <= s[i + 1] <= '9');
        assert(dec_val(s.take(i + 2)) >= dec_val(s.take(i + 1)));
    }
}

#[verifier::external_type_specification]
#[verifier::external_body]
pub struct ExValue(serde_json::Value);

/// Trusted bridge from serde_json's tree to the library's model: one arm per
/// variant, number tokens rendered as text.
#[verifier::external_body]
fn json_of_value(v: &serde_json::Value) -> Json {
    match v {
        serde_json::Value::Null => Json::Null,
        serde_json::Value::Bool(b) => Json::Bool(*b),
        serde_json::Value::Number(n) => Json::Num(n.to_string()),
        serde_json::Value::String(s) => Json::Str(s.clone()),
        serde_json::Value::Array(a) => Json::Arr(a.iter().map(json_of_value).collect()),
        serde_json::Value::Object(m) => Json::Obj(
            m.iter().map(|(k, x)| (k.clone(), json_of_value(x))).collect(),
        ),
    }
}

/// Trusted bridge from the library's model to serde_json's tree: one arm per
/// variant; a number token that is no JSON number reads as null.
#[verifier::external_body]
fn value_of_json(j: &Json) -> serde_json::Value {
    match j {
        Json::Null => serde_json::Value::Null,
        Json::Bool(b) => serde_json::Value::Bool(*b),
        Json::Num(s) => s.parse::<serde_json::Number>().map_or(
            serde_json::Value::Null,
            serde_json::Value::Number,
        ),
        Json::Str(s) => serde_json::Value::String(s.clone()),
        Json::Arr(a) => serde_json::Value::Array(a.iter().map(value_of_json).collect()),
        Json::Obj(f) => serde_json::Value::Object(
            f.iter().map(|(k, x)| (k.clone(), value_of_json(x))).collect(),
        ),
    }
}

/// Names the text that serde_json renders a JSON value as: a function of the
/// value alone.
pub uninterp spec fn json_text_of(j: Json) -> Seq<char>;

/// Relies on serde_json::to_string: rendering a value tree as JSON text
/// depends on the tree alone and cannot fail for trees whose object keys are
/// strings, which every tree of this model has. The bridge renders a
/// number token that is no JSON number as null, so such a tree still has
/// one fixed rendering.
#[verifier::external_body]
pub fn json_to_string(j: &Json) -> (r: String)
    ensures
        r@ == json_text_of(*j),
{
    serde_json::to_string(&value_of_json(j)).unwrap_or_default()
}

/// Names what the parser makes of a JSON text: the tree, or the failure
/// message. A function of the text alone, on every machine.
pub uninterp spec fn parsed_json_of(s: Seq<char>) -> Result<Json, Seq<char>>;

/// Relies on serde_json::from_str: parses JSON text deterministically,
/// handing the tree over as the library's model and a parse failure over as
/// the parser's message. The parser's recursion limit surfaces as an error,
/// never a crash.
#[verifier::external_body]
pub fn parse_json(s: &str) -> (r: Result<Json, String>)
    ensures
        match (r, parsed_json_of(s@)) {
            (Ok(j), Ok(m)) => j == m,
            (Err(e), Err(m)) => e@ == m,
            _ => false,
        },
{
    match serde_json::from_str::<serde_json::Value>(s) {
        Ok(v) => Ok(json_of_value(&v)),
        Err(e) => Err(format!("{}", e)),
    }
}

} // verus!
