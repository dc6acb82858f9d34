//! JSON documents, by way of `serde_json`.
//!
//! Trace lines are flat JSON objects: their members are numbers, texts, nulls and lists
//! of numbers.
//! The functions of this module call `serde_json` and say what is relied on.

use vstd::prelude::*;

use crate::scalar::Real;

verus! {

/// A JSON value of the outside crate.
#[verifier::external_type_specification]
#[verifier::external_body]
pub struct ExValue(serde_json::Value);

/// A JSON value as a mathematical one; what is inside an object is left out.
pub enum Json {
    Null,
    Bool(bool),
    /// An integer from zero up.
    Unsigned(u64),
    /// An integer below zero.
    Negative(i64),
    /// A number that is held as a binary64: one with a fraction or an exponent, a zero
    /// with a minus sign, or an integer beyond 64 bits.
    Float(Real),
    Text(Seq<char>),
    List(Seq<Json>),
    Object,
}

impl Json {
    /// Whether the value is no array and no object.
    pub open spec fn scalar(self) -> bool {
        !(self is List) && !(self is Object)
    }

    /// Whether the value holds nothing deeper than an array of scalars.
    pub open spec fn shallow(self) -> bool {
        match self {
            Json::List(items) => forall|i: int|
                0 <= i < items.len() ==> (#[trigger] items[i]).scalar(),
            _ => self.scalar(),
        }
    }
}

/// What a value is.
pub uninterp spec fn json_scalar(v: serde_json::Value) -> Json;

/// The members of a value: those of an object, and none of anything else.
pub uninterp spec fn json_members(v: serde_json::Value) -> Map<Seq<char>, Json>;

/// What `serde_json::from_str` reads from a text: the members of the value, or its
/// complaint where the text is no JSON document.
pub uninterp spec fn json_read(text: Seq<char>) -> Result<Map<Seq<char>, Json>, Seq<char>>;

/// The text that `serde_json` writes for a flat object with these members, in this order.
pub uninterp spec fn json_written(members: Seq<(Seq<char>, Json)>) -> Seq<char>;

/// The text that `serde_json` writes for an array of these scalars.
pub uninterp spec fn list_written(items: Seq<Json>) -> Seq<char>;

/// The binary64 number nearest to an integer.
pub uninterp spec fn nearest_real(n: int) -> Real;

/// The pairs of an object about to be written, as mathematical values.
pub open spec fn pairs_of(pairs: Seq<(&str, &serde_json::Value)>) -> Seq<(Seq<char>, Json)> {
    pairs.map_values(|p: (&str, &serde_json::Value)| (p.0@, json_scalar(*p.1)))
}

/// Whether no key comes twice and no value holds more than an array of scalars.
pub open spec fn flat(pairs: Seq<(Seq<char>, Json)>) -> bool {
    &&& forall|i: int, j: int|
        0 <= i < j < pairs.len() ==> (#[trigger] pairs[i]).0 != (#[trigger] pairs[j]).0
    &&& forall|i: int| 0 <= i < pairs.len() ==> (#[trigger] pairs[i]).1.shallow()
}

/// The members that a list of pairs makes up.
pub open spec fn members_of(pairs: Seq<(Seq<char>, Json)>) -> Map<Seq<char>, Json>
    decreases pairs.len(),
{
    if pairs.len() == 0 {
        Map::empty()
    } else {
        members_of(pairs.drop_last()).insert(pairs.last().0, pairs.last().1)
    }
}

/// The unsigned integer under a key, if there is one.
pub open spec fn unsigned_at(m: Map<Seq<char>, Json>, key: Seq<char>) -> Option<u64> {
    if m.contains_key(key) {
        match m[key] {
            Json::Unsigned(n) => Some(n),
            _ => None,
        }
    } else {
        None
    }
}

/// The text under a key, if there is one.
pub open spec fn text_at(m: Map<Seq<char>, Json>, key: Seq<char>) -> Option<Seq<char>> {
    if m.contains_key(key) {
        match m[key] {
            Json::Text(s) => Some(s),
            _ => None,
        }
    } else {
        None
    }
}

/// The number that a value stands for, as a binary64.
pub open spec fn json_number(j: Json) -> Option<Real> {
    match j {
        Json::Unsigned(n) => Some(nearest_real(n as int)),
        Json::Negative(n) => Some(nearest_real(n as int)),
        Json::Float(x) => Some(x),
        _ => None,
    }
}

/// The number under a key, if there is one.
pub open spec fn number_at(m: Map<Seq<char>, Json>, key: Seq<char>) -> Option<Real> {
    if m.contains_key(key) {
        json_number(m[key])
    } else {
        None
    }
}

/// Calls `serde_json::from_str` for a `Value`, and hands an error on as its text.
/// Claimed of it: whether it succeeds, what members the value has, and what the
/// complaint says depends on the text alone.
#[verifier::external_body]
pub(crate) fn read(text: &str) -> (r: Result<serde_json::Value, String>)
    ensures
        match json_read(text@) {
            Ok(m) => r matches Ok(v) && json_members(v) == m,
            Err(why) => r matches Err(e) && e@ == why,
        },
{
    match serde_json::from_str(text) {
        Ok(v) => Ok(v),
        Err(e) => Err(e.to_string()),
    }
}

/// Calls `Value::get` with a text key. Claimed of it: it gives the member of that key,
/// and nothing where the value is no object or has no such member.
#[verifier::external_body]
fn get<'a>(v: &'a serde_json::Value, key: &str) -> (r: Option<&'a serde_json::Value>)
    ensures
        match r {
            Some(x) => json_members(*v).contains_key(key@) && json_scalar(*x) == json_members(
                *v,
            )[key@],
            None => !json_members(*v).contains_key(key@),
        },
{
    v.get(key)
}

/// Calls `Value::as_u64`. Claimed of it: it gives the integer of a number that is held
/// as an integer from zero up, and nothing of any other value. An integer that is too
/// large for 64 bits, and a zero with a minus sign, are held as binary64.
#[verifier::external_body]
fn as_u64(v: &serde_json::Value) -> (r: Option<u64>)
    ensures
        r == (match json_scalar(*v) {
            Json::Unsigned(n) => Some(n),
            _ => None,
        }),
{
    v.as_u64()
}

/// Calls `Value::as_str`. Claimed of it: it gives the text of a text, and nothing of
/// any other value.
#[verifier::external_body]
fn as_str<'a>(v: &'a serde_json::Value) -> (r: Option<&'a str>)
    ensures
        match r {
            Some(s) => json_scalar(*v) == Json::Text(s@),
            None => !(json_scalar(*v) is Text),
        },
{
    v.as_str()
}

/// Calls `Value::as_f64`, and hands its result on by its bits. Claimed of it: it gives
/// the value of every number, an integer by the nearest binary64, and nothing of any
/// other value.
#[verifier::external_body]
fn as_real(v: &serde_json::Value) -> (r: Option<Real>)
    ensures
        r == (match json_scalar(*v) {
            Json::Unsigned(n) => Some(nearest_real(n as int)),
            Json::Negative(n) => Some(nearest_real(n as int)),
            Json::Float(x) => Some(x),
            _ => None,
        }),
{
    match v.as_f64() {
        Some(x) => Some(Real { bits: x.to_bits() }),
        None => None,
    }
}

/// Calls `Value::is_f64`. Claimed of it: it is true of the numbers that are held as
/// binary64, and of nothing else.
#[verifier::external_body]
fn is_float(v: &serde_json::Value) -> (r: bool)
    ensures
        r == (json_scalar(*v) is Float),
{
    v.is_f64()
}

/// Calls `Value::is_null`. Claimed of it: it is true of null alone.
#[verifier::external_body]
fn is_null(v: &serde_json::Value) -> (r: bool)
    ensures
        r == (json_scalar(*v) == Json::Null),
{
    v.is_null()
}

/// Calls `Value::from` on an unsigned integer. Claimed of it: the value is that integer.
#[verifier::external_body]
pub(crate) fn unsigned(n: u64) -> (r: serde_json::Value)
    ensures
        json_scalar(r) == Json::Unsigned(n),
{
    serde_json::Value::from(n)
}

/// Calls `Value::from` on a text. Claimed of it: the value is that text.
#[verifier::external_body]
pub(crate) fn text(s: &str) -> (r: serde_json::Value)
    ensures
        json_scalar(r) == Json::Text(s@),
{
    serde_json::Value::from(s)
}

/// Makes the value `Value::Null`.
#[verifier::external_body]
pub(crate) fn null() -> (r: serde_json::Value)
    ensures
        json_scalar(r) == Json::Null,
{
    serde_json::Value::Null
}

/// Whether a text opens with a brace.
pub open spec fn opens_object(text: Seq<char>) -> bool {
    text.len() > 0 && text[0] == '{'
}

/// Whether a text reads back as the members it was written for.
pub open spec fn reads_as(text: Seq<char>, pairs: Seq<(Seq<char>, Json)>) -> bool {
    json_read(text) == Ok::<Map<Seq<char>, Json>, Seq<char>>(members_of(pairs))
}

/// Calls `collect_map` on a compact `serde_json::Serializer`, which writes an object
/// with the given members in the given order. Claimed of it, where the object is flat:
/// the text depends on the members alone; it opens with a brace and holds no line
/// break; and reading the text gives its members back.
#[verifier::external_body]
pub(crate) fn write_object(pairs: Vec<(&str, &serde_json::Value)>) -> (r: String)
    requires
        flat(pairs_of(pairs@)),
    ensures
        r@ == json_written(pairs_of(pairs@)),
        opens_object(r@),
        crate::text::one_line(r@),
        reads_as(r@, pairs_of(pairs@)),
{
    let mut out: Vec<u8> = Vec::new();
    let mut serializer = serde_json::Serializer::new(&mut out);
    serde::Serializer::collect_map(&mut serializer, pairs).unwrap();
    String::from_utf8(out).unwrap()
}

/// What values are, one by one.
pub open spec fn scalars_of(values: Seq<serde_json::Value>) -> Seq<Json> {
    values.map_values(|v: serde_json::Value| json_scalar(v))
}

/// Makes the value `Value::Array`. Claimed of it: the value is the array of the values
/// given.
#[verifier::external_body]
pub(crate) fn list(values: Vec<serde_json::Value>) -> (r: serde_json::Value)
    ensures
        json_scalar(r) == Json::List(scalars_of(values@)),
{
    serde_json::Value::Array(values)
}

/// Calls `serde_json::to_string` on a list of values. Claimed of it, where all of them
/// are scalars: the text depends on the values alone, and holds no line break.
#[verifier::external_body]
pub(crate) fn write_list(values: Vec<serde_json::Value>) -> (r: String)
    requires
        Json::List(scalars_of(values@)).shallow(),
    ensures
        r@ == list_written(scalars_of(values@)),
        crate::text::one_line(r@),
{
    serde_json::to_string(&values).unwrap()
}

/// Renders numbers as JSON values. Nothing is assumed of what comes back: it is read
/// again before it is used.
pub trait Numerals {
    /// The JSON number that stands for `x`.
    fn render(&self, x: Real) -> serde_json::Value;
}

/// The JSON value that stands for a binary64: itself, or null where JSON has no
/// number for it.
pub open spec fn real_json(x: Real) -> Json {
    if x.finite() {
        Json::Float(x)
    } else {
        Json::Null
    }
}

/// Whether a renderer can answer a number with something else.
pub open spec fn misrenders<N: Numerals>(numerals: N, x: Real) -> bool {
    exists|v: serde_json::Value| #[trigger]
        call_ensures(N::render, (&numerals, x), v) && json_scalar(v) != Json::Float(x)
}

/// The JSON value of a binary64, or the number itself where the renderer answered it
/// with something else.
pub fn number<N: Numerals>(numerals: &N, x: Real) -> (r: Result<serde_json::Value, Real>)
    ensures
        match r {
            Ok(v) => json_scalar(v) == real_json(x),
            Err(y) => y == x && x.finite() && misrenders(*numerals, x),
        },
{
    if !x.is_finite() {
        return Ok(null());
    }
    let v = numerals.render(x);
    if is_float(&v) {
        if let Some(y) = as_real(&v) {
            if y == x {
                return Ok(v);
            }
        }
    }
    assert(call_ensures(N::render, (numerals, x), v));
    Err(x)
}

/// The JSON values of a list of binary64.
pub open spec fn reals_json(xs: Seq<Real>) -> Seq<Json> {
    xs.map_values(|x: Real| real_json(x))
}

/// The JSON values of a list of binary64, or the first number that the renderer answered
/// with something else.
pub fn numbers<N: Numerals>(numerals: &N, xs: &Vec<Real>) -> (r: Result<
    Vec<serde_json::Value>,
    Real,
>)
    ensures
        match r {
            Ok(values) => scalars_of(values@) == reals_json(xs@) && Json::List(
                scalars_of(values@),
            ).shallow(),
            Err(x) => xs@.contains(x) && x.finite() && misrenders(*numerals, x),
        },
{
    let mut values: Vec<serde_json::Value> = Vec::new();
    let mut i: usize = 0;
    while i < xs.len()
        invariant
            i <= xs@.len(),
            values@.len() == i,
            forall|j: int|
                0 <= j < i ==> json_scalar(#[trigger] values@[j]) == real_json(xs@[j]),
        decreases xs@.len() - i,
    {
        match number(numerals, xs[i]) {
            Ok(v) => {
                values.push(v);
            },
            Err(x) => {
                assert(xs@[i as int] == x);
                return Err(x);
            },
        }
        i += 1;
    }
    assert(scalars_of(values@) =~= reals_json(xs@));
    Ok(values)
}

/// The unsigned integer under a key.
pub fn member_u64(v: &serde_json::Value, key: &str) -> (r: Option<u64>)
    ensures
        r == unsigned_at(json_members(*v), key@),
{
    match get(v, key) {
        Some(x) => as_u64(x),
        None => None,
    }
}

/// The text under a key.
pub fn member_str<'a>(v: &'a serde_json::Value, key: &str) -> (r: Option<&'a str>)
    ensures
        match r {
            Some(s) => text_at(json_members(*v), key@) == Some(s@),
            None => text_at(json_members(*v), key@) is None,
        },
{
    match get(v, key) {
        Some(x) => as_str(x),
        None => None,
    }
}

/// The number under a key.
pub fn member_real(v: &serde_json::Value, key: &str) -> (r: Option<Real>)
    ensures
        r == number_at(json_members(*v), key@),
{
    match get(v, key) {
        Some(x) => as_real(x),
        None => None,
    }
}

/// Whether there is a null under a key.
pub fn member_is_null(v: &serde_json::Value, key: &str) -> (r: bool)
    ensures
        r == (json_members(*v).contains_key(key@) && json_members(*v)[key@] == Json::Null),
{
    match get(v, key) {
        Some(x) => is_null(x),
        None => false,
    }
}

/// Every member comes from a pair.
pub proof fn members_are_pairs(pairs: Seq<(Seq<char>, Json)>, key: Seq<char>)
    ensures
        members_of(pairs).contains_key(key) <==> exists|i: int|
            0 <= i < pairs.len() && (#[trigger] pairs[i]).0 == key,
    decreases pairs.len(),
{
    if pairs.len() > 0 {
        let fewer = pairs.drop_last();
        let n = pairs.len() - 1;
        members_are_pairs(fewer, key);
        if members_of(pairs).contains_key(key) {
            if pairs.last().0 == key {
                assert(pairs[n].0 == key);
            } else {
                let i = choose|i: int| 0 <= i < fewer.len() && (#[trigger] fewer[i]).0 == key;
                assert(pairs[i].0 == key);
            }
        }
        if exists|i: int| 0 <= i < pairs.len() && (#[trigger] pairs[i]).0 == key {
            let i = choose|i: int| 0 <= i < pairs.len() && (#[trigger] pairs[i]).0 == key;
            if i < n {
                assert(fewer[i].0 == key);
            }
        }
    }
}

/// In a list of pairs without repeated keys every pair is a member.
pub proof fn pairs_are_members(pairs: Seq<(Seq<char>, Json)>, i: int)
    requires
        flat(pairs),
        0 <= i < pairs.len(),
    ensures
        members_of(pairs).contains_key(pairs[i].0),
        members_of(pairs)[pairs[i].0] == pairs[i].1,
    decreases pairs.len(),
{
    let fewer = pairs.drop_last();
    assert(pairs.last() == pairs[pairs.len() - 1]);
    if i < fewer.len() {
        assert forall|j: int, k: int| 0 <= j < k < fewer.len() implies (#[trigger] fewer[j]).0 != (
        #[trigger] fewer[k]).0 by {
            assert(pairs[j].0 != pairs[k].0);
        }
        assert forall|j: int| 0 <= j < fewer.len() implies (#[trigger] fewer[j]).1.shallow() by {
            assert(pairs[j].1.shallow());
        }
        pairs_are_members(fewer, i);
        assert(pairs[i].0 != pairs[pairs.len() - 1].0);
    }
}

} // verus!
