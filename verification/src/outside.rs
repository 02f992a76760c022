//! Calls into other crates: identifiers, the clock, and JSON documents.

use vstd::prelude::*;
use vstd::utf8::{decode_utf8, valid_utf8};

verus! {

// ── Identifiers ─────────────────────────────────────────────────────────────

/// A lower-case hexadecimal digit.
pub open spec fn hex_digit(d: int) -> char {
    if d < 10 {
        ('0' as int + d) as char
    } else {
        ('a' as int + d - 10) as char
    }
}

/// The last `width` hexadecimal digits of a number.
pub open spec fn hex(n: nat, width: nat) -> Seq<char>
    decreases width,
{
    if width == 0 {
        Seq::empty()
    } else {
        hex(n / 16, (width - 1) as nat).push(hex_digit((n % 16) as int))
    }
}

/// An identifier in its usual form: groups of 8, 4, 4, 4 and 12 hexadecimal digits.
pub open spec fn uuid_text(id: u128) -> Seq<char> {
    let n = id as nat;
    hex(n / 0x1_0000_0000_0000_0000_0000_0000, 8) + seq!['-']
        + hex(n / 0x1_0000_0000_0000_0000_0000, 4) + seq!['-']
        + hex(n / 0x1_0000_0000_0000_0000, 4) + seq!['-']
        + hex(n / 0x1_0000_0000_0000, 4) + seq!['-'] + hex(n, 12)
}

/// The namespace of object identifiers.
pub const NAMESPACE_OID: u128 = 0x6ba7b812_9dad_11d1_80b4_00c04fd430c8;

/// The name-based identifier that `uuid::Uuid::new_v5` derives from a namespace and a name.
pub uninterp spec fn uuid_v5(namespace: u128, name: Seq<u8>) -> u128;

/// `uuid::Uuid::to_string` writes the 128 bits, most significant first, as lower-case
/// hexadecimal digits in five groups.
#[verifier::external_body]
pub(crate) fn uuid_to_text(id: u128) -> (r: String)
    ensures
        r@ == uuid_text(id),
{
    uuid::Uuid::from_u128(id).to_string()
}

/// Whether an identifier has the bits that mark a random one.
pub open spec fn random_id(id: u128) -> bool {
    (id / 0x1000_0000_0000_0000_0000) % 16 == 4 && (id / 0x4000_0000_0000_0000) % 4 == 2
}

/// `uuid::Uuid::new_v4` draws an identifier at random. Four bits of it always say that it is
/// a random one, and two bits always give the variant.
#[verifier::external_body]
pub(crate) fn fresh_uuid() -> (r: u128)
    ensures
        random_id(r),
{
    uuid::Uuid::new_v4().as_u128()
}

/// `uuid::Uuid::new_v5` hashes the namespace and the name; the same ones give the same
/// identifier.
#[verifier::external_body]
pub(crate) fn name_uuid(namespace: u128, name: &[u8]) -> (r: u128)
    ensures
        r == uuid_v5(namespace, name@),
{
    uuid::Uuid::new_v5(&uuid::Uuid::from_u128(namespace), name).as_u128()
}

// ── Clock ───────────────────────────────────────────────────────────────────

/// A point in time: seconds since the start of 1970 in UTC, and nanoseconds after that second.
#[derive(Clone, Copy, Debug, PartialEq, Eq, Structural)]
pub struct Timestamp {
    pub secs: i64,
    pub nanos: u32,
}

/// `chrono::Utc::now` reads the clock. What it shows is not stated, beyond that it is not
/// before 1970 (the call fails on a clock that is) and that the nanoseconds are less than a
/// second.
#[verifier::external_body]
pub(crate) fn utc_now() -> (r: Timestamp)
    ensures
        r.secs >= 0,
        r.nanos < 1_000_000_000,
{
    let now = chrono::Utc::now();
    Timestamp { secs: now.timestamp(), nanos: now.timestamp_subsec_nanos() }
}

/// `chrono::DateTime::to_rfc3339` of `chrono::Utc::now` is the time of the call as text.
/// Nothing is stated of it, because it is different at each call.
#[verifier::external_body]
pub(crate) fn utc_now_text() -> (r: String) {
    chrono::Utc::now().to_rfc3339()
}

// ── Bytes as text ───────────────────────────────────────────────────────────

/// `std::str::from_utf8` gives the text that bytes encode, if they are valid UTF-8.
#[verifier::external_body]
pub(crate) fn utf8_text(bytes: &[u8]) -> (r: Option<String>)
    ensures
        match r {
            Some(s) => valid_utf8(bytes@) && s@ == decode_utf8(bytes@),
            None => !valid_utf8(bytes@),
        },
{
    std::str::from_utf8(bytes).ok().map(|s| s.to_string())
}

// ── JSON documents ──────────────────────────────────────────────────────────

/// What a node of a JSON document is, as far as the feeds and brokers read it.
pub enum JsonLeaf {
    Text(Seq<char>),
    /// Bit pattern of the number as a floating-point one, and the number itself where it is
    /// written as a whole one, without point or exponent, from 0 up to `u64::MAX`.
    Number(u64, Option<u64>),
    /// Null, a truth value, a list or an object.
    Other,
}

/// A step from a node of a document to one below it.
pub enum JsonStep {
    /// To what an object has below a key.
    Key(Seq<char>),
    /// To an item of a list, counted from zero.
    Item(nat),
}

/// The nodes of a document, by the steps on the way to them.
pub type JsonNodes = Map<Seq<JsonStep>, JsonLeaf>;

/// A JSON document as `serde_json` holds it.
#[verifier::external_type_specification]
#[verifier::external_body]
pub struct ExJsonValue(serde_json::Value);

/// What a document holds.
pub uninterp spec fn json_nodes(v: serde_json::Value) -> Map<Seq<JsonStep>, JsonLeaf>;

/// What the document holds that `serde_json::from_str` reads from a text, if it is one.
pub uninterp spec fn json_parsed(text: Seq<char>) -> Option<Map<Seq<JsonStep>, JsonLeaf>>;

/// The words in which `serde_json::from_str` refuses a text that is not a document.
pub uninterp spec fn json_refusal(text: Seq<char>) -> Seq<char>;

/// The document that `serde_json::from_str` reads from a text, as it is shown for debugging.
pub uninterp spec fn json_shown(text: Seq<char>) -> Seq<char>;

/// The part of a document behind a step.
pub open spec fn json_under(nodes: JsonNodes, step: JsonStep) -> JsonNodes {
    Map::new(
        |path: Seq<JsonStep>| nodes.contains_key(seq![step] + path),
        |path: Seq<JsonStep>| nodes[seq![step] + path],
    )
}

/// The text that a node is, if it is one.
pub open spec fn leaf_text(nodes: JsonNodes, path: Seq<JsonStep>) -> Option<Seq<char>> {
    if nodes.contains_key(path) {
        match nodes[path] {
            JsonLeaf::Text(t) => Some(t),
            _ => None,
        }
    } else {
        None
    }
}

/// Bit pattern of the number that a node is, if it is one.
pub open spec fn leaf_number(nodes: JsonNodes, path: Seq<JsonStep>) -> Option<u64> {
    if nodes.contains_key(path) {
        match nodes[path] {
            JsonLeaf::Number(bits, _) => Some(bits),
            _ => None,
        }
    } else {
        None
    }
}

/// The whole number from 0 up to `u64::MAX` that a node is written as, if it is one.
pub open spec fn leaf_count(nodes: JsonNodes, path: Seq<JsonStep>) -> Option<u64> {
    if nodes.contains_key(path) {
        match nodes[path] {
            JsonLeaf::Number(_, whole) => whole,
            _ => None,
        }
    } else {
        None
    }
}

/// `serde_json::from_str` reads a document from a text, or reports that there is none in it.
/// The report is taken as the text that it displays.
#[verifier::external_body]
pub(crate) fn json_parse(text: &str) -> (r: Result<serde_json::Value, String>)
    ensures
        match r {
            Ok(v) => json_parsed(text@) == Some(json_nodes(v)),
            Err(report) => json_parsed(text@) is None && report@ == json_refusal(text@),
        },
{
    serde_json::from_str::<serde_json::Value>(text).map_err(|e| e.to_string())
}

/// The `Debug` form of the `serde_json::Value` that `serde_json::from_str` reads from a text, if
/// there is a document in it.
#[verifier::external_body]
pub(crate) fn json_debug(text: &str) -> (r: Option<String>)
    ensures
        match r {
            Some(s) => json_parsed(text@) is Some && s@ == json_shown(text@),
            None => json_parsed(text@) is None,
        },
{
    serde_json::from_str::<serde_json::Value>(text).ok().map(|v| format!("{:?}", v))
}

/// `serde_json::Value::get` with a key gives the node below it, where the value is an object
/// that has the key.
#[verifier::external_body]
pub(crate) fn json_get<'a>(v: &'a serde_json::Value, key: &str) -> (r: Option<&'a serde_json::Value>)
    ensures
        match r {
            Some(child) => json_nodes(*v).contains_key(seq![JsonStep::Key(key@)]) && json_nodes(
                *child,
            ) == json_under(json_nodes(*v), JsonStep::Key(key@)),
            None => !json_nodes(*v).contains_key(seq![JsonStep::Key(key@)]),
        },
{
    v.get(key)
}

/// `serde_json::Value::get` with a place gives the item there, where the value is a list that
/// is long enough.
#[verifier::external_body]
pub(crate) fn json_item<'a>(v: &'a serde_json::Value, place: usize) -> (r: Option<
    &'a serde_json::Value,
>)
    ensures
        match r {
            Some(child) => json_nodes(*v).contains_key(seq![JsonStep::Item(place as nat)])
                && json_nodes(*child) == json_under(json_nodes(*v), JsonStep::Item(place as nat)),
            None => !json_nodes(*v).contains_key(seq![JsonStep::Item(place as nat)]),
        },
{
    v.get(place)
}

/// `serde_json::Value::as_str` gives the text of a value that is one.
#[verifier::external_body]
pub(crate) fn json_str(v: &serde_json::Value) -> (r: Option<String>)
    ensures
        match r {
            Some(s) => leaf_text(json_nodes(*v), Seq::empty()) == Some(s@),
            None => leaf_text(json_nodes(*v), Seq::empty()) is None,
        },
{
    v.as_str().map(|s| s.to_string())
}

/// `serde_json::Value::as_f64` gives the number that a value is, here as its bit pattern.
#[verifier::external_body]
pub(crate) fn json_number(v: &serde_json::Value) -> (r: Option<u64>)
    ensures
        r == leaf_number(json_nodes(*v), Seq::empty()),
{
    v.as_f64().map(|x| x.to_bits())
}

/// `serde_json::Value::as_u64` gives the whole number that a value is written as, if it fits.
#[verifier::external_body]
pub(crate) fn json_count(v: &serde_json::Value) -> (r: Option<u64>)
    ensures
        r == leaf_count(json_nodes(*v), Seq::empty()),
{
    v.as_u64()
}

} // verus!
