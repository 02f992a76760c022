//! Reading single values out of JSON replies.

use crate::num::double::Double;
use crate::outside::{
    json_count, json_get, json_item, json_nodes, json_number, json_parse, json_parsed, json_str,
    json_under, leaf_count, leaf_number, leaf_text, JsonNodes, JsonStep,
};
use crate::text::maybe;
use vstd::prelude::*;

verus! {

/// A reply that is not a JSON document.
#[derive(Clone, Copy, Debug, PartialEq, Eq, Structural)]
pub struct NotJson;

impl NotJson {
    pub fn message(&self) -> (r: String)
        ensures
            r@ == "error decoding response body"@,
    {
        "error decoding response body".to_string()
    }
}

/// A message that is not a JSON document, in the words of what tried to read it.
#[derive(Debug)]
pub struct Unreadable {
    pub report: String,
}

impl Unreadable {
    pub fn message(&self) -> (r: String)
        ensures
            r@ == self.report@,
    {
        self.report.clone()
    }
}

/// The number behind a step.
pub open spec fn number_behind(nodes: JsonNodes, step: JsonStep) -> Option<Double> {
    match leaf_number(nodes, seq![step]) {
        Some(bits) => Some(Double { bits }),
        None => None,
    }
}

/// The text below a key.
pub open spec fn text_below(nodes: JsonNodes, key: Seq<char>) -> Option<Seq<char>> {
    leaf_text(nodes, seq![JsonStep::Key(key)])
}

/// The number below a key.
pub open spec fn number_below(nodes: JsonNodes, key: Seq<char>) -> Option<Double> {
    number_behind(nodes, JsonStep::Key(key))
}

/// The whole number below a key.
pub open spec fn count_below(nodes: JsonNodes, key: Seq<char>) -> Option<u64> {
    leaf_count(nodes, seq![JsonStep::Key(key)])
}

/// The text at a place of a list.
pub open spec fn text_at(nodes: JsonNodes, place: nat) -> Option<Seq<char>> {
    leaf_text(nodes, seq![JsonStep::Item(place)])
}

/// The number at a place of a list.
pub open spec fn number_at(nodes: JsonNodes, place: nat) -> Option<Double> {
    number_behind(nodes, JsonStep::Item(place))
}

/// The whole number at a place of a list.
pub open spec fn count_at(nodes: JsonNodes, place: nat) -> Option<u64> {
    leaf_count(nodes, seq![JsonStep::Item(place)])
}

/// What is below a key: nothing, if there is no such key.
pub open spec fn below(nodes: JsonNodes, key: Seq<char>) -> JsonNodes {
    if nodes.contains_key(seq![JsonStep::Key(key)]) {
        json_under(nodes, JsonStep::Key(key))
    } else {
        Map::empty()
    }
}

proof fn lemma_path(step: JsonStep)
    ensures
        seq![step] + Seq::<JsonStep>::empty() == seq![step],
{
    assert(seq![step] + Seq::<JsonStep>::empty() =~= seq![step]);
}

pub(crate) fn text_in(v: &serde_json::Value, key: &str) -> (r: Option<String>)
    ensures
        maybe(r) == text_below(json_nodes(*v), key@),
{
    proof {
        lemma_path(JsonStep::Key(key@));
    }
    match json_get(v, key) {
        Some(child) => json_str(child),
        None => None,
    }
}

pub(crate) fn number_in(v: &serde_json::Value, key: &str) -> (r: Option<Double>)
    ensures
        r == number_below(json_nodes(*v), key@),
{
    proof {
        lemma_path(JsonStep::Key(key@));
    }
    match json_get(v, key) {
        Some(child) => match json_number(child) {
            Some(bits) => Some(Double::from_bits(bits)),
            None => None,
        },
        None => None,
    }
}

pub(crate) fn count_in(v: &serde_json::Value, key: &str) -> (r: Option<u64>)
    ensures
        r == count_below(json_nodes(*v), key@),
{
    proof {
        lemma_path(JsonStep::Key(key@));
    }
    match json_get(v, key) {
        Some(child) => json_count(child),
        None => None,
    }
}

pub(crate) fn listed_text(v: &serde_json::Value, place: usize) -> (r: Option<String>)
    ensures
        maybe(r) == text_at(json_nodes(*v), place as nat),
{
    proof {
        lemma_path(JsonStep::Item(place as nat));
    }
    match json_item(v, place) {
        Some(child) => json_str(child),
        None => None,
    }
}

pub(crate) fn listed_number(v: &serde_json::Value, place: usize) -> (r: Option<Double>)
    ensures
        r == number_at(json_nodes(*v), place as nat),
{
    proof {
        lemma_path(JsonStep::Item(place as nat));
    }
    match json_item(v, place) {
        Some(child) => match json_number(child) {
            Some(bits) => Some(Double::from_bits(bits)),
            None => None,
        },
        None => None,
    }
}

pub(crate) fn listed_count(v: &serde_json::Value, place: usize) -> (r: Option<u64>)
    ensures
        r == count_at(json_nodes(*v), place as nat),
{
    proof {
        lemma_path(JsonStep::Item(place as nat));
    }
    match json_item(v, place) {
        Some(child) => json_count(child),
        None => None,
    }
}

/// Reads the text below a key of a reply.
pub fn read_text(body: &str, key: &str) -> (r: Result<Option<String>, NotJson>)
    ensures
        match json_parsed(body@) {
            Some(nodes) => r matches Ok(t) && maybe(t) == text_below(nodes, key@),
            None => r is Err,
        },
{
    match json_parse(body) {
        Ok(v) => Ok(text_in(&v, key)),
        Err(_) => Err(NotJson),
    }
}

/// Reads the number below a key of a reply.
pub fn read_number(body: &str, key: &str) -> (r: Result<Option<Double>, NotJson>)
    ensures
        match json_parsed(body@) {
            Some(nodes) => r == Ok::<_, NotJson>(number_below(nodes, key@)),
            None => r is Err,
        },
{
    match json_parse(body) {
        Ok(v) => Ok(number_in(&v, key)),
        Err(_) => Err(NotJson),
    }
}

/// Reads the number below a key below another one.
pub fn read_inner_number(body: &str, outer: &str, key: &str) -> (r: Result<
    Option<Double>,
    NotJson,
>)
    ensures
        match json_parsed(body@) {
            Some(nodes) => r == Ok::<_, NotJson>(number_below(below(nodes, outer@), key@)),
            None => r is Err,
        },
{
    match json_parse(body) {
        Ok(v) => match json_get(&v, outer) {
            Some(child) => Ok(number_in(child, key)),
            None => Ok(None),
        },
        Err(_) => Err(NotJson),
    }
}

/// Reads the whole number below a key below another one.
pub fn read_inner_count(body: &str, outer: &str, key: &str) -> (r: Result<Option<u64>, NotJson>)
    ensures
        match json_parsed(body@) {
            Some(nodes) => r == Ok::<_, NotJson>(count_below(below(nodes, outer@), key@)),
            None => r is Err,
        },
{
    match json_parse(body) {
        Ok(v) => match json_get(&v, outer) {
            Some(child) => Ok(count_in(child, key)),
            None => Ok(None),
        },
        Err(_) => Err(NotJson),
    }
}

/// Reads the text below a key below another one.
pub fn read_inner_text(body: &str, outer: &str, key: &str) -> (r: Result<Option<String>, NotJson>)
    ensures
        match json_parsed(body@) {
            Some(nodes) => r matches Ok(t) && maybe(t) == text_below(below(nodes, outer@), key@),
            None => r is Err,
        },
{
    match json_parse(body) {
        Ok(v) => match json_get(&v, outer) {
            Some(child) => Ok(text_in(child, key)),
            None => Ok(None),
        },
        Err(_) => Err(NotJson),
    }
}

} // verus!
