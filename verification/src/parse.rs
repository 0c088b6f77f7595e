//! Event normalizer: turns one raw JSON event into a `SearchEvent`.

use crate::types::{JsonValue, ParseError, SearchEvent};
use vstd::prelude::*;

verus! {

/// What `serde_json::from_str` yields for a given text, carried over into the
/// crate's own JSON model: `None` where the text is not valid JSON.
pub uninterp spec fn json_of(s: Seq<char>) -> Option<JsonValue>;

#[verifier::external_type_specification]
#[verifier::external_body]
pub struct ExValue(serde_json::Value);

/// Relies on serde_json::from_str: whether a text is valid JSON, and which
/// value it denotes, depend on the text alone (objects come back with sorted,
/// unique keys; numbers keep their decimal rendering).
#[verifier::external_body]
fn parse_json(s: &str) -> (r: Option<JsonValue>)
    ensures
        r == json_of(s@),
{
    match serde_json::from_str::<serde_json::Value>(s) {
        Ok(v) => Some(from_json_value(v)),
        Err(_) => None,
    }
}

/// Relies on serde_json's value tree: carries it over into the crate's own
/// model, one variant per arm; the converting half of `parse_json`, called
/// nowhere else.
#[verifier::external_body]
fn from_json_value(v: serde_json::Value) -> JsonValue {
    match v {
        serde_json::Value::Null => JsonValue::Null,
        serde_json::Value::Bool(b) => JsonValue::Bool(b),
        serde_json::Value::Number(n) => JsonValue::Number(n.to_string()),
        serde_json::Value::String(s) => JsonValue::Text(s),
        serde_json::Value::Array(a) => JsonValue::Array(
            a.into_iter().map(from_json_value).collect(),
        ),
        serde_json::Value::Object(m) => JsonValue::Object(
            m.into_iter().map(|p| (p.0, from_json_value(p.1))).collect(),
        ),
    }
}

/// The four keys that are promoted to dedicated fields of `SearchEvent` and
/// therefore never appear in `raw`.
pub open spec fn is_extracted_key(k: Seq<char>) -> bool {
    ||| k == "answer"@
    ||| k == "chunks"@
    ||| k == "backend_uuid"@
    ||| k == "attachments"@
}

/// The value under `key` in an object's entry list: the first entry whose
/// key matches, or `None`.
pub open spec fn obj_lookup(entries: Seq<(String, JsonValue)>, key: Seq<char>) -> Option<JsonValue>
    decreases entries.len(),
{
    if entries.len() == 0 {
        None
    } else if entries[0].0@ == key {
        Some(entries[0].1)
    } else {
        obj_lookup(entries.drop_first(), key)
    }
}

/// The position of the first entry whose key is `key` (meaningful only where
/// `obj_lookup` finds one).
pub open spec fn first_key_index(entries: Seq<(String, JsonValue)>, key: Seq<char>) -> int
    decreases entries.len(),
{
    if entries.len() == 0 {
        0
    } else if entries[0].0@ == key {
        0
    } else {
        1 + first_key_index(entries.drop_first(), key)
    }
}

/// The raw map of an event: the entry list with every entry under an
/// extracted key removed, order kept.
pub open spec fn spec_raw(entries: Seq<(String, JsonValue)>) -> Seq<(String, JsonValue)>
    decreases entries.len(),
{
    if entries.len() == 0 {
        Seq::empty()
    } else if is_extracted_key(entries[0].0@) {
        spec_raw(entries.drop_first())
    } else {
        seq![entries[0]] + spec_raw(entries.drop_first())
    }
}

proof fn lemma_lookup_first(entries: Seq<(String, JsonValue)>, key: Seq<char>, i: int)
    requires
        0 <= i < entries.len(),
        entries[i].0@ == key,
        forall|j: int| 0 <= j < i ==> entries[j].0@ != key,
    ensures
        obj_lookup(entries, key) == Some(entries[i].1),
        first_key_index(entries, key) == i,
    decreases i,
{
    if i > 0 {
        assert(entries[0].0@ != key);
        assert(forall|j: int| 0 <= j < i - 1 ==> entries.drop_first()[j].0@ != key);
        lemma_lookup_first(entries.drop_first(), key, i - 1);
    }
}

proof fn lemma_lookup_none(entries: Seq<(String, JsonValue)>, key: Seq<char>)
    requires
        forall|j: int| 0 <= j < entries.len() ==> entries[j].0@ != key,
    ensures
        obj_lookup(entries, key) is None,
    decreases entries.len(),
{
    if entries.len() > 0 {
        assert(forall|j: int|
            0 <= j < entries.drop_first().len() ==> entries.drop_first()[j].0@ != key);
        lemma_lookup_none(entries.drop_first(), key);
    }
}

proof fn lemma_lookup_remove_other(entries: Seq<(String, JsonValue)>, i: int, key: Seq<char>)
    requires
        0 <= i < entries.len(),
        entries[i].0@ != key,
    ensures
        obj_lookup(entries.remove(i), key) == obj_lookup(entries, key),
    decreases i,
{
    if i == 0 {
        assert(entries.remove(0) =~= entries.drop_first());
    } else {
        assert(entries.remove(i).drop_first() =~= entries.drop_first().remove(i - 1));
        lemma_lookup_remove_other(entries.drop_first(), i - 1, key);
    }
}

/// The raw map holds no entry under an extracted key, whatever the input
/// object held under them.
pub proof fn lemma_raw_has_no_extracted_keys(entries: Seq<(String, JsonValue)>)
    ensures
        forall|j: int|
            0 <= j < spec_raw(entries).len() ==> !is_extracted_key(
                #[trigger] spec_raw(entries)[j].0@,
            ),
    decreases entries.len(),
{
    if entries.len() > 0 {
        lemma_raw_has_no_extracted_keys(entries.drop_first());
        let rest = spec_raw(entries.drop_first());
        if is_extracted_key(entries[0].0@) {
            assert(spec_raw(entries) == rest);
        } else {
            assert(spec_raw(entries) == seq![entries[0]] + rest);
            assert forall|j: int| 0 <= j < spec_raw(entries).len() implies !is_extracted_key(
                #[trigger] spec_raw(entries)[j].0@,
            ) by {
                if j == 0 {
                    assert(spec_raw(entries)[j] == entries[0]);
                } else {
                    assert(spec_raw(entries)[j] == rest[j - 1]);
                    assert(!is_extracted_key(rest[j - 1].0@));
                }
            }
        }
    }
}

/// Looking an extracted key up in the raw map always fails.
pub proof fn lemma_raw_lookup_extracted(entries: Seq<(String, JsonValue)>, key: Seq<char>)
    requires
        is_extracted_key(key),
    ensures
        obj_lookup(spec_raw(entries), key) is None,
{
    lemma_raw_has_no_extracted_keys(entries);
    lemma_lookup_none(spec_raw(entries), key);
}

/// Every key other than the four extracted ones is found in the raw map
/// exactly as in the original object.
pub proof fn lemma_raw_keeps_other_keys(entries: Seq<(String, JsonValue)>, key: Seq<char>)
    requires
        !is_extracted_key(key),
    ensures
        obj_lookup(spec_raw(entries), key) == obj_lookup(entries, key),
    decreases entries.len(),
{
    if entries.len() > 0 {
        lemma_raw_keeps_other_keys(entries.drop_first(), key);
        if !is_extracted_key(entries[0].0@) {
            let con = seq![entries[0]] + spec_raw(entries.drop_first());
            assert(con.drop_first() =~= spec_raw(entries.drop_first()));
        }
    }
}

/// The value a key denotes inside a JSON value: object lookup, `None` on
/// any other shape.
pub open spec fn json_get(v: JsonValue, key: Seq<char>) -> Option<JsonValue> {
    match v {
        JsonValue::Object(entries) => obj_lookup(entries@, key),
        _ => None,
    }
}

/// The text under `key`, where the entry exists and holds a string.
pub open spec fn spec_obj_text(entries: Seq<(String, JsonValue)>, key: Seq<char>) -> Option<
    Seq<char>,
> {
    match obj_lookup(entries, key) {
        Some(JsonValue::Text(s)) => Some(s@),
        _ => None,
    }
}

/// The object after the nested-text pass: where the `text` entry holds a
/// string that is itself valid JSON, that entry's value is replaced in place
/// with the parsed structure; in every other case the object is unchanged.
pub open spec fn spec_with_text_parsed(entries: Seq<(String, JsonValue)>) -> Seq<
    (String, JsonValue),
> {
    match obj_lookup(entries, "text"@) {
        Some(JsonValue::Text(s)) => match json_of(s@) {
            Some(v) => {
                let i = first_key_index(entries, "text"@);
                entries.update(i, (entries[i].0, v))
            },
            None => entries,
        },
        _ => entries,
    }
}

/// Whether a reasoning step is the terminal one: an object whose
/// `step_type` field holds the string `FINAL`.
pub open spec fn spec_is_final(step: JsonValue) -> bool {
    match json_get(step, "step_type"@) {
        Some(JsonValue::Text(s)) => s@ == "FINAL"@,
        _ => false,
    }
}

/// The first FINAL step of a step sequence, if any.
pub open spec fn spec_find_final(steps: Seq<JsonValue>) -> Option<JsonValue>
    decreases steps.len(),
{
    if steps.len() == 0 {
        None
    } else if spec_is_final(steps[0]) {
        Some(steps[0])
    } else {
        spec_find_final(steps.drop_first())
    }
}

/// The parsed payload of the FINAL step's `content.answer` string: `Some`
/// exactly where the whole chain exists — the `text` value is an array, it
/// has a FINAL step, that step's `content.answer` holds a string, and that
/// string is valid JSON.
pub open spec fn spec_final_payload(entries: Seq<(String, JsonValue)>) -> Option<JsonValue> {
    match obj_lookup(entries, "text"@) {
        Some(JsonValue::Array(steps)) => match spec_find_final(steps@) {
            Some(step) => match json_get(step, "content"@) {
                Some(c) => match json_get(c, "answer"@) {
                    Some(JsonValue::Text(s)) => json_of(s@),
                    _ => None,
                },
                None => None,
            },
            None => None,
        },
        _ => None,
    }
}

/// The answer text a payload object carries, if any.
pub open spec fn spec_answer_of(v: JsonValue) -> Option<Seq<char>> {
    match json_get(v, "answer"@) {
        Some(JsonValue::Text(s)) => Some(s@),
        _ => None,
    }
}

/// The chunk sequence a payload object carries; absence or a wrong type
/// yields the empty sequence.
pub open spec fn spec_chunks_of(v: JsonValue) -> Seq<JsonValue> {
    match json_get(v, "chunks"@) {
        Some(JsonValue::Array(cs)) => cs@,
        _ => Seq::empty(),
    }
}

/// The top-level chunk sequence of the object itself.
pub open spec fn spec_obj_chunks(entries: Seq<(String, JsonValue)>) -> Seq<JsonValue> {
    match obj_lookup(entries, "chunks"@) {
        Some(JsonValue::Array(cs)) => cs@,
        _ => Seq::empty(),
    }
}

/// The event's answer under the tie-break policy: structured (FINAL-step)
/// extraction wins wherever its payload exists; only otherwise do the
/// top-level fields count.
pub open spec fn spec_event_answer(entries: Seq<(String, JsonValue)>) -> Option<Seq<char>> {
    match spec_final_payload(entries) {
        Some(payload) => spec_answer_of(payload),
        None => spec_obj_text(entries, "answer"@),
    }
}

/// The event's chunks under the same tie-break policy as the answer.
pub open spec fn spec_event_chunks(entries: Seq<(String, JsonValue)>) -> Seq<JsonValue> {
    match spec_final_payload(entries) {
        Some(payload) => spec_chunks_of(payload),
        None => spec_obj_chunks(entries),
    }
}

/// The string elements of an array, in order, everything else dropped.
pub open spec fn spec_text_items(vs: Seq<JsonValue>) -> Seq<String>
    decreases vs.len(),
{
    if vs.len() == 0 {
        Seq::empty()
    } else {
        match vs[0] {
            JsonValue::Text(s) => seq![s] + spec_text_items(vs.drop_first()),
            _ => spec_text_items(vs.drop_first()),
        }
    }
}

/// The string elements under `key`, where the entry exists and holds an
/// array; the empty sequence otherwise.
pub open spec fn spec_string_items(entries: Seq<(String, JsonValue)>, key: Seq<char>) -> Seq<
    String,
> {
    match obj_lookup(entries, key) {
        Some(JsonValue::Array(vs)) => spec_text_items(vs@),
        _ => Seq::empty(),
    }
}

/// The view of an optional string.
pub open spec fn opt_text_view(o: Option<String>) -> Option<Seq<char>> {
    match o {
        Some(s) => Some(s@),
        None => None,
    }
}

/// The entry list of a valid event text: `Some` exactly where the text
/// parses to a JSON object.
pub open spec fn spec_event_object(s: Seq<char>) -> Option<Seq<(String, JsonValue)>> {
    match json_of(s) {
        Some(JsonValue::Object(m)) => Some(m@),
        _ => None,
    }
}

/// The extracted keys are pairwise distinct texts.
proof fn lemma_keys_distinct()
    ensures
        "answer"@ != "chunks"@,
        "backend_uuid"@ != "answer"@,
        "backend_uuid"@ != "chunks"@,
        "attachments"@ != "answer"@,
        "attachments"@ != "chunks"@,
{
    reveal_strlit("answer");
    reveal_strlit("chunks");
    reveal_strlit("backend_uuid");
    reveal_strlit("attachments");
    assert("answer"@.len() == 6);
    assert("chunks"@.len() == 6);
    assert("backend_uuid"@.len() == 12);
    assert("attachments"@.len() == 11);
    assert("answer"@[0] == 'a');
    assert("chunks"@[0] == 'c');
}

/// Structural equality of two JSON values: the same shape, with numbers,
/// texts and keys compared character by character. A deep copy of a value
/// is equal to it in this sense.
pub open spec fn json_equiv(a: JsonValue, b: JsonValue) -> bool
    decreases a,
{
    match (a, b) {
        (JsonValue::Null, JsonValue::Null) => true,
        (JsonValue::Bool(x), JsonValue::Bool(y)) => x == y,
        (JsonValue::Number(x), JsonValue::Number(y)) => x@ == y@,
        (JsonValue::Text(x), JsonValue::Text(y)) => x@ == y@,
        (JsonValue::Array(x), JsonValue::Array(y)) => {
            &&& x@.len() == y@.len()
            &&& forall|i: int| 0 <= i < x@.len() ==> json_equiv(#[trigger] x@[i], y@[i])
        },
        (JsonValue::Object(x), JsonValue::Object(y)) => {
            &&& x@.len() == y@.len()
            &&& forall|i: int|
                0 <= i < x@.len() ==> (#[trigger] x@[i]).0@ == y@[i].0@ && json_equiv(
                    x@[i].1,
                    y@[i].1,
                )
        },
        _ => false,
    }
}

/// Element-wise structural equality of two value sequences.
pub open spec fn json_seq_equiv(a: Seq<JsonValue>, b: Seq<JsonValue>) -> bool {
    a.len() == b.len() && forall|i: int| 0 <= i < a.len() ==> json_equiv(#[trigger] a[i], b[i])
}

/// Structural equality is reflexive: every value is equal to itself.
pub proof fn lemma_json_equiv_reflexive(v: JsonValue)
    ensures
        json_equiv(v, v),
    decreases v,
{
    match v {
        JsonValue::Array(x) => {
            assert forall|i: int| 0 <= i < x@.len() implies json_equiv(
                #[trigger] x@[i],
                x@[i],
            ) by {
                lemma_json_equiv_reflexive(x@[i]);
            }
        },
        JsonValue::Object(x) => {
            assert forall|i: int| 0 <= i < x@.len() implies (#[trigger] x@[i]).0@ == x@[i].0@
                && json_equiv(x@[i].1, x@[i].1) by {
                lemma_json_equiv_reflexive(x@[i].1);
            }
        },
        _ => {},
    }
}

/// Element-wise structural equality is reflexive.
pub proof fn lemma_json_seq_equiv_reflexive(s: Seq<JsonValue>)
    ensures
        json_seq_equiv(s, s),
{
    assert forall|i: int| 0 <= i < s.len() implies json_equiv(#[trigger] s[i], s[i]) by {
        lemma_json_equiv_reflexive(s[i]);
    }
}

proof fn lemma_find_final_first(steps: Seq<JsonValue>, i: int)
    requires
        0 <= i < steps.len(),
        spec_is_final(steps[i]),
        forall|j: int| 0 <= j < i ==> !spec_is_final(steps[j]),
    ensures
        spec_find_final(steps) == Some(steps[i]),
    decreases i,
{
    if i > 0 {
        assert(forall|j: int| 0 <= j < i - 1 ==> !spec_is_final(steps.drop_first()[j]));
        lemma_find_final_first(steps.drop_first(), i - 1);
    }
}

proof fn lemma_find_final_none(steps: Seq<JsonValue>)
    requires
        forall|j: int| 0 <= j < steps.len() ==> !spec_is_final(steps[j]),
    ensures
        spec_find_final(steps) is None,
    decreases steps.len(),
{
    if steps.len() > 0 {
        assert(forall|j: int|
            0 <= j < steps.drop_first().len() ==> !spec_is_final(steps.drop_first()[j]));
        lemma_find_final_none(steps.drop_first());
    }
}

/// Structured extraction always takes priority: where the FINAL-step
/// payload exists, the event's answer and chunks come from it alone,
/// whatever the top-level `answer` and `chunks` fields hold.
pub proof fn lemma_structured_extraction_wins(
    entries: Seq<(String, JsonValue)>,
    payload: JsonValue,
)
    requires
        spec_final_payload(entries) == Some(payload),
    ensures
        spec_event_answer(entries) == spec_answer_of(payload),
        spec_event_chunks(entries) == spec_chunks_of(payload),
{
}

/// Where the `text` value is an array of steps with no FINAL step, the
/// event falls back to the top-level `answer` and `chunks` fields.
pub proof fn lemma_fallback_without_final_step(
    entries: Seq<(String, JsonValue)>,
    steps: Vec<JsonValue>,
)
    requires
        obj_lookup(entries, "text"@) == Some(JsonValue::Array(steps)),
        spec_find_final(steps@) is None,
    ensures
        spec_event_answer(entries) == spec_obj_text(entries, "answer"@),
        spec_event_chunks(entries) == spec_obj_chunks(entries),
{
}

fn str_eq(a: &str, b: &str) -> (r: bool)
    ensures
        r == (a@ == b@),
{
    let ao: String = a.to_owned();
    let bo: String = b.to_owned();
    ao == bo
}

fn is_extracted_key_exec(k: &String) -> (r: bool)
    ensures
        r == is_extracted_key(k@),
{
    ||| str_eq(k.as_str(), "answer")
    ||| str_eq(k.as_str(), "chunks")
    ||| str_eq(k.as_str(), "backend_uuid")
    ||| str_eq(k.as_str(), "attachments")
}

/// A deep copy of a JSON value, structurally equal to the original.
fn clone_json(v: &JsonValue) -> (r: JsonValue)
    ensures
        json_equiv(r, *v),
    decreases *v,
{
    match v {
        JsonValue::Null => JsonValue::Null,
        JsonValue::Bool(b) => JsonValue::Bool(*b),
        JsonValue::Number(s) => JsonValue::Number(s.clone()),
        JsonValue::Text(s) => JsonValue::Text(s.clone()),
        JsonValue::Array(vs) => JsonValue::Array(clone_json_array(vs)),
        JsonValue::Object(es) => JsonValue::Object(clone_json_entries(es)),
    }
}

/// A deep copy of an array of JSON values, element-wise equal to it.
fn clone_json_array(vs: &Vec<JsonValue>) -> (r: Vec<JsonValue>)
    ensures
        json_seq_equiv(r@, vs@),
    decreases vs@,
{
    let mut out: Vec<JsonValue> = Vec::new();
    let mut i: usize = 0;
    while i < vs.len()
        invariant
            0 <= i <= vs.len(),
            out@.len() == i,
            forall|j: int| 0 <= j < i ==> json_equiv(#[trigger] out@[j], vs@[j]),
        decreases vs.len() - i,
    {
        let item = clone_json(&vs[i]);
        out.push(item);
        i += 1;
    }
    out
}

/// A deep copy of an object's entries, keys and values pairwise equal.
fn clone_json_entries(es: &Vec<(String, JsonValue)>) -> (r: Vec<(String, JsonValue)>)
    ensures
        r@.len() == es@.len(),
        forall|j: int|
            0 <= j < es@.len() ==> (#[trigger] r@[j]).0@ == es@[j].0@ && json_equiv(
                r@[j].1,
                es@[j].1,
            ),
    decreases es@,
{
    let mut out: Vec<(String, JsonValue)> = Vec::new();
    let mut i: usize = 0;
    while i < es.len()
        invariant
            0 <= i <= es.len(),
            out@.len() == i,
            forall|j: int|
                0 <= j < i ==> (#[trigger] out@[j]).0@ == es@[j].0@ && json_equiv(
                    out@[j].1,
                    es@[j].1,
                ),
        decreases es.len() - i,
    {
        let key = es[i].0.clone();
        let val = clone_json(&es[i].1);
        out.push((key, val));
        i += 1;
    }
    out
}

/// A borrowed view of the value under `key`, as `obj_lookup` gives it.
fn get_value<'a>(entries: &'a Vec<(String, JsonValue)>, key: &str) -> (r: Option<&'a JsonValue>)
    ensures
        (r is Some) == (obj_lookup(entries@, key@) is Some),
        r matches Some(v) ==> obj_lookup(entries@, key@) == Some(*v),
{
    let mut i: usize = 0;
    while i < entries.len()
        invariant
            0 <= i <= entries.len(),
            forall|j: int| 0 <= j < i ==> entries@[j].0@ != key@,
        decreases entries.len() - i,
    {
        if str_eq(entries[i].0.as_str(), key) {
            proof {
                lemma_lookup_first(entries@, key@, i as int);
            }
            return Some(&entries[i].1);
        }
        i += 1;
    }
    proof {
        lemma_lookup_none(entries@, key@);
    }
    None
}

/// Removes the first entry under `key` and hands its value out; every
/// other key still looks up to the same value.
fn take_entry(entries: &mut Vec<(String, JsonValue)>, key: &str) -> (r: Option<JsonValue>)
    ensures
        r == obj_lookup(old(entries)@, key@),
        forall|k: Seq<char>|
            k != key@ ==> obj_lookup(final(entries)@, k) == obj_lookup(old(entries)@, k),
{
    let mut i: usize = 0;
    while i < entries.len()
        invariant
            0 <= i <= entries.len(),
            entries@ == old(entries)@,
            forall|j: int| 0 <= j < i ==> entries@[j].0@ != key@,
        decreases entries.len() - i,
    {
        if str_eq(entries[i].0.as_str(), key) {
            proof {
                lemma_lookup_first(entries@, key@, i as int);
                assert forall|k: Seq<char>| k != key@ implies obj_lookup(
                    entries@.remove(i as int),
                    k,
                ) == obj_lookup(entries@, k) by {
                    lemma_lookup_remove_other(entries@, i as int, k);
                }
            }
            let pair = entries.remove(i);
            return Some(pair.1);
        }
        i += 1;
    }
    proof {
        lemma_lookup_none(entries@, key@);
    }
    None
}

/// If the `text` field is a JSON string, parses it and replaces the field
/// with the parsed value; on any failure the object is left untouched.
fn parse_nested_text_field(content: &mut Vec<(String, JsonValue)>)
    ensures
        final(content)@ == spec_with_text_parsed(old(content)@),
{
    let mut i: usize = 0;
    while i < content.len()
        invariant
            0 <= i <= content.len(),
            content@ == old(content)@,
            forall|j: int| 0 <= j < i ==> content@[j].0@ != "text"@,
        decreases content.len() - i,
    {
        if str_eq(content[i].0.as_str(), "text") {
            proof {
                lemma_lookup_first(content@, "text"@, i as int);
            }
            let replacement: Option<JsonValue> = match &content[i].1 {
                JsonValue::Text(s) => parse_json(s.as_str()),
                _ => None,
            };
            if let Some(v) = replacement {
                let ghost before = content@;
                let pair = content.remove(i);
                content.insert(i, (pair.0, v));
                proof {
                    assert(content@ =~= before.update(i as int, (before[i as int].0, v)));
                }
            }
            return;
        }
        i += 1;
    }
    proof {
        lemma_lookup_none(content@, "text"@);
    }
}

/// Extracts a string value from the content map.
fn extract_string(content: &Vec<(String, JsonValue)>, key: &str) -> (r: Option<String>)
    ensures
        opt_text_view(r) == spec_obj_text(content@, key@),
{
    match get_value(content, key) {
        Some(v) => match v {
            JsonValue::Text(s) => Some(s.clone()),
            _ => None,
        },
        None => None,
    }
}

/// Extracts an array of strings from the content map: only the string
/// elements count, in order.
fn extract_string_array(content: &Vec<(String, JsonValue)>, key: &str) -> (r: Vec<String>)
    ensures
        r@ == spec_string_items(content@, key@),
{
    let arr: &Vec<JsonValue> = match get_value(content, key) {
        Some(v) => match v {
            JsonValue::Array(vs) => vs,
            _ => {
                return Vec::new();
            },
        },
        None => {
            return Vec::new();
        },
    };
    let mut out: Vec<String> = Vec::new();
    let mut i: usize = 0;
    proof {
        assert(arr@.skip(0) =~= arr@);
        assert(out@ + spec_text_items(arr@) =~= spec_text_items(arr@));
    }
    while i < arr.len()
        invariant
            0 <= i <= arr.len(),
            out@ + spec_text_items(arr@.skip(i as int)) == spec_text_items(arr@),
        decreases arr.len() - i,
    {
        let ghost pre = out@;
        let ghost tail = arr@.skip(i as int);
        proof {
            assert(tail[0] == arr@[i as int]);
            assert(tail.drop_first() =~= arr@.skip(i as int + 1));
        }
        match &arr[i] {
            JsonValue::Text(s) => {
                out.push(s.clone());
                proof {
                    assert(out@ + spec_text_items(arr@.skip(i as int + 1)) =~= pre + (seq![
                        arr@[i as int]->Text_0,
                    ] + spec_text_items(tail.drop_first())));
                }
            },
            _ => {},
        }
        i += 1;
    }
    proof {
        assert(arr@.skip(arr@.len() as int) =~= Seq::<JsonValue>::empty());
        assert(out@ + spec_text_items(arr@.skip(arr@.len() as int)) =~= out@);
    }
    out
}

/// Whether a step is the FINAL one.
fn is_final_step(step: &JsonValue) -> (r: bool)
    ensures
        r == spec_is_final(*step),
{
    match step {
        JsonValue::Object(entries) => match get_value(entries, "step_type") {
            Some(v) => match v {
                JsonValue::Text(s) => str_eq(s.as_str(), "FINAL"),
                _ => false,
            },
            None => false,
        },
        _ => false,
    }
}

/// The first FINAL step of a step list, if any.
fn find_final_step<'a>(steps: &'a Vec<JsonValue>) -> (r: Option<&'a JsonValue>)
    ensures
        (r is Some) == (spec_find_final(steps@) is Some),
        r matches Some(s) ==> spec_find_final(steps@) == Some(*s),
{
    let mut i: usize = 0;
    while i < steps.len()
        invariant
            0 <= i <= steps.len(),
            forall|j: int| 0 <= j < i ==> !spec_is_final(steps@[j]),
        decreases steps.len() - i,
    {
        if is_final_step(&steps[i]) {
            proof {
                lemma_find_final_first(steps@, i as int);
            }
            return Some(&steps[i]);
        }
        i += 1;
    }
    proof {
        lemma_find_final_none(steps@);
    }
    None
}

/// Extracts answer and chunks from a FINAL step in the text field.
fn extract_from_final_step(content: &Vec<(String, JsonValue)>) -> (r: Option<
    (Option<String>, Vec<JsonValue>),
>)
    ensures
        (r is Some) == (spec_final_payload(content@) is Some),
        r matches Some(ac) ==> ({
            let payload = spec_final_payload(content@)->Some_0;
            opt_text_view(ac.0) == spec_answer_of(payload) && ac.1@ == spec_chunks_of(payload)
        }),
{
    let steps: &Vec<JsonValue> = match get_value(content, "text") {
        Some(v) => match v {
            JsonValue::Array(vs) => vs,
            _ => {
                return None;
            },
        },
        None => {
            return None;
        },
    };
    let final_step: &JsonValue = match find_final_step(steps) {
        Some(s) => s,
        None => {
            return None;
        },
    };
    let step_entries: &Vec<(String, JsonValue)> = match final_step {
        JsonValue::Object(es) => es,
        _ => {
            return None;
        },
    };
    let content_v: &JsonValue = match get_value(step_entries, "content") {
        Some(c) => c,
        None => {
            return None;
        },
    };
    let content_entries: &Vec<(String, JsonValue)> = match content_v {
        JsonValue::Object(ce) => ce,
        _ => {
            return None;
        },
    };
    let answer_str: &String = match get_value(content_entries, "answer") {
        Some(v) => match v {
            JsonValue::Text(s) => s,
            _ => {
                return None;
            },
        },
        None => {
            return None;
        },
    };
    let payload: JsonValue = match parse_json(answer_str.as_str()) {
        Some(p) => p,
        None => {
            return None;
        },
    };
    let ghost gpayload = payload;
    proof {
        assert(spec_final_payload(content@) == Some(gpayload));
    }
    match payload {
        JsonValue::Object(mut entries2) => {
            let a = take_entry(&mut entries2, "answer");
            let answer: Option<String> = match a {
                Some(v) => match v {
                    JsonValue::Text(s) => Some(s),
                    _ => None,
                },
                None => None,
            };
            proof {
                lemma_keys_distinct();
            }
            let c = take_entry(&mut entries2, "chunks");
            let chunks: Vec<JsonValue> = match c {
                Some(v) => match v {
                    JsonValue::Array(vs) => vs,
                    _ => Vec::new(),
                },
                None => Vec::new(),
            };
            Some((answer, chunks))
        },
        _ => Some((None, Vec::new())),
    }
}

/// Extracts answer and chunks from the event content.
///
/// First tries to find them in a FINAL step within the `text` field,
/// then falls back to the top-level `answer` and `chunks` fields; the
/// content object itself is only read.
fn extract_answer_and_chunks(content: &Vec<(String, JsonValue)>) -> (r: (
    Option<String>,
    Vec<JsonValue>,
))
    ensures
        opt_text_view(r.0) == spec_event_answer(content@),
        json_seq_equiv(r.1@, spec_event_chunks(content@)),
{
    let structured = extract_from_final_step(content);
    if let Some(ac) = structured {
        proof {
            lemma_json_seq_equiv_reflexive(ac.1@);
        }
        return ac;
    }
    let answer = extract_string(content, "answer");
    let chunks: Vec<JsonValue> = match get_value(content, "chunks") {
        Some(v) => match v {
            JsonValue::Array(vs) => clone_json_array(vs),
            _ => Vec::new(),
        },
        None => Vec::new(),
    };
    (answer, chunks)
}

/// Parses an SSE event JSON string into a `SearchEvent`.
///
/// The only hard failure is a payload that is not a JSON object; every
/// missing or mistyped field inside one degrades to an empty or absent
/// value, exactly as the field specs state.
pub fn parse_sse_event(json_str: &str) -> (r: Result<SearchEvent, ParseError>)
    ensures
        (r is Ok) == (spec_event_object(json_str@) is Some),
        r matches Err(e) ==> e == ParseError::MalformedJson,
        r matches Ok(ev) ==> ({
            let entries = spec_with_text_parsed(spec_event_object(json_str@)->Some_0);
            &&& opt_text_view(ev.answer) == spec_event_answer(entries)
            &&& json_seq_equiv(ev.chunks@, spec_event_chunks(entries))
            &&& opt_text_view(ev.backend_uuid) == spec_obj_text(entries, "backend_uuid"@)
            &&& ev.attachments@ == spec_string_items(entries, "attachments"@)
            &&& ev.raw@ == spec_raw(entries)
        }),
{
    let parsed = parse_json(json_str);
    let mut content: Vec<(String, JsonValue)> = match parsed {
        Some(v) => match v {
            JsonValue::Object(m) => m,
            _ => {
                return Err(ParseError::MalformedJson);
            },
        },
        None => {
            return Err(ParseError::MalformedJson);
        },
    };
    parse_nested_text_field(&mut content);
    let (answer, chunks) = extract_answer_and_chunks(&content);
    let backend_uuid = extract_string(&content, "backend_uuid");
    let attachments = extract_string_array(&content, "attachments");
    let raw = build_raw_map(content);
    Ok(SearchEvent { answer, chunks, backend_uuid, attachments, raw })
}

/// Builds the raw map: the object's entries with the four extracted keys
/// removed, order kept.
fn build_raw_map(content: Vec<(String, JsonValue)>) -> (raw: Vec<(String, JsonValue)>)
    ensures
        raw@ == spec_raw(content@),
{
    let ghost orig = content@;
    let mut rest = content;
    let mut raw: Vec<(String, JsonValue)> = Vec::new();
    while rest.len() > 0
        invariant
            raw@ + spec_raw(rest@) == spec_raw(orig),
        decreases rest.len(),
    {
        let ghost r0 = rest@;
        let pair = rest.remove(0);
        proof {
            assert(r0.remove(0) =~= r0.drop_first());
        }
        if !is_extracted_key_exec(&pair.0) {
            let ghost raw0 = raw@;
            raw.push(pair);
            proof {
                assert(raw@ + spec_raw(rest@) =~= raw0 + (seq![pair] + spec_raw(rest@)));
            }
        }
    }
    proof {
        assert(raw@ + spec_raw(rest@) =~= raw@);
    }
    raw
}

} // verus!
