//! The response's JSON payload, parsed in two stages: serde_json turns the
//! untrusted text into a value tree, which one trusted wrapper hands over as
//! a tree of plain values; the library then projects that tree field by
//! field into the status record, applying the required/optional policy of
//! `status_from_fields` explicitly — all of the projection verified.

use crate::status::status_from_fields;
use crate::status::Field;
use crate::status::RawStatus;
use crate::status::Sample;
use crate::status::ServerStatus;
use crate::status::StatusError;
use vstd::prelude::*;

verus! {

/// A JSON document as a tree of plain values. Numbers that fit an `i64`
/// keep their value; any other number only records that it is one, since
/// the status record never reads such a field.
pub enum JsonValue {
    Null,
    Bool(bool),
    Int(i64),
    OtherNum,
    Text(String),
    List(Vec<JsonValue>),
    Object(Vec<(String, JsonValue)>),
}

// Whether `serde_json::from_str` accepts the text: a function of the text
// alone, named so that contracts can owe success on it.
pub uninterp spec fn json_wf(text: Seq<char>) -> bool;

// The tree that parsing the text yields, when it is accepted: likewise a
// function of the text alone.
pub uninterp spec fn json_of(text: Seq<char>) -> JsonValue;

#[verifier::external_type_specification]
#[verifier::external_body]
pub struct ExValue(serde_json::Value);

/// Relies on serde_json::Value's shape: one arm per variant, moving each
/// value over, with Number::as_i64 reading the integers that fit an `i64`.
#[verifier::external_body]
fn convert_value(v: &serde_json::Value) -> (r: JsonValue) {
    match v {
        serde_json::Value::Null => JsonValue::Null,
        serde_json::Value::Bool(b) => JsonValue::Bool(*b),
        serde_json::Value::Number(n) => match n.as_i64() {
            Some(i) => JsonValue::Int(i),
            None => JsonValue::OtherNum,
        },
        serde_json::Value::String(s) => JsonValue::Text(s.clone()),
        serde_json::Value::Array(a) => JsonValue::List(a.iter().map(convert_value).collect()),
        serde_json::Value::Object(m) => JsonValue::Object(
            m.iter().map(|(k, w)| (k.clone(), convert_value(w))).collect(),
        ),
    }
}

/// Relies on serde_json::from_str: it succeeds exactly on well-formed JSON
/// text, and what it returns is a function of the text alone — `json_wf`
/// and `json_of` name that success and that tree.
#[verifier::external_body]
fn json_parse(text: &str) -> (r: Result<JsonValue, StatusError>)
    ensures
        r is Ok <==> json_wf(text@),
        r matches Ok(doc) ==> doc == json_of(text@),
        r matches Err(e) ==> e == StatusError::Deserialization,
{
    match serde_json::from_str::<serde_json::Value>(text) {
        Ok(v) => Ok(convert_value(&v)),
        Err(_) => Err(StatusError::Deserialization),
    }
}

/// The first entry under `key`, scanning in order.
pub open spec fn obj_lookup(entries: Seq<(String, JsonValue)>, key: Seq<char>) -> Option<
    JsonValue,
>
    decreases entries.len(),
{
    if entries.len() == 0 {
        None
    } else if entries[0].0@ == key {
        Some(entries[0].1)
    } else {
        obj_lookup(entries.drop_first(), key)
    }
}

/// The member of a JSON object under `key`; nothing when the value is no
/// object or lacks the key.
pub open spec fn spec_get(v: JsonValue, key: Seq<char>) -> Option<JsonValue> {
    match v {
        JsonValue::Object(entries) => obj_lookup(entries@, key),
        _ => None,
    }
}

/// A string member: absent, present under another type, or its text.
pub open spec fn spec_string_field(v: JsonValue, key: Seq<char>) -> Field<String> {
    match spec_get(v, key) {
        None => Field::Absent,
        Some(m) => match m {
            JsonValue::Text(s) => Field::Present(s),
            _ => Field::Mistyped,
        },
    }
}

/// An integer member: absent, present under another type (any number that
/// does not fit an `i64` among them), or its value.
pub open spec fn spec_int_field(v: JsonValue, key: Seq<char>) -> Field<i64> {
    match spec_get(v, key) {
        None => Field::Absent,
        Some(m) => match m {
            JsonValue::Int(n) => Field::Present(n),
            _ => Field::Mistyped,
        },
    }
}

/// One sample entry: its id and name, when both are strings of the entry.
pub open spec fn spec_sample_entry(v: JsonValue) -> Option<Sample> {
    match spec_get(v, "id"@) {
        Some(JsonValue::Text(id)) => match spec_get(v, "name"@) {
            Some(JsonValue::Text(name)) => Some(Sample { id, name }),
            _ => None,
        },
        _ => None,
    }
}

/// The sample member of the players object: absent, not a list of records
/// with string id and name, or the entries in their order.
pub open spec fn spec_sample_field(players: JsonValue) -> Field<Seq<Sample>> {
    match spec_get(players, "sample"@) {
        None => Field::Absent,
        Some(m) => match m {
            JsonValue::List(items) => {
                if forall|i: int|
                    0 <= i < items@.len() ==> (#[trigger] spec_sample_entry(items@[i])) is Some {
                    Field::Present(items@.map_values(|e: JsonValue| spec_sample_entry(e)->0))
                } else {
                    Field::Mistyped
                }
            },
            _ => Field::Mistyped,
        },
    }
}

/// How a field of sample records corresponds to its specification: the same
/// standing, and on presence the same entries.
pub open spec fn sample_matches(r: Field<Vec<Sample>>, s: Field<Seq<Sample>>) -> bool {
    match (r, s) {
        (Field::Absent, Field::Absent) => true,
        (Field::Mistyped, Field::Mistyped) => true,
        (Field::Present(v), Field::Present(q)) => v@ == q,
        _ => false,
    }
}

/// The text under `description.text`.
pub open spec fn spec_description_text(doc: JsonValue) -> Field<String> {
    match spec_get(doc, "description"@) {
        None => Field::Absent,
        Some(d) => spec_string_field(d, "text"@),
    }
}

/// An integer member of the players object.
pub open spec fn spec_players_int(doc: JsonValue, key: Seq<char>) -> Field<i64> {
    match spec_get(doc, "players"@) {
        None => Field::Absent,
        Some(p) => spec_int_field(p, key),
    }
}

/// The sample list of the players object.
pub open spec fn spec_players_sample(doc: JsonValue) -> Field<Seq<Sample>> {
    match spec_get(doc, "players"@) {
        None => Field::Absent,
        Some(p) => spec_sample_field(p),
    }
}

/// The text under `version.name`.
pub open spec fn spec_version_name(doc: JsonValue) -> Field<String> {
    match spec_get(doc, "version"@) {
        None => Field::Absent,
        Some(v) => spec_string_field(v, "name"@),
    }
}

/// The integer under `version.protocol`.
pub open spec fn spec_version_protocol(doc: JsonValue) -> Field<i64> {
    match spec_get(doc, "version"@) {
        None => Field::Absent,
        Some(v) => spec_int_field(v, "protocol"@),
    }
}

/// Whether the tree makes a status record: every required field present and
/// typed, and the optional ones at worst absent, never mistyped.
pub open spec fn status_accepted(doc: JsonValue) -> bool {
    &&& spec_description_text(doc) is Present
    &&& spec_players_int(doc, "max"@) is Present
    &&& spec_players_int(doc, "online"@) is Present
    &&& spec_version_name(doc) is Present
    &&& spec_version_protocol(doc) is Present
    &&& !(spec_string_field(doc, "favicon"@) is Mistyped)
    &&& !(spec_players_sample(doc) is Mistyped)
}

/// The record a tree yields: required fields taken as they stand, the
/// favicon falling back to the empty string and the sample list to empty.
pub open spec fn status_matches(doc: JsonValue, st: ServerStatus) -> bool {
    &&& st.description.text == spec_description_text(doc)->Present_0
    &&& st.players.max == spec_players_int(doc, "max"@)->Present_0
    &&& st.players.online == spec_players_int(doc, "online"@)->Present_0
    &&& st.version.name == spec_version_name(doc)->Present_0
    &&& st.version.protocol == spec_version_protocol(doc)->Present_0
    &&& spec_string_field(doc, "favicon"@) is Present ==> st.favicon == spec_string_field(
        doc,
        "favicon"@,
    )->Present_0
    &&& !(spec_string_field(doc, "favicon"@) is Present) ==> st.favicon@ == Seq::<char>::empty()
    &&& spec_players_sample(doc) is Present ==> st.players.sample@ == spec_players_sample(
        doc,
    )->Present_0
    &&& !(spec_players_sample(doc) is Present) ==> st.players.sample@ == Seq::<Sample>::empty()
}

proof fn lemma_obj_lookup_skip(entries: Seq<(String, JsonValue)>, key: Seq<char>, i: int)
    requires
        0 <= i <= entries.len(),
        forall|j: int| 0 <= j < i ==> (#[trigger] entries[j]).0@ != key,
    ensures
        obj_lookup(entries, key) == obj_lookup(entries.skip(i), key),
    decreases i,
{
    if i > 0 {
        lemma_obj_lookup_skip(entries.drop_first(), key, i - 1);
        assert(entries.drop_first().skip(i - 1) =~= entries.skip(i));
    } else {
        assert(entries.skip(0) =~= entries);
    }
}

/// Looks a key up in a JSON object, scanning the entries in order.
fn object_get<'a>(doc: &'a JsonValue, key: &str) -> (r: Option<&'a JsonValue>)
    ensures
        match r {
            Some(m) => spec_get(*doc, key@) == Some(*m),
            None => spec_get(*doc, key@) is None,
        },
{
    match doc {
        JsonValue::Object(entries) => {
            let key_string: String = key.to_owned();
            let mut i: usize = 0;
            while i < entries.len()
                invariant
                    spec_get(*doc, key@) == obj_lookup(entries@, key@),
                    key_string@ == key@,
                    i <= entries@.len(),
                    forall|j: int| 0 <= j < i ==> (#[trigger] entries@[j]).0@ != key@,
                decreases entries@.len() - i,
            {
                let entry: &(String, JsonValue) = &entries[i];
                if entry.0 == key_string {
                    proof {
                        lemma_obj_lookup_skip(entries@, key@, i as int);
                        assert(entries@.skip(i as int)[0] == entries@[i as int]);
                        assert(entries@[i as int].0@ == key@);
                        assert(obj_lookup(entries@.skip(i as int), key@) == Some(
                            entries@[i as int].1,
                        ));
                        assert(spec_get(*doc, key@) == Some(entries@[i as int].1));
                    }
                    return Some(&entry.1);
                }
                i = i + 1;
            }
            proof {
                lemma_obj_lookup_skip(entries@, key@, entries@.len() as int);
                assert(entries@.skip(entries@.len() as int) =~= Seq::<(String, JsonValue)>::empty());
            }
            None
        },
        _ => None,
    }
}

/// Classifies a string member of a JSON object: absent, present under
/// another type, or its text.
fn string_field(obj: &JsonValue, key: &str) -> (r: Field<String>)
    ensures
        r == spec_string_field(*obj, key@),
{
    match object_get(obj, key) {
        None => Field::Absent,
        Some(member) => match member {
            JsonValue::Text(s) => Field::Present(s.clone()),
            _ => Field::Mistyped,
        },
    }
}

/// Classifies an integer member of a JSON object: absent, present under
/// another type, or its value.
fn int_field(obj: &JsonValue, key: &str) -> (r: Field<i64>)
    ensures
        r == spec_int_field(*obj, key@),
{
    match object_get(obj, key) {
        None => Field::Absent,
        Some(member) => match member {
            JsonValue::Int(n) => Field::Present(*n),
            _ => Field::Mistyped,
        },
    }
}

/// Classifies the player sample list: absent, not a list of records with
/// string id and name, or the entries in their order.
fn sample_field(players: &JsonValue) -> (r: Field<Vec<Sample>>)
    ensures
        sample_matches(r, spec_sample_field(*players)),
{
    match object_get(players, "sample") {
        None => Field::Absent,
        Some(member) => match member {
            JsonValue::List(items) => {
                proof {
                    assert(spec_get(*players, "sample"@) == Some(JsonValue::List(*items)));
                }
                let mut out: Vec<Sample> = Vec::new();
                let mut i: usize = 0;
                while i < items.len()
                    invariant
                        spec_get(*players, "sample"@) == Some(JsonValue::List(*items)),
                        i <= items@.len(),
                        out@.len() == i,
                        forall|j: int|
                            0 <= j < i ==> (#[trigger] spec_sample_entry(items@[j])) is Some,
                        forall|j: int| 0 <= j < i ==> out@[j] == spec_sample_entry(items@[j])->0,
                    decreases items@.len() - i,
                {
                    let entry: &JsonValue = &items[i];
                    let id = match string_field(entry, "id") {
                        Field::Present(s) => s,
                        _ => {
                            proof {
                                assert(spec_sample_entry(items@[i as int]) is None);
                            }
                            return Field::Mistyped;
                        },
                    };
                    let name = match string_field(entry, "name") {
                        Field::Present(s) => s,
                        _ => {
                            proof {
                                assert(spec_sample_entry(items@[i as int]) is None);
                            }
                            return Field::Mistyped;
                        },
                    };
                    out.push(Sample { id, name });
                    i = i + 1;
                }
                proof {
                    assert(out@ =~= items@.map_values(|e: JsonValue| spec_sample_entry(e)->0));
                }
                Field::Present(out)
            },
            _ => Field::Mistyped,
        },
    }
}

/// Reads every field of the status record out of the tree, without yet
/// deciding which are required.
fn status_fields(doc: &JsonValue) -> (r: RawStatus)
    ensures
        r.description_text == spec_description_text(*doc),
        r.favicon == spec_string_field(*doc, "favicon"@),
        r.players_max == spec_players_int(*doc, "max"@),
        r.players_online == spec_players_int(*doc, "online"@),
        sample_matches(r.sample, spec_players_sample(*doc)),
        r.version_name == spec_version_name(*doc),
        r.version_protocol == spec_version_protocol(*doc),
{
    let description_text = match object_get(doc, "description") {
        None => Field::Absent,
        Some(d) => string_field(d, "text"),
    };
    let favicon = string_field(doc, "favicon");
    let (players_max, players_online, sample) = match object_get(doc, "players") {
        None => (Field::Absent, Field::Absent, Field::Absent),
        Some(p) => (int_field(p, "max"), int_field(p, "online"), sample_field(p)),
    };
    let (version_name, version_protocol) = match object_get(doc, "version") {
        None => (Field::Absent, Field::Absent),
        Some(ver) => (string_field(ver, "name"), int_field(ver, "protocol")),
    };
    RawStatus {
        description_text,
        favicon,
        players_max,
        players_online,
        sample,
        version_name,
        version_protocol,
    }
}

/// Parses JSON text into the status record: the parse succeeds exactly on
/// well-formed text whose tree carries the required fields, the record's
/// fields are the tree's, and every failure is a deserialization error.
pub fn parse_json(json: &str) -> (r: Result<ServerStatus, StatusError>)
    ensures
        r is Ok <==> json_wf(json@) && status_accepted(json_of(json@)),
        r matches Ok(st) ==> status_matches(json_of(json@), st),
        r matches Err(e) ==> e == StatusError::Deserialization,
{
    let doc = match json_parse(json) {
        Ok(d) => d,
        Err(e) => {
            return Err(e);
        },
    };
    let raw = status_fields(&doc);
    proof {
        assert(crate::status::fields_accepted(raw) <==> status_accepted(doc));
    }
    status_from_fields(raw)
}

} // verus!
