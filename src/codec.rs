//! The file format of a record: a JSON object of six string fields.
//!
//! `serde_json` turns a list of named string fields into JSON text and
//! back; which fields a record has, and how a record is rebuilt from the
//! fields read, is decided and proved here.

use vstd::prelude::*;
use serde_json::Value;
use crate::storage::{views, ErrorKind, KnowledgeRecord, RecordView};
use crate::text::{chars_of, string_of};

verus! {

#[verifier::external_type_specification]
#[verifier::external_body]
pub struct ExJsonError(serde_json::Error);

/// The views of a list of named string fields.
pub open spec fn pairs_view(f: Seq<(String, String)>) -> Seq<(Seq<char>, Seq<char>)> {
    f.map_values(|p: (String, String)| (p.0@, p.1@))
}

/// The views of a list of named fields, `None` where a value is not a string.
pub open spec fn read_view(f: Seq<(String, Option<String>)>) -> Seq<(Seq<char>, Option<Seq<char>>)> {
    f.map_values(
        |p: (String, Option<String>)|
            (
                p.0@,
                match p.1 {
                    Some(s) => Some(s@),
                    None => None,
                },
            ),
    )
}

/// The pretty-printed JSON object text that `serde_json` makes of named string fields.
pub uninterp spec fn json_text_of(f: Seq<(Seq<char>, Seq<char>)>) -> Seq<char>;

/// The fields that `serde_json` reads from a text holding a JSON object,
/// or `None` where the text holds no JSON object.
pub uninterp spec fn json_fields_of(t: Seq<char>) -> Option<Seq<(Seq<char>, Option<Seq<char>>)>>;

/// Relies on `serde_json::to_string_pretty` of a `serde_json::Map` holding
/// each field as a `Value::String`: a map with string keys and string
/// values, written into memory, whose serialisation cannot fail.
#[verifier::external_body]
fn json_object_text(fields: &Vec<(String, String)>) -> (r: Result<String, serde_json::Error>)
    ensures
        r is Ok,
        r matches Ok(t) ==> t@ == json_text_of(pairs_view(fields@)),
{
    let mut m = serde_json::Map::new();
    for (k, v) in fields {
        m.insert(k.clone(), Value::String(v.clone()));
    }
    serde_json::to_string_pretty(&m)
}

/// Relies on `serde_json::from_str` into a `serde_json::Map`: the object's
/// fields, each string value kept and any other value given as `None`.
#[verifier::external_body]
fn json_object_fields(text: &str) -> (r: Option<Vec<(String, Option<String>)>>)
    ensures
        r is None <==> json_fields_of(text@) is None,
        r matches Some(f) ==> json_fields_of(text@) == Some(read_view(f@)),
{
    let m: serde_json::Map<String, Value> = serde_json::from_str(text).ok()?;
    let mut r = Vec::new();
    for (k, v) in m {
        r.push((k, match v { Value::String(s) => Some(s), _ => None }));
    }
    Some(r)
}

/// The fields of a record, by name, in file order.
pub open spec fn record_pairs(r: RecordView) -> Seq<(Seq<char>, Seq<char>)> {
    seq![
        ("id"@, r.id),
        ("title"@, r.title),
        ("parent_title"@, r.parent),
        ("summary"@, r.summary),
        ("content"@, r.content),
        ("source_path"@, r.source),
    ]
}

/// The value of the first field named `key` in `f`.
pub open spec fn lookup(f: Seq<(Seq<char>, Option<Seq<char>>)>, key: Seq<char>) -> Option<
    Option<Seq<char>>,
>
    decreases f.len(),
{
    if f.len() == 0 {
        None
    } else if f[0].0 == key {
        Some(f[0].1)
    } else {
        lookup(f.drop_first(), key)
    }
}

/// The string value of the field named `key` in `f`, if it has one.
pub open spec fn string_field(f: Seq<(Seq<char>, Option<Seq<char>>)>, key: Seq<char>) -> Option<
    Seq<char>,
> {
    match lookup(f, key) {
        Some(Some(v)) => Some(v),
        _ => None,
    }
}

/// The record that fields `f` describe, when each of the six fields is
/// there with a string value; other fields are ignored.
pub open spec fn record_of_fields(f: Seq<(Seq<char>, Option<Seq<char>>)>) -> Option<RecordView> {
    match (
        string_field(f, "id"@),
        string_field(f, "title"@),
        string_field(f, "parent_title"@),
        string_field(f, "summary"@),
        string_field(f, "content"@),
        string_field(f, "source_path"@),
    ) {
        (Some(id), Some(title), Some(parent), Some(summary), Some(content), Some(source)) => Some(
            RecordView { id, title, parent, summary, content, source },
        ),
        _ => None,
    }
}

/// The fields of `r`, by name, in file order.
pub fn record_fields(r: &KnowledgeRecord) -> (f: Vec<(String, String)>)
    ensures
        pairs_view(f@) == record_pairs(r@),
{
    let f = vec![
        (string_of(&chars_of("id")), r.id.clone()),
        (string_of(&chars_of("title")), r.title.clone()),
        (string_of(&chars_of("parent_title")), r.parent_doc_title.clone()),
        (string_of(&chars_of("summary")), r.summary.clone()),
        (string_of(&chars_of("content")), r.content.clone()),
        (string_of(&chars_of("source_path")), r.source_path.clone()),
    ];
    assert(pairs_view(f@) =~= record_pairs(r@));
    f
}

/// The string value of the first field named `key` in `f`, if it has one.
fn find_field(f: &Vec<(String, Option<String>)>, key: &str) -> (r: Option<String>)
    ensures
        r is None <==> string_field(read_view(f@), key@) is None,
        r matches Some(v) ==> string_field(read_view(f@), key@) == Some(v@),
{
    let k = string_of(&chars_of(key));
    let mut i: usize = 0;
    assert(read_view(f@).skip(0) =~= read_view(f@));
    while i < f.len()
        invariant
            i <= f@.len(),
            k@ == key@,
            lookup(read_view(f@), key@) == lookup(read_view(f@).skip(i as int), key@),
        decreases f@.len() - i,
    {
        assert(read_view(f@).skip(i as int).drop_first() =~= read_view(f@).skip(i + 1));
        if f[i].0 == k {
            return match &f[i].1 {
                Some(v) => Some(v.clone()),
                None => None,
            };
        }
        i = i + 1;
    }
    None
}

/// The record that fields `f` describe, when each of the six fields is
/// there with a string value.
pub fn record_from_fields(f: &Vec<(String, Option<String>)>) -> (r: Option<KnowledgeRecord>)
    ensures
        r is None <==> record_of_fields(read_view(f@)) is None,
        r matches Some(x) ==> record_of_fields(read_view(f@)) == Some(x@),
{
    let id = find_field(f, "id");
    let title = find_field(f, "title");
    let parent = find_field(f, "parent_title");
    let summary = find_field(f, "summary");
    let content = find_field(f, "content");
    let source = find_field(f, "source_path");
    match (id, title, parent, summary, content, source) {
        (Some(id), Some(title), Some(parent), Some(summary), Some(content), Some(source)) => Some(
            KnowledgeRecord {
                id,
                title,
                parent_doc_title: parent,
                summary,
                content,
                source_path: source,
            },
        ),
        _ => None,
    }
}

/// The text of the file that holds `r`; encoding a record always succeeds,
/// and a failure of the encoder would be reported as `Serialization`.
pub fn encode_record(r: &KnowledgeRecord) -> (t: Result<String, ErrorKind>)
    ensures
        t is Ok,
        t matches Ok(s) ==> s@ == json_text_of(record_pairs(r@)),
{
    match json_object_text(&record_fields(r)) {
        Ok(s) => Ok(s),
        Err(_) => Err(ErrorKind::Serialization),
    }
}

/// The record that the file text `t` holds: none where it is not a JSON
/// object, or one without the six string fields.
pub open spec fn decoded(t: Seq<char>) -> Option<RecordView> {
    match json_fields_of(t) {
        None => None,
        Some(f) => record_of_fields(f),
    }
}

/// The records held by the file texts `ts`, in order; a file whose text
/// could not be read (`None`) or holds no record is left out.
pub open spec fn decoded_all(ts: Seq<Option<String>>) -> Seq<RecordView>
    decreases ts.len(),
{
    if ts.len() == 0 {
        Seq::empty()
    } else {
        let p = decoded_all(ts.drop_last());
        match ts.last() {
            Some(t) => match decoded(t@) {
                Some(r) => p.push(r),
                None => p,
            },
            None => p,
        }
    }
}

/// The record that the file text `text` holds, or `None` where it holds
/// none: not a JSON object, or one without the six string fields.
pub fn decode_record(text: &str) -> (r: Option<KnowledgeRecord>)
    ensures
        r is None <==> decoded(text@) is None,
        r matches Some(x) ==> decoded(text@) == Some(x@),
{
    match json_object_fields(text) {
        None => None,
        Some(f) => record_from_fields(&f),
    }
}

/// The records held by the texts of the store's record files, in listing
/// order: a file that is not text (`None`) or does not hold a record is
/// skipped, so one corrupt file leaves the rest readable.
pub fn decode_records(texts: &Vec<Option<String>>) -> (r: Vec<KnowledgeRecord>)
    ensures
        views(r@) == decoded_all(texts@),
{
    let mut r: Vec<KnowledgeRecord> = Vec::new();
    let mut k: usize = 0;
    while k < texts.len()
        invariant
            k <= texts@.len(),
            views(r@) == decoded_all(texts@.take(k as int)),
        decreases texts@.len() - k,
    {
        assert(texts@.take(k + 1).drop_last() =~= texts@.take(k as int));
        if let Some(t) = &texts[k] {
            if let Some(x) = decode_record(t.as_str()) {
                r.push(x);
                assert(views(r@) =~= decoded_all(texts@.take(k as int)).push(x@));
            }
        }
        k = k + 1;
    }
    assert(texts@.take(texts@.len() as int) =~= texts@);
    r
}

/// Fields in which each of a record's six fields is found with its value
/// (in any order, among any others) give back exactly that record.
pub proof fn lemma_fields_round_trip(r: RecordView, f: Seq<(Seq<char>, Option<Seq<char>>)>)
    requires
        lookup(f, "id"@) == Some(Some(r.id)),
        lookup(f, "title"@) == Some(Some(r.title)),
        lookup(f, "parent_title"@) == Some(Some(r.parent)),
        lookup(f, "summary"@) == Some(Some(r.summary)),
        lookup(f, "content"@) == Some(Some(r.content)),
        lookup(f, "source_path"@) == Some(Some(r.source)),
    ensures
        record_of_fields(f) == Some(r),
{
}

proof fn lemma_lookup_at(f: Seq<(Seq<char>, Option<Seq<char>>)>, key: Seq<char>, i: int)
    requires
        0 <= i < f.len(),
        f[i].0 == key,
        forall|j: int| 0 <= j < i ==> f[j].0 != key,
    ensures
        lookup(f, key) == Some(f[i].1),
    decreases i,
{
    if i > 0 {
        lemma_lookup_at(f.drop_first(), key, i - 1);
    }
}

/// Written fields as they read back: each value a string.
pub open spec fn as_read(f: Seq<(Seq<char>, Seq<char>)>) -> Seq<(Seq<char>, Option<Seq<char>>)> {
    f.map_values(|p: (Seq<char>, Seq<char>)| (p.0, Some(p.1)))
}

/// Round trip of the record format: the fields a record is written with,
/// read back with their string values, give back exactly that record.
pub proof fn lemma_record_round_trip(r: RecordView)
    ensures
        record_of_fields(as_read(record_pairs(r))) == Some(r),
{
    reveal_strlit("id");
    reveal_strlit("title");
    reveal_strlit("parent_title");
    reveal_strlit("summary");
    reveal_strlit("content");
    reveal_strlit("source_path");
    let f = as_read(record_pairs(r));
    assert("id"@ != "title"@ && "id"@ != "parent_title"@ && "id"@ != "summary"@ && "id"@ != "content"@ && "id"@ != "source_path"@) by {
        assert("id"@.len() != "title"@.len());
        assert("id"@.len() != "parent_title"@.len());
        assert("id"@.len() != "summary"@.len());
        assert("id"@.len() != "content"@.len());
        assert("id"@.len() != "source_path"@.len());
    }
    assert("title"@ != "parent_title"@ && "title"@ != "summary"@ && "title"@ != "content"@ && "title"@ != "source_path"@) by {
        assert("title"@.len() != "parent_title"@.len());
        assert("title"@[0] != "summary"@[0]);
        assert("title"@.len() != "content"@.len());
        assert("title"@.len() != "source_path"@.len());
    }
    assert("parent_title"@ != "summary"@ && "parent_title"@ != "content"@ && "parent_title"@ != "source_path"@) by {
        assert("parent_title"@.len() != "summary"@.len());
        assert("parent_title"@.len() != "content"@.len());
        assert("parent_title"@.len() != "source_path"@.len());
    }
    assert("summary"@ != "content"@ && "summary"@ != "source_path"@) by {
        assert("summary"@[0] != "content"@[0]);
        assert("summary"@.len() != "source_path"@.len());
    }
    assert("content"@ != "source_path"@) by {
        assert("content"@.len() != "source_path"@.len());
    }
    lemma_lookup_at(f, "id"@, 0);
    lemma_lookup_at(f, "title"@, 1);
    lemma_lookup_at(f, "parent_title"@, 2);
    lemma_lookup_at(f, "summary"@, 3);
    lemma_lookup_at(f, "content"@, 4);
    lemma_lookup_at(f, "source_path"@, 5);
    lemma_fields_round_trip(r, f);
}

} // verus!
