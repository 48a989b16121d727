//! Decoding the remote JSON document into [`DataSchema`], and encoding a
//! document back into JSON text.  A document that does not have the required
//! shape is rejected wholesale.

use vstd::prelude::*;
use crate::content::{DataSchema, DataSchemaV, Entry, EntryV, entries_view, opt_str_view};
use crate::json::{
    Json, JsonV, arr_view, obj_view, spec_encode, spec_parse_json, encode_json, parse_json_text,
    str_eq,
};

verus! {

/// Why a document was rejected.
#[derive(Clone, Copy, Debug, PartialEq, Eq, Structural)]
pub enum SchemaError {
    /// A required field is missing or a field has the wrong type, or the
    /// text is not JSON at all.
    Malformed,
}

// ---------------------------------------------------------------------------
// Decoding, described over JSON values.
// ---------------------------------------------------------------------------
/// The value of the first member named `k`, if any.
pub open spec fn spec_field(m: Seq<(Seq<char>, JsonV)>, k: Seq<char>) -> Option<JsonV>
    decreases m.len(),
{
    if m.len() == 0 {
        None
    } else if m[0].0 == k {
        Some(m[0].1)
    } else {
        spec_field(m.subrange(1, m.len() as int), k)
    }
}

/// A required string field: any other shape is a failure.
pub open spec fn spec_req_str(m: Seq<(Seq<char>, JsonV)>, k: Seq<char>) -> Option<Seq<char>> {
    match spec_field(m, k) {
        Some(JsonV::Str(s)) => Some(s),
        _ => None,
    }
}

/// An optional string field: absent and `null` both mean "not given";
/// `None` here means the field is there with the wrong type.
pub open spec fn spec_opt_str(m: Seq<(Seq<char>, JsonV)>, k: Seq<char>) -> Option<
    Option<Seq<char>>,
> {
    match spec_field(m, k) {
        None => Some(None),
        Some(JsonV::Null) => Some(None),
        Some(JsonV::Str(s)) => Some(Some(s)),
        Some(_) => None,
    }
}

/// The record described by one JSON value, if it has the record shape.
pub open spec fn spec_entry_of_json(j: JsonV) -> Option<EntryV> {
    match j {
        JsonV::Obj(m) => {
            let name = spec_req_str(m, "name"@);
            let description = spec_req_str(m, "description"@);
            let link = spec_req_str(m, "link"@);
            let theme = spec_opt_str(m, "theme"@);
            let date = spec_opt_str(m, "date"@);
            let stack = spec_opt_str(m, "stack"@);
            let status = spec_opt_str(m, "status"@);
            if name is Some && description is Some && link is Some && theme is Some && date is Some
                && stack is Some && status is Some {
                Some(
                    EntryV {
                        name: name->Some_0,
                        description: description->Some_0,
                        link: link->Some_0,
                        theme: theme->Some_0,
                        date: date->Some_0,
                        stack: stack->Some_0,
                        status: status->Some_0,
                    },
                )
            } else {
                None
            }
        },
        _ => None,
    }
}

/// The records of one section, in order; any bad record rejects the section.
pub open spec fn spec_entries_of_json(a: Seq<JsonV>) -> Option<Seq<EntryV>>
    decreases a.len(),
{
    if a.len() == 0 {
        Some(Seq::empty())
    } else {
        match spec_entry_of_json(a[0]) {
            None => None,
            Some(e) => match spec_entries_of_json(a.subrange(1, a.len() as int)) {
                None => None,
                Some(r) => Some(seq![e] + r),
            },
        }
    }
}

/// The document described by a JSON value: an object whose `projects`,
/// `articles` and `contacts` members are arrays of records.
pub open spec fn spec_data_of_json(j: JsonV) -> Option<DataSchemaV> {
    match j {
        JsonV::Obj(m) => {
            match (spec_field(m, "projects"@), spec_field(m, "articles"@), spec_field(
                m,
                "contacts"@,
            )) {
                (Some(JsonV::Arr(p)), Some(JsonV::Arr(a)), Some(JsonV::Arr(c))) => {
                    match (spec_entries_of_json(p), spec_entries_of_json(a), spec_entries_of_json(
                        c,
                    )) {
                        (Some(ps), Some(ars), Some(cs)) => Some(
                            DataSchemaV { projects: ps, articles: ars, contacts: cs },
                        ),
                        _ => None,
                    }
                },
                _ => None,
            }
        },
        _ => None,
    }
}

/// What a whole text decodes to, if it is a well-shaped document.
pub open spec fn spec_parse_data(s: Seq<char>) -> Option<DataSchemaV> {
    match spec_parse_json(s) {
        None => None,
        Some(j) => spec_data_of_json(j),
    }
}

// ---------------------------------------------------------------------------
// The executable decoder.
// ---------------------------------------------------------------------------
/// The value of the first member named `k`, if any.
fn json_field<'a>(m: &'a Vec<(String, Json)>, k: &str) -> (r: Option<&'a Json>)
    ensures
        (match r {
            Some(v) => spec_field(obj_view(m@), k@) == Some(v@),
            None => spec_field(obj_view(m@), k@) is None,
        }),
{
    let mut i: usize = 0;
    proof {
        assert(obj_view(m@).subrange(0, m@.len() as int) =~= obj_view(m@));
    }
    while i < m.len()
        invariant
            i <= m@.len(),
            spec_field(obj_view(m@), k@) == spec_field(
                obj_view(m@).subrange(i as int, m@.len() as int),
                k@,
            ),
            forall|p: int| 0 <= p < i ==> obj_view(m@)[p].0 != k@,
        decreases m@.len() - i,
    {
        proof {
            assert(obj_view(m@).subrange(i as int, m@.len() as int)[0] == obj_view(m@)[i as int]);
        }
        if str_eq(m[i].0.as_str(), k) {
            return Some(&m[i].1);
        }
        i = i + 1;
        proof {
            assert(obj_view(m@).subrange(i - 1, m@.len() as int).subrange(
                1,
                obj_view(m@).subrange(i - 1, m@.len() as int).len() as int,
            ) =~= obj_view(m@).subrange(i as int, m@.len() as int));
        }
    }
    proof {
        assert(obj_view(m@).subrange(m@.len() as int, m@.len() as int).len() == 0);
    }
    None
}

/// A required string field of the record object.
fn req_str_field(m: &Vec<(String, Json)>, k: &str) -> (r: Option<String>)
    ensures
        (match r {
            Some(s) => spec_req_str(obj_view(m@), k@) == Some(s@),
            None => spec_req_str(obj_view(m@), k@) is None,
        }),
{
    match json_field(m, k) {
        Some(Json::Str(s)) => Some(s.clone()),
        _ => None,
    }
}

/// An optional string field of the record object.
fn opt_str_field(m: &Vec<(String, Json)>, k: &str) -> (r: Option<Option<String>>)
    ensures
        (match r {
            Some(o) => spec_opt_str(obj_view(m@), k@) == Some(opt_str_view(o)),
            None => spec_opt_str(obj_view(m@), k@) is None,
        }),
{
    match json_field(m, k) {
        None => Some(None),
        Some(Json::Null) => Some(None),
        Some(Json::Str(s)) => Some(Some(s.clone())),
        Some(_) => None,
    }
}

/// Decode one record from a JSON value.
pub fn entry_from_json(j: &Json) -> (r: Result<Entry, SchemaError>)
    ensures
        (match r {
            Ok(e) => spec_entry_of_json(j@) == Some(e@),
            Err(_) => spec_entry_of_json(j@) is None,
        }),
{
    match j {
        Json::Obj(m) => {
            let name = match req_str_field(m, "name") {
                Some(s) => s,
                None => {
                    return Err(SchemaError::Malformed);
                },
            };
            let description = match req_str_field(m, "description") {
                Some(s) => s,
                None => {
                    return Err(SchemaError::Malformed);
                },
            };
            let link = match req_str_field(m, "link") {
                Some(s) => s,
                None => {
                    return Err(SchemaError::Malformed);
                },
            };
            let theme = match opt_str_field(m, "theme") {
                Some(o) => o,
                None => {
                    return Err(SchemaError::Malformed);
                },
            };
            let date = match opt_str_field(m, "date") {
                Some(o) => o,
                None => {
                    return Err(SchemaError::Malformed);
                },
            };
            let stack = match opt_str_field(m, "stack") {
                Some(o) => o,
                None => {
                    return Err(SchemaError::Malformed);
                },
            };
            let status = match opt_str_field(m, "status") {
                Some(o) => o,
                None => {
                    return Err(SchemaError::Malformed);
                },
            };
            Ok(Entry { name, description, link, theme, date, stack, status })
        },
        _ => Err(SchemaError::Malformed),
    }
}

/// Decode one section from a JSON array.
fn entries_from_json(arr: &Vec<Json>) -> (r: Result<Vec<Entry>, SchemaError>)
    ensures
        (match r {
            Ok(v) => spec_entries_of_json(arr_view(arr@)) == Some(entries_view(v@)),
            Err(_) => spec_entries_of_json(arr_view(arr@)) is None,
        }),
{
    let ghost full = arr_view(arr@);
    let mut out: Vec<Entry> = Vec::new();
    let mut i: usize = 0;
    proof {
        assert(full.subrange(0, full.len() as int) =~= full);
        assert(entries_view(out@) =~= Seq::empty());
    }
    while i < arr.len()
        invariant
            i <= arr@.len(),
            out@.len() == i,
            full == arr_view(arr@),
            full.len() == arr@.len(),
            spec_entries_of_json(full) == (match spec_entries_of_json(
                full.subrange(i as int, full.len() as int),
            ) {
                None => None::<Seq<EntryV>>,
                Some(rest) => Some(entries_view(out@) + rest),
            }),
        decreases arr@.len() - i,
    {
        let ghost suffix = full.subrange(i as int, full.len() as int);
        proof {
            assert(suffix[0] == full[i as int]);
            assert(full[i as int] == arr@[i as int]@);
            assert(suffix.subrange(1, suffix.len() as int) =~= full.subrange(
                i + 1,
                full.len() as int,
            ));
        }
        match entry_from_json(&arr[i]) {
            Ok(e) => {
                let ghost old_out = out@;
                out.push(e);
                i = i + 1;
                proof {
                    if let Some(rest) = spec_entries_of_json(
                        full.subrange(i as int, full.len() as int),
                    ) {
                        assert(entries_view(old_out) + (seq![e@] + rest) =~= entries_view(out@)
                            + rest);
                    }
                }
            },
            Err(err) => {
                return Err(err);
            },
        }
    }
    proof {
        assert(full.subrange(arr@.len() as int, full.len() as int).len() == 0);
        assert(entries_view(out@) + Seq::<EntryV>::empty() =~= entries_view(out@));
    }
    Ok(out)
}

/// Decode a whole document from a JSON value.
pub fn data_from_json(j: &Json) -> (r: Result<DataSchema, SchemaError>)
    ensures
        (match r {
            Ok(d) => spec_data_of_json(j@) == Some(d@),
            Err(_) => spec_data_of_json(j@) is None,
        }),
{
    match j {
        Json::Obj(m) => {
            let projects = match json_field(m, "projects") {
                Some(Json::Arr(p)) => p,
                _ => {
                    return Err(SchemaError::Malformed);
                },
            };
            let articles = match json_field(m, "articles") {
                Some(Json::Arr(a)) => a,
                _ => {
                    return Err(SchemaError::Malformed);
                },
            };
            let contacts = match json_field(m, "contacts") {
                Some(Json::Arr(c)) => c,
                _ => {
                    return Err(SchemaError::Malformed);
                },
            };
            let ps = match entries_from_json(projects) {
                Ok(v) => v,
                Err(err) => {
                    return Err(err);
                },
            };
            let ars = match entries_from_json(articles) {
                Ok(v) => v,
                Err(err) => {
                    return Err(err);
                },
            };
            let cs = match entries_from_json(contacts) {
                Ok(v) => v,
                Err(err) => {
                    return Err(err);
                },
            };
            Ok(DataSchema { projects: ps, articles: ars, contacts: cs })
        },
        _ => Err(SchemaError::Malformed),
    }
}

/// Decode a whole document from its text.
pub fn parse_data(text: &str) -> (r: Result<DataSchema, SchemaError>)
    ensures
        (match r {
            Ok(d) => spec_parse_data(text@) == Some(d@),
            Err(_) => spec_parse_data(text@) is None,
        }),
{
    match parse_json_text(text) {
        None => Err(SchemaError::Malformed),
        Some(j) => data_from_json(&j),
    }
}

// ---------------------------------------------------------------------------
// Encoding, described over JSON values.
// ---------------------------------------------------------------------------
/// An optional string as a JSON value: `null` where it is not given.
pub open spec fn spec_opt_json(o: Option<Seq<char>>) -> JsonV {
    match o {
        None => JsonV::Null,
        Some(s) => JsonV::Str(s),
    }
}

/// The JSON object for one record.
pub open spec fn spec_entry_json(e: EntryV) -> JsonV {
    JsonV::Obj(
        seq![
            ("name"@, JsonV::Str(e.name)),
            ("description"@, JsonV::Str(e.description)),
            ("link"@, JsonV::Str(e.link)),
            ("theme"@, spec_opt_json(e.theme)),
            ("date"@, spec_opt_json(e.date)),
            ("stack"@, spec_opt_json(e.stack)),
            ("status"@, spec_opt_json(e.status)),
        ],
    )
}

/// The JSON array for one section.
pub open spec fn spec_entries_json(es: Seq<EntryV>) -> Seq<JsonV> {
    Seq::new(es.len(), |i: int| spec_entry_json(es[i]))
}

/// The JSON object for a whole document.
pub open spec fn spec_data_json(d: DataSchemaV) -> JsonV {
    JsonV::Obj(
        seq![
            ("projects"@, JsonV::Arr(spec_entries_json(d.projects))),
            ("articles"@, JsonV::Arr(spec_entries_json(d.articles))),
            ("contacts"@, JsonV::Arr(spec_entries_json(d.contacts))),
        ],
    )
}

// ---------------------------------------------------------------------------
// The executable encoder.
// ---------------------------------------------------------------------------
fn opt_json(o: &Option<String>) -> (j: Json)
    ensures
        j@ == spec_opt_json(opt_str_view(*o)),
{
    match o {
        None => Json::Null,
        Some(s) => Json::Str(s.clone()),
    }
}

/// The JSON object for one record.
pub fn entry_to_json(e: &Entry) -> (j: Json)
    ensures
        j@ == spec_entry_json(e@),
{
    let mut m: Vec<(String, Json)> = Vec::new();
    m.push(("name".to_owned(), Json::Str(e.name.clone())));
    m.push(("description".to_owned(), Json::Str(e.description.clone())));
    m.push(("link".to_owned(), Json::Str(e.link.clone())));
    m.push(("theme".to_owned(), opt_json(&e.theme)));
    m.push(("date".to_owned(), opt_json(&e.date)));
    m.push(("stack".to_owned(), opt_json(&e.stack)));
    m.push(("status".to_owned(), opt_json(&e.status)));
    proof {
        assert(obj_view(m@) =~= seq![
            ("name"@, JsonV::Str(e.name@)),
            ("description"@, JsonV::Str(e.description@)),
            ("link"@, JsonV::Str(e.link@)),
            ("theme"@, spec_opt_json(opt_str_view(e.theme))),
            ("date"@, spec_opt_json(opt_str_view(e.date))),
            ("stack"@, spec_opt_json(opt_str_view(e.stack))),
            ("status"@, spec_opt_json(opt_str_view(e.status))),
        ]);
    }
    Json::Obj(m)
}

/// The JSON array for one section.
fn entries_to_json(es: &Vec<Entry>) -> (r: Vec<Json>)
    ensures
        arr_view(r@) == spec_entries_json(entries_view(es@)),
{
    let mut out: Vec<Json> = Vec::new();
    let mut i: usize = 0;
    while i < es.len()
        invariant
            i <= es@.len(),
            out@.len() == i,
            forall|p: int| 0 <= p < i ==> out@[p]@ == spec_entry_json(#[trigger] es@[p]@),
        decreases es@.len() - i,
    {
        out.push(entry_to_json(&es[i]));
        i = i + 1;
    }
    proof {
        assert(arr_view(out@) =~= spec_entries_json(entries_view(es@)));
    }
    out
}

/// The JSON object for a whole document.
pub fn data_to_json(d: &DataSchema) -> (j: Json)
    ensures
        j@ == spec_data_json(d@),
{
    let mut m: Vec<(String, Json)> = Vec::new();
    m.push(("projects".to_owned(), Json::Arr(entries_to_json(&d.projects))));
    m.push(("articles".to_owned(), Json::Arr(entries_to_json(&d.articles))));
    m.push(("contacts".to_owned(), Json::Arr(entries_to_json(&d.contacts))));
    proof {
        assert(obj_view(m@) =~= seq![
            ("projects"@, JsonV::Arr(spec_entries_json(entries_view(d.projects@)))),
            ("articles"@, JsonV::Arr(spec_entries_json(entries_view(d.articles@)))),
            ("contacts"@, JsonV::Arr(spec_entries_json(entries_view(d.contacts@)))),
        ]);
    }
    Json::Obj(m)
}

/// Write a whole document as JSON text.
pub fn encode_data(d: &DataSchema) -> (r: String)
    ensures
        r@ == spec_encode(spec_data_json(d@)),
{
    let j = data_to_json(d);
    encode_json(&j)
}

// ---------------------------------------------------------------------------
// Decoding inverts encoding, value by value.
// ---------------------------------------------------------------------------
/// Decoding the JSON object of a record gives the record back.
pub proof fn lemma_entry_codec(e: EntryV)
    ensures
        spec_entry_of_json(spec_entry_json(e)) == Some(e),
{
    reveal_strlit("name");
    reveal_strlit("description");
    reveal_strlit("link");
    reveal_strlit("theme");
    reveal_strlit("date");
    reveal_strlit("stack");
    reveal_strlit("status");
    let m = seq![
        ("name"@, JsonV::Str(e.name)),
        ("description"@, JsonV::Str(e.description)),
        ("link"@, JsonV::Str(e.link)),
        ("theme"@, spec_opt_json(e.theme)),
        ("date"@, spec_opt_json(e.date)),
        ("stack"@, spec_opt_json(e.stack)),
        ("status"@, spec_opt_json(e.status)),
    ];
    assert("name"@.len() != "description"@.len());
    assert("name"@ != "description"@);
    assert("name"@[0] != "link"@[0]);
    assert("name"@ != "link"@);
    assert("name"@.len() != "theme"@.len());
    assert("name"@ != "theme"@);
    assert("name"@[0] != "date"@[0]);
    assert("name"@ != "date"@);
    assert("name"@.len() != "stack"@.len());
    assert("name"@ != "stack"@);
    assert("name"@.len() != "status"@.len());
    assert("name"@ != "status"@);
    assert("description"@.len() != "link"@.len());
    assert("description"@ != "link"@);
    assert("description"@.len() != "theme"@.len());
    assert("description"@ != "theme"@);
    assert("description"@.len() != "date"@.len());
    assert("description"@ != "date"@);
    assert("description"@.len() != "stack"@.len());
    assert("description"@ != "stack"@);
    assert("description"@.len() != "status"@.len());
    assert("description"@ != "status"@);
    assert("link"@.len() != "theme"@.len());
    assert("link"@ != "theme"@);
    assert("link"@[0] != "date"@[0]);
    assert("link"@ != "date"@);
    assert("link"@.len() != "stack"@.len());
    assert("link"@ != "stack"@);
    assert("link"@.len() != "status"@.len());
    assert("link"@ != "status"@);
    assert("theme"@.len() != "date"@.len());
    assert("theme"@ != "date"@);
    assert("theme"@[0] != "stack"@[0]);
    assert("theme"@ != "stack"@);
    assert("theme"@.len() != "status"@.len());
    assert("theme"@ != "status"@);
    assert("date"@.len() != "stack"@.len());
    assert("date"@ != "stack"@);
    assert("date"@.len() != "status"@.len());
    assert("date"@ != "status"@);
    assert("stack"@.len() != "status"@.len());
    assert("stack"@ != "status"@);
    assert(spec_entry_json(e) == JsonV::Obj(m));
    let m1 = m.subrange(1, 7);
    let m2 = m1.subrange(1, 6);
    let m3 = m2.subrange(1, 5);
    let m4 = m3.subrange(1, 4);
    let m5 = m4.subrange(1, 3);
    let m6 = m5.subrange(1, 2);
    assert(m1 =~= m.subrange(1, m.len() as int));
    assert(m2 =~= m1.subrange(1, m1.len() as int));
    assert(m3 =~= m2.subrange(1, m2.len() as int));
    assert(m4 =~= m3.subrange(1, m3.len() as int));
    assert(m5 =~= m4.subrange(1, m4.len() as int));
    assert(m6 =~= m5.subrange(1, m5.len() as int));
    assert(m6.subrange(1, m6.len() as int).len() == 0);
    assert(spec_field(m, "name"@) == Some(JsonV::Str(e.name)));
    assert(spec_field(m1, "description"@) == Some(JsonV::Str(e.description)));
    assert(spec_field(m, "description"@) == spec_field(m1, "description"@));
    assert(spec_field(m2, "link"@) == Some(JsonV::Str(e.link)));
    assert(spec_field(m1, "link"@) == spec_field(m2, "link"@));
    assert(spec_field(m, "link"@) == spec_field(m1, "link"@));
    assert(spec_field(m3, "theme"@) == Some(spec_opt_json(e.theme)));
    assert(spec_field(m2, "theme"@) == spec_field(m3, "theme"@));
    assert(spec_field(m1, "theme"@) == spec_field(m2, "theme"@));
    assert(spec_field(m, "theme"@) == spec_field(m1, "theme"@));
    assert(spec_field(m4, "date"@) == Some(spec_opt_json(e.date)));
    assert(spec_field(m3, "date"@) == spec_field(m4, "date"@));
    assert(spec_field(m2, "date"@) == spec_field(m3, "date"@));
    assert(spec_field(m1, "date"@) == spec_field(m2, "date"@));
    assert(spec_field(m, "date"@) == spec_field(m1, "date"@));
    assert(spec_field(m5, "stack"@) == Some(spec_opt_json(e.stack)));
    assert(spec_field(m4, "stack"@) == spec_field(m5, "stack"@));
    assert(spec_field(m3, "stack"@) == spec_field(m4, "stack"@));
    assert(spec_field(m2, "stack"@) == spec_field(m3, "stack"@));
    assert(spec_field(m1, "stack"@) == spec_field(m2, "stack"@));
    assert(spec_field(m, "stack"@) == spec_field(m1, "stack"@));
    assert(spec_field(m6, "status"@) == Some(spec_opt_json(e.status)));
    assert(spec_field(m5, "status"@) == spec_field(m6, "status"@));
    assert(spec_field(m4, "status"@) == spec_field(m5, "status"@));
    assert(spec_field(m3, "status"@) == spec_field(m4, "status"@));
    assert(spec_field(m2, "status"@) == spec_field(m3, "status"@));
    assert(spec_field(m1, "status"@) == spec_field(m2, "status"@));
    assert(spec_field(m, "status"@) == spec_field(m1, "status"@));
    assert(spec_entry_of_json(spec_entry_json(e)) matches Some(got) && got =~= e);
}

/// Decoding the JSON array of a section gives the section back.
pub proof fn lemma_entries_codec(es: Seq<EntryV>)
    ensures
        spec_entries_of_json(spec_entries_json(es)) == Some(es),
    decreases es.len(),
{
    let a = spec_entries_json(es);
    if es.len() == 0 {
        assert(Seq::<EntryV>::empty() =~= es);
    } else {
        lemma_entry_codec(es[0]);
        let es1 = es.subrange(1, es.len() as int);
        lemma_entries_codec(es1);
        assert(a.subrange(1, a.len() as int) =~= spec_entries_json(es1));
        assert(seq![es[0]] + es1 =~= es);
    }
}

/// Decoding the JSON object of a document gives the document back.
pub proof fn lemma_data_codec(d: DataSchemaV)
    ensures
        spec_data_of_json(spec_data_json(d)) == Some(d),
{
    reveal_strlit("projects");
    reveal_strlit("articles");
    reveal_strlit("contacts");
    let m = seq![
        ("projects"@, JsonV::Arr(spec_entries_json(d.projects))),
        ("articles"@, JsonV::Arr(spec_entries_json(d.articles))),
        ("contacts"@, JsonV::Arr(spec_entries_json(d.contacts))),
    ];
    assert("projects"@[0] != "articles"@[0]);
    assert("projects"@ != "articles"@);
    assert("projects"@[0] != "contacts"@[0]);
    assert("projects"@ != "contacts"@);
    assert("articles"@[0] != "contacts"@[0]);
    assert("articles"@ != "contacts"@);
    assert(spec_data_json(d) == JsonV::Obj(m));
    let m1 = m.subrange(1, 3);
    let m2 = m1.subrange(1, 2);
    assert(m1 =~= m.subrange(1, m.len() as int));
    assert(m2 =~= m1.subrange(1, m1.len() as int));
    assert(m2.subrange(1, m2.len() as int).len() == 0);
    assert(spec_field(m, "projects"@) == Some(JsonV::Arr(spec_entries_json(d.projects))));
    assert(spec_field(m1, "articles"@) == Some(JsonV::Arr(spec_entries_json(d.articles))));
    assert(spec_field(m, "articles"@) == spec_field(m1, "articles"@));
    assert(spec_field(m2, "contacts"@) == Some(JsonV::Arr(spec_entries_json(d.contacts))));
    assert(spec_field(m1, "contacts"@) == spec_field(m2, "contacts"@));
    assert(spec_field(m, "contacts"@) == spec_field(m1, "contacts"@));
    lemma_entries_codec(d.projects);
    lemma_entries_codec(d.articles);
    lemma_entries_codec(d.contacts);
    assert(spec_data_of_json(spec_data_json(d)) matches Some(got) && got =~= d);
}

/// The JSON object of a record is well-formed.
proof fn lemma_entry_json_wf(e: EntryV)
    ensures
        crate::json::spec_wf_json(spec_entry_json(e)),
{
    let m = seq![
        ("name"@, JsonV::Str(e.name)),
        ("description"@, JsonV::Str(e.description)),
        ("link"@, JsonV::Str(e.link)),
        ("theme"@, spec_opt_json(e.theme)),
        ("date"@, spec_opt_json(e.date)),
        ("stack"@, spec_opt_json(e.stack)),
        ("status"@, spec_opt_json(e.status)),
    ];
    assert(spec_entry_json(e) == JsonV::Obj(m));
    assert forall|k: int| 0 <= k < m.len() implies crate::json::spec_wf_json(
        (#[trigger] m[k]).1,
    ) by {
        assert(crate::json::spec_wf_json(m[0].1));
        assert(crate::json::spec_wf_json(m[1].1));
        assert(crate::json::spec_wf_json(m[2].1));
        assert(crate::json::spec_wf_json(m[3].1));
        assert(crate::json::spec_wf_json(m[4].1));
        assert(crate::json::spec_wf_json(m[5].1));
        assert(crate::json::spec_wf_json(m[6].1));
    }
}

/// The JSON object of a document is well-formed.
proof fn lemma_data_json_wf(d: DataSchemaV)
    ensures
        crate::json::spec_wf_json(spec_data_json(d)),
{
    let m = seq![
        ("projects"@, JsonV::Arr(spec_entries_json(d.projects))),
        ("articles"@, JsonV::Arr(spec_entries_json(d.articles))),
        ("contacts"@, JsonV::Arr(spec_entries_json(d.contacts))),
    ];
    assert(spec_data_json(d) == JsonV::Obj(m));
    assert forall|es: Seq<EntryV>, k: int|
        0 <= k < spec_entries_json(es).len() implies crate::json::spec_wf_json(
        #[trigger] spec_entries_json(es)[k],
    ) by {
        lemma_entry_json_wf(es[k]);
    }
    assert forall|k: int| 0 <= k < m.len() implies crate::json::spec_wf_json(
        (#[trigger] m[k]).1,
    ) by {
        assert(crate::json::spec_wf_json(m[0].1));
        assert(crate::json::spec_wf_json(m[1].1));
        assert(crate::json::spec_wf_json(m[2].1));
    }
}

/// Round trip: a document written as JSON text and decoded again is the
/// same document.
pub proof fn lemma_data_round_trip(d: DataSchemaV)
    ensures
        spec_parse_data(spec_encode(spec_data_json(d))) == Some(d),
{
    lemma_data_json_wf(d);
    crate::json::lemma_parse_encode(spec_data_json(d));
    lemma_data_codec(d);
}

} // verus!
