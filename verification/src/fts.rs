//! Full-text extractors, registered by MIME type.
//!
//! An extractor turns a variant's byte content into one plain-text blob for
//! the index.  JSON documents are modelled by [`JsonV`]; the parser itself is
//! serde_json, trusted through the wrappers below.

use vstd::prelude::*;

use crate::strutil::{join_with, lemma_join_with_extend, str_eq};

verus! {

/// Ghost model of a JSON document.
pub enum JsonV {
    Null,
    Bool(bool),
    Num,
    Text(Seq<char>),
    Arr(Seq<JsonV>),
    Obj(Map<Seq<char>, JsonV>),
}

/// What serde_json's parser returns on these bytes, when it succeeds.
pub uninterp spec fn json_of(bytes: Seq<u8>) -> Option<JsonV>;

/// The document held by a parsed `serde_json::Value`.
pub uninterp spec fn json_model(v: serde_json::Value) -> JsonV;

/// What `String::from_utf8` decodes from these bytes, when they are valid.
pub uninterp spec fn utf8_of(bytes: Seq<u8>) -> Option<Seq<char>>;

#[verifier::external_type_specification]
#[verifier::external_body]
pub struct ExJsonValue(serde_json::Value);

/// Extraction failures.
#[derive(Debug)]
pub enum IndexerError {
    /// No extractor is registered for this MIME type.
    UnsupportedMime(String),
    /// The content is not valid UTF-8.
    IO(String),
    /// The content is not valid JSON.
    SerdeJson(String),
}

/// Relies on serde_json::from_slice: parses the bytes into a `Value`,
/// failing exactly on malformed documents.
#[verifier::external_body]
fn parse_json(bytes: &[u8]) -> (r: Result<serde_json::Value, IndexerError>)
    ensures
        r is Ok <==> json_of(bytes@) is Some,
        r is Ok ==> json_model(r.unwrap()) == json_of(bytes@).unwrap(),
        r is Err ==> r.unwrap_err() is SerdeJson,
{
    serde_json::from_slice::<serde_json::Value>(bytes)
        .map_err(|e| IndexerError::SerdeJson(e.to_string()))
}

/// Relies on serde_json::Value::get: on an object, looks the key up in its
/// map; on any other value it returns `None`.
#[verifier::external_body]
fn json_get_field<'a>(v: &'a serde_json::Value, key: &str) -> (r: Option<&'a serde_json::Value>)
    ensures
        match json_model(*v) {
            JsonV::Obj(m) => {
                &&& m.contains_key(key@) ==> r is Some && json_model(*r.unwrap()) == m[key@]
                &&& !m.contains_key(key@) ==> r is None
            },
            _ => r is None,
        },
{
    v.get(key)
}

/// Relies on serde_json::Value::as_str: `Some` exactly on strings.
#[verifier::external_body]
fn json_as_str<'a>(v: &'a serde_json::Value) -> (r: Option<&'a str>)
    ensures
        r is Some <==> json_model(*v) is Text,
        r is Some ==> json_model(*v) == JsonV::Text(r.unwrap()@),
{
    v.as_str()
}

/// Relies on serde_json::Value::as_array: `Some` exactly on arrays, giving
/// the elements in order.
#[verifier::external_body]
fn json_as_array<'a>(v: &'a serde_json::Value) -> (r: Option<&'a Vec<serde_json::Value>>)
    ensures
        r is Some <==> json_model(*v) is Arr,
        r is Some ==> {
            let elems = json_model(*v)->Arr_0;
            r.unwrap()@.len() == elems.len() && forall|i: int|
                0 <= i < elems.len() ==> json_model(#[trigger] r.unwrap()@[i]) == elems[i]
        },
{
    v.as_array()
}

/// Relies on String::from_utf8: `Ok` exactly on valid UTF-8.
#[verifier::external_body]
fn utf8_string(bytes: &[u8]) -> (r: Option<String>)
    ensures
        r is Some <==> utf8_of(bytes@) is Some,
        r is Some ==> r.unwrap()@ == utf8_of(bytes@).unwrap(),
{
    match std::str::from_utf8(bytes) {
        Ok(s) => Some(s.to_owned()),
        Err(_) => None,
    }
}

/// The string elements of a JSON array, in order; other elements are skipped.
pub open spec fn texts_of(items: Seq<JsonV>) -> Seq<Seq<char>>
    decreases items.len(),
{
    if items.len() == 0 {
        Seq::empty()
    } else {
        texts_of(items.drop_last()) + (match items.last() {
            JsonV::Text(s) => seq![s],
            _ => Seq::empty(),
        })
    }
}

/// The texts a flat-JSON extractor takes from one field: the value itself if
/// it is a string, its string elements if it is an array, nothing otherwise.
pub open spec fn field_texts(j: JsonV, field: Seq<char>) -> Seq<Seq<char>> {
    match j {
        JsonV::Obj(m) => if m.contains_key(field) {
            match m[field] {
                JsonV::Text(s) => seq![s],
                JsonV::Arr(items) => texts_of(items),
                _ => Seq::empty(),
            }
        } else {
            Seq::empty()
        },
        _ => Seq::empty(),
    }
}

/// The texts taken from a list of fields, in field order.
pub open spec fn extract_fields(j: JsonV, fields: Seq<Seq<char>>) -> Seq<Seq<char>>
    decreases fields.len(),
{
    if fields.len() == 0 {
        Seq::empty()
    } else {
        extract_fields(j, fields.drop_last()) + field_texts(j, fields.last())
    }
}

/// The text blob a flat-JSON extractor produces: the extracted texts joined
/// by single spaces.
pub open spec fn flat_json_text(j: JsonV, fields: Seq<Seq<char>>) -> Seq<char> {
    join_with(extract_fields(j, fields), ' ')
}

/// Whether extraction for this MIME type goes through on this content.
/// MIME types with no registered extractor are vacuously fine.
pub open spec fn extract_succeeds(mime: Seq<char>, content: Seq<u8>) -> bool {
    if crate::strutil::has_suffix(mime, "json"@) {
        mime == "application/x-places+json"@ && json_of(content) is Some
    } else if mime == "text/plain"@ {
        utf8_of(content) is Some
    } else {
        true
    }
}

/// The text the extractor registered for this MIME type produces, when
/// extraction goes through; `None` when no extractor is registered.
pub open spec fn extract_text(mime: Seq<char>, content: Seq<u8>) -> Option<Seq<char>> {
    if crate::strutil::has_suffix(mime, "json"@) {
        if mime == "application/x-places+json"@ && json_of(content) is Some {
            Some(flat_json_text(json_of(content).unwrap(), seq!["url"@, "title"@]))
        } else {
            None
        }
    } else if mime == "text/plain"@ {
        if utf8_of(content) is Some {
            Some(utf8_of(content).unwrap())
        } else {
            None
        }
    } else {
        None
    }
}

/// text/plain extractor: the whole content, decoded as UTF-8.
pub fn text_plain_indexer(content: &[u8]) -> (r: Result<String, IndexerError>)
    ensures
        r is Ok <==> utf8_of(content@) is Some,
        r is Ok ==> r.unwrap()@ == utf8_of(content@).unwrap(),
        r is Err ==> r.unwrap_err() is IO,
{
    match utf8_string(content) {
        Some(s) => Ok(s),
        None => Err(IndexerError::IO(String::new())),
    }
}

/// A generic extractor for flat JSON documents: the configured fields'
/// string values and string-array elements, joined by spaces.
pub struct FlatJsonIndexer {
    fields: Vec<String>,
}

impl FlatJsonIndexer {
    /// The fields this extractor reads, in order.
    pub closed spec fn fields_view(&self) -> Seq<Seq<char>> {
        self.fields.deep_view()
    }

    pub fn new(fields: &[&str]) -> (r: Self)
        ensures
            r.fields_view().len() == fields@.len(),
            forall|j: int| 0 <= j < fields@.len() ==> r.fields_view()[j] == fields@[j]@,
    {
        let mut owned: Vec<String> = Vec::new();
        let n = fields.len();
        let mut i: usize = 0;
        while i < n
            invariant
                0 <= i <= n,
                n == fields@.len(),
                owned@.len() == i,
                forall|j: int| 0 <= j < i ==> owned@[j]@ == fields@[j]@,
            decreases n - i,
        {
            let f: &&str = vstd::slice::slice_index_get(fields, i);
            owned.push((*f).to_owned());
            i += 1;
        }
        FlatJsonIndexer { fields: owned }
    }

    /// Extract the indexable text of this content.
    pub fn get_text(&self, content: &[u8]) -> (r: Result<String, IndexerError>)
        ensures
            r is Ok <==> json_of(content@) is Some,
            r is Ok ==> r.unwrap()@ == flat_json_text(json_of(content@).unwrap(), self.fields_view()),
            r is Err ==> r.unwrap_err() is SerdeJson,
    {
        let v = match parse_json(content) {
            Ok(v) => v,
            Err(e) => {
                return Err(e);
            },
        };
        let ghost j = json_model(v);
        let mut texts: Vec<String> = Vec::new();
        let n = self.fields.len();
        let mut i: usize = 0;
        proof {
            assert(self.fields_view().subrange(0, 0) =~= Seq::<Seq<char>>::empty());
            assert(texts.deep_view() =~= extract_fields(j, self.fields_view().subrange(0, 0)));
        }
        while i < n
            invariant
                0 <= i <= n,
                n == self.fields@.len(),
                self.fields_view() == self.fields.deep_view(),
                j == json_model(v),
                texts.deep_view() == extract_fields(j, self.fields_view().subrange(0, i as int)),
            decreases n - i,
        {
            let ghost pre = texts.deep_view();
            let field = &self.fields[i];
            match json_get_field(&v, field.as_str()) {
                Some(fv) => {
                    match json_as_str(fv) {
                        Some(s) => {
                            texts.push(s.to_owned());
                            proof {
                                assert(texts.deep_view() =~= pre + field_texts(j, field@));
                            }
                        },
                        None => {
                            match json_as_array(fv) {
                                Some(items) => {
                                    let ghost elems = json_model(*fv)->Arr_0;
                                    let m = items.len();
                                    let mut k: usize = 0;
                                    proof {
                                        assert(elems.subrange(0, 0) =~= Seq::<JsonV>::empty());
                                        assert(texts.deep_view() =~= pre + texts_of(
                                            elems.subrange(0, 0),
                                        ));
                                    }
                                    while k < m
                                        invariant
                                            0 <= k <= m,
                                            m == items@.len(),
                                            m == elems.len(),
                                            forall|t: int|
                                                0 <= t < elems.len() ==> json_model(
                                                    #[trigger] items@[t],
                                                ) == elems[t],
                                            texts.deep_view() == pre + texts_of(
                                                elems.subrange(0, k as int),
                                            ),
                                        decreases m - k,
                                    {
                                        let ghost tpre = texts.deep_view();
                                        match json_as_str(&items[k]) {
                                            Some(s) => {
                                                texts.push(s.to_owned());
                                                proof {
                                                    assert(elems.subrange(0, k + 1).drop_last()
                                                        =~= elems.subrange(0, k as int));
                                                    assert(texts.deep_view() =~= tpre + seq![
                                                        s@,
                                                    ]);
                                                }
                                            },
                                            None => {
                                                proof {
                                                    assert(elems.subrange(0, k + 1).drop_last()
                                                        =~= elems.subrange(0, k as int));
                                                }
                                            },
                                        }
                                        k += 1;
                                    }
                                    proof {
                                        assert(elems.subrange(0, m as int) =~= elems);
                                        assert(texts.deep_view() =~= pre + field_texts(
                                            j,
                                            field@,
                                        ));
                                    }
                                },
                                None => {
                                    proof {
                                        assert(field_texts(j, field@) =~= Seq::<Seq<char>>::empty());
                                        assert(texts.deep_view() =~= pre + field_texts(j, field@));
                                    }
                                },
                            }
                        },
                    }
                },
                None => {
                    proof {
                        assert(field_texts(j, field@) =~= Seq::<Seq<char>>::empty());
                        assert(texts.deep_view() =~= pre + field_texts(j, field@));
                    }
                },
            }
            proof {
                assert(self.fields_view().subrange(0, i + 1).drop_last() =~= self.fields_view()
                    .subrange(0, i as int));
                assert(self.fields_view().subrange(0, i + 1).last() == field@);
            }
            i += 1;
        }
        proof {
            assert(self.fields_view().subrange(0, n as int) =~= self.fields_view());
        }
        Ok(join_texts(&texts))
    }
}

/// Join pieces with single spaces.
fn join_texts(texts: &Vec<String>) -> (r: String)
    ensures
        r@ == join_with(texts.deep_view(), ' '),
{
    let n = texts.len();
    if n == 0 {
        let r = String::new();
        assert(r@ =~= join_with(texts.deep_view(), ' '));
        return r;
    }
    let mut r: String = texts[0].clone();
    proof {
        assert(texts.deep_view().subrange(0, 1) =~= seq![texts.deep_view()[0]]);
    }
    let mut i: usize = 1;
    while i < n
        invariant
            1 <= i <= n,
            n == texts.deep_view().len(),
            r@ == join_with(texts.deep_view().subrange(0, i as int), ' '),
        decreases n - i,
    {
        r.append(" ");
        r.append(texts[i].as_str());
        proof {
            reveal_strlit(" ");
            assert(" "@ =~= seq![' ']);
            lemma_join_with_extend(
                texts.deep_view().subrange(0, i as int),
                texts.deep_view()[i as int],
                ' ',
            );
            assert(texts.deep_view().subrange(0, i + 1) =~= texts.deep_view().subrange(
                0,
                i as int,
            ).push(texts.deep_view()[i as int]));
        }
        i += 1;
    }
    proof {
        assert(texts.deep_view().subrange(0, n as int) =~= texts.deep_view());
    }
    r
}

/// The extractor for "Places" documents: `{ "url": …, "title": …, "icon": … }`.
pub fn new_places_indexer() -> (r: FlatJsonIndexer)
    ensures
        r.fields_view() == seq!["url"@, "title"@],
{
    let fields: [&str; 2] = ["url", "title"];
    let r = FlatJsonIndexer::new(fields.as_slice());
    proof {
        assert(fields@.len() == 2);
        assert(r.fields_view() =~= seq!["url"@, "title"@]);
    }
    r
}

/// Dispatch a JSON document to the extractor registered for its MIME type.
pub fn json_indexer(content: &[u8], mime: &str) -> (r: Result<String, IndexerError>)
    ensures
        mime@ == "application/x-places+json"@ ==> {
            &&& r is Ok <==> json_of(content@) is Some
            &&& r is Ok ==> r.unwrap()@ == flat_json_text(
                json_of(content@).unwrap(),
                seq!["url"@, "title"@],
            )
            &&& r is Err ==> r.unwrap_err() is SerdeJson
        },
        mime@ != "application/x-places+json"@ ==> r is Err && r.unwrap_err() is UnsupportedMime,
{
    if str_eq(mime, "application/x-places+json") {
        let indexer = new_places_indexer();
        indexer.get_text(content)
    } else {
        Err(IndexerError::UnsupportedMime(mime.to_owned()))
    }
}

} // verus!
