use vstd::prelude::*;

use mongodb::bson::{document::ValueAccessError, oid::ObjectId, Bson, Document};

verus! {

#[verifier::external_type_specification]
#[verifier::external_body]
pub struct ExDocument(mongodb::bson::Document);

/// What a field of a stored document holds, as far as this library reads it.
pub enum FieldValue {
    Int32(i32),
    Int64(i64),
    Text(Seq<char>),
    ObjectId(Seq<u8>),
    Array(Seq<FieldValue>),
    Doc(Document),
    /// Any other kind of BSON value.
    Other,
}

/// The fields of a document, in order, each a key and its value.
pub uninterp spec fn document_fields(d: Document) -> Seq<(Seq<char>, FieldValue)>;

/// The value that `fields` holds under `key`, if any.
pub open spec fn field_in(fields: Seq<(Seq<char>, FieldValue)>, key: Seq<char>) -> Option<FieldValue>
    decreases fields.len(),
{
    if fields.len() == 0 {
        None
    } else if fields[0].0 == key {
        Some(fields[0].1)
    } else {
        field_in(fields.drop_first(), key)
    }
}

/// The value that document `d` holds under `key`, if any.
pub open spec fn field(d: Document, key: Seq<char>) -> Option<FieldValue> {
    field_in(document_fields(d), key)
}

/// `fields` after setting `key` to `v`: a present key keeps its place and takes the
/// new value; a new key goes last.
pub open spec fn fields_insert(
    fields: Seq<(Seq<char>, FieldValue)>,
    key: Seq<char>,
    v: FieldValue,
) -> Seq<(Seq<char>, FieldValue)>
    decreases fields.len(),
{
    if fields.len() == 0 {
        seq![(key, v)]
    } else if fields[0].0 == key {
        fields.update(0, (key, v))
    } else {
        seq![fields[0]] + fields_insert(fields.drop_first(), key, v)
    }
}

/// A field whose key no earlier field has is what reading that key gives.
pub proof fn lemma_field_at(fields: Seq<(Seq<char>, FieldValue)>, i: int)
    requires
        0 <= i < fields.len(),
        forall|j: int| 0 <= j < i ==> #[trigger] fields[j].0 != fields[i].0,
    ensures
        field_in(fields, fields[i].0) == Some(fields[i].1),
    decreases i,
{
    if i > 0 {
        let rest = fields.drop_first();
        assert(fields[0].0 != fields[i].0);
        assert forall|j: int| 0 <= j < i - 1 implies #[trigger] rest[j].0 != rest[i - 1].0 by {
            assert(rest[j] == fields[j + 1]);
            assert(fields[j + 1].0 != fields[i].0);
        }
        lemma_field_at(rest, i - 1);
        assert(rest[i - 1] == fields[i]);
    }
}

/// Setting a key that `fields` does not hold appends it.
pub proof fn lemma_insert_new_key(fields: Seq<(Seq<char>, FieldValue)>, key: Seq<char>, v: FieldValue)
    requires
        forall|i: int| 0 <= i < fields.len() ==> #[trigger] fields[i].0 != key,
    ensures
        fields_insert(fields, key, v) == fields.push((key, v)),
    decreases fields.len(),
{
    if fields.len() > 0 {
        let rest = fields.drop_first();
        assert forall|i: int| 0 <= i < rest.len() implies #[trigger] rest[i].0 != key by {
            assert(rest[i] == fields[i + 1]);
        }
        lemma_insert_new_key(rest, key, v);
        assert(seq![fields[0]] + rest.push((key, v)) =~= fields.push((key, v)));
    } else {
        assert(seq![(key, v)] =~= fields.push((key, v)));
    }
}

/// Reading a key right after setting it gives the value that was set.
pub proof fn lemma_read_after_insert(fields: Seq<(Seq<char>, FieldValue)>, key: Seq<char>, v: FieldValue)
    ensures
        field_in(fields_insert(fields, key, v), key) == Some(v),
    decreases fields.len(),
{
    if fields.len() > 0 && fields[0].0 != key {
        lemma_read_after_insert(fields.drop_first(), key, v);
        assert((seq![fields[0]] + fields_insert(fields.drop_first(), key, v)).drop_first() =~= fields_insert(
            fields.drop_first(),
            key,
            v,
        ));
    }
}

/// Setting a key leaves what every other key reads unchanged.
pub proof fn lemma_insert_keeps_other_keys(
    fields: Seq<(Seq<char>, FieldValue)>,
    key: Seq<char>,
    v: FieldValue,
    other: Seq<char>,
)
    requires
        other != key,
    ensures
        field_in(fields_insert(fields, key, v), other) == field_in(fields, other),
    decreases fields.len(),
{
    if fields.len() > 0 && fields[0].0 != key {
        lemma_insert_keeps_other_keys(fields.drop_first(), key, v, other);
        let r = seq![fields[0]] + fields_insert(fields.drop_first(), key, v);
        assert(r.drop_first() =~= fields_insert(fields.drop_first(), key, v));
        assert(r[0] == fields[0]);
        assert(fields_insert(fields, key, v) == r);
        if fields[0].0 == other {
            assert(field_in(r, other) == Some(fields[0].1));
        } else {
            assert(field_in(r, other) == field_in(r.drop_first(), other));
            assert(field_in(fields, other) == field_in(fields.drop_first(), other));
        }
    } else if fields.len() > 0 {
        let r = fields.update(0, (key, v));
        assert(r[0].0 == key);
        assert(fields_insert(fields, key, v) == r);
        assert(fields.update(0, (key, v)).drop_first() =~= fields.drop_first());
        assert(field_in(r, other) == field_in(r.drop_first(), other));
        assert(field_in(fields, other) == field_in(fields.drop_first(), other));
    } else {
        let r = seq![(key, v)];
        assert(r.drop_first() =~= fields);
        assert(fields_insert(fields, key, v) == r);
        assert(field_in(r, other) == field_in(r.drop_first(), other));
    }
}

/// Why a typed read of a document field failed.
#[derive(Debug, Clone, Copy, PartialEq, Eq, Structural)]
pub enum AccessError {
    /// There is no field with the key.
    NotPresent,
    /// The field holds a value of another type.
    UnexpectedType,
}

/// What a typed read of `key` gives: `Ok` of the value that `pick` finds, or the error.
pub open spec fn access<T>(d: Document, key: Seq<char>, pick: spec_fn(FieldValue) -> Option<T>) -> Result<
    T,
    AccessError,
> {
    match field(d, key) {
        None => Err(AccessError::NotPresent),
        Some(v) => match pick(v) {
            Some(x) => Ok(x),
            None => Err(AccessError::UnexpectedType),
        },
    }
}

pub open spec fn pick_text(v: FieldValue) -> Option<Seq<char>> {
    match v {
        FieldValue::Text(s) => Some(s),
        _ => None,
    }
}

pub open spec fn pick_i32(v: FieldValue) -> Option<i32> {
    match v {
        FieldValue::Int32(n) => Some(n),
        _ => None,
    }
}

pub open spec fn pick_i64(v: FieldValue) -> Option<i64> {
    match v {
        FieldValue::Int64(n) => Some(n),
        _ => None,
    }
}

pub open spec fn pick_object_id(v: FieldValue) -> Option<Seq<u8>> {
    match v {
        FieldValue::ObjectId(b) => Some(b),
        _ => None,
    }
}

pub open spec fn pick_array(v: FieldValue) -> Option<Seq<FieldValue>> {
    match v {
        FieldValue::Array(items) => Some(items),
        _ => None,
    }
}

/// Whether the read result `r`, seen through `view`, is the outcome `want`.
pub open spec fn read_gives<A, B>(r: Result<A, AccessError>, view: spec_fn(A) -> B, want: Result<B, AccessError>) -> bool {
    match (r, want) {
        (Ok(x), Ok(y)) => view(x) == y,
        (Err(e), Err(f)) => e == f,
        _ => false,
    }
}

/// The text that describes an access error, as the error's `Display` gives it.
pub open spec fn access_error_text(e: AccessError) -> Seq<char> {
    match e {
        AccessError::NotPresent => "field is not present"@,
        AccessError::UnexpectedType => "field does not have the expected type"@,
    }
}

/// The message for a failed field read.
pub fn format_error(error: AccessError) -> (r: String)
    ensures
        r@ == access_error_text(error),
{
    match error {
        AccessError::NotPresent => "field is not present".to_owned(),
        AccessError::UnexpectedType => "field does not have the expected type".to_owned(),
    }
}

/// An empty document (`Document::new`).
/// Claims that the new document has no fields.
#[verifier::external_body]
pub(crate) fn new_document() -> (d: Document)
    ensures
        document_fields(d) == Seq::<(Seq<char>, FieldValue)>::empty(),
{
    Document::new()
}

/// A value that the library stores in a document field.
#[derive(Debug)]
pub enum StoredValue {
    Text(String),
    Int32(i32),
    Int64(i64),
    ObjectId([u8; 12]),
    Document(Document),
    /// An array of sub-documents.
    Documents(Vec<Document>),
    /// An array of object ids.
    ObjectIds(Vec<[u8; 12]>),
    /// An array of texts.
    Texts(Vec<String>),
}

/// What a stored value looks like once it is in a document.
pub open spec fn stored_view(v: StoredValue) -> FieldValue {
    match v {
        StoredValue::Text(s) => FieldValue::Text(s@),
        StoredValue::Int32(n) => FieldValue::Int32(n),
        StoredValue::Int64(n) => FieldValue::Int64(n),
        StoredValue::ObjectId(b) => FieldValue::ObjectId(b@),
        StoredValue::Document(d) => FieldValue::Doc(d),
        StoredValue::Documents(ds) => FieldValue::Array(ds@.map_values(|x: Document| FieldValue::Doc(x))),
        StoredValue::ObjectIds(ids) => FieldValue::Array(ids@.map_values(|x: [u8; 12]| FieldValue::ObjectId(x@))),
        StoredValue::Texts(ts) => FieldValue::Array(ts@.map_values(|x: String| FieldValue::Text(x@))),
    }
}

/// Sets a field (`Document::insert`), the value converted to the matching `Bson`
/// variant (arrays element by element, in order).
/// Claims the insertion order that `IndexMap::insert` documents, which `Document`
/// uses: a present key keeps its place and takes the new value, a new key goes last.
#[verifier::external_body]
pub(crate) fn insert(d: &mut Document, key: &str, value: StoredValue)
    ensures
        document_fields(*final(d)) == fields_insert(document_fields(*old(d)), key@, stored_view(value)),
{
    let converted = match value {
        StoredValue::Text(s) => Bson::String(s),
        StoredValue::Int32(n) => Bson::Int32(n),
        StoredValue::Int64(n) => Bson::Int64(n),
        StoredValue::ObjectId(b) => Bson::ObjectId(ObjectId::from_bytes(b)),
        StoredValue::Document(x) => Bson::Document(x),
        StoredValue::Documents(xs) => Bson::Array(xs.into_iter().map(Bson::Document).collect()),
        StoredValue::ObjectIds(ids) => Bson::Array(ids.into_iter().map(|b| Bson::ObjectId(ObjectId::from_bytes(b))).collect()),
        StoredValue::Texts(ts) => Bson::Array(ts.into_iter().map(Bson::String).collect()),
    };
    d.insert(key, converted);
}

/// Sets a text field.
pub fn insert_text(d: &mut Document, key: &str, value: String)
    ensures
        document_fields(*final(d)) == fields_insert(document_fields(*old(d)), key@, FieldValue::Text(value@)),
{
    insert(d, key, StoredValue::Text(value));
}

/// Sets a 32-bit integer field.
pub fn insert_i32(d: &mut Document, key: &str, value: i32)
    ensures
        document_fields(*final(d)) == fields_insert(document_fields(*old(d)), key@, FieldValue::Int32(value)),
{
    insert(d, key, StoredValue::Int32(value));
}

/// Sets a 64-bit integer field.
pub fn insert_i64(d: &mut Document, key: &str, value: i64)
    ensures
        document_fields(*final(d)) == fields_insert(document_fields(*old(d)), key@, FieldValue::Int64(value)),
{
    insert(d, key, StoredValue::Int64(value));
}

/// Sets an object id field.
pub fn insert_object_id(d: &mut Document, key: &str, value: [u8; 12])
    ensures
        document_fields(*final(d)) == fields_insert(document_fields(*old(d)), key@, FieldValue::ObjectId(value@)),
{
    insert(d, key, StoredValue::ObjectId(value));
}

/// Sets a sub-document field.
pub fn insert_document(d: &mut Document, key: &str, value: Document)
    ensures
        document_fields(*final(d)) == fields_insert(document_fields(*old(d)), key@, FieldValue::Doc(value)),
{
    insert(d, key, StoredValue::Document(value));
}

/// Sets an array field of sub-documents, in the order given.
pub fn insert_documents(d: &mut Document, key: &str, values: Vec<Document>)
    ensures
        document_fields(*final(d)) == fields_insert(
            document_fields(*old(d)),
            key@,
            FieldValue::Array(values@.map_values(|x: Document| FieldValue::Doc(x))),
        ),
{
    insert(d, key, StoredValue::Documents(values));
}

/// Sets an array field of object ids, in the order given.
pub fn insert_object_ids(d: &mut Document, key: &str, values: Vec<[u8; 12]>)
    ensures
        document_fields(*final(d)) == fields_insert(
            document_fields(*old(d)),
            key@,
            FieldValue::Array(values@.map_values(|x: [u8; 12]| FieldValue::ObjectId(x@))),
        ),
{
    insert(d, key, StoredValue::ObjectIds(values));
}

/// Sets an array field of texts, in the order given.
pub fn insert_texts(d: &mut Document, key: &str, values: Vec<String>)
    ensures
        document_fields(*final(d)) == fields_insert(
            document_fields(*old(d)),
            key@,
            FieldValue::Array(values@.map_values(|x: String| FieldValue::Text(x@))),
        ),
{
    insert(d, key, StoredValue::Texts(values));
}

/// Reads a text field (`Document::get_str`).
/// Claims what `get_str` does: the text when the field holds a `Bson::String`,
/// `NotPresent` when there is no such field, `UnexpectedType` otherwise.
#[verifier::external_body]
pub(crate) fn get_text(d: &Document, key: &str) -> (r: Result<String, AccessError>)
    ensures
        read_gives(r, |s: String| s@, access(*d, key@, |v: FieldValue| pick_text(v))),
{
    match d.get_str(key) {
        Ok(s) => Ok(s.to_string()),
        Err(ValueAccessError::NotPresent) => Err(AccessError::NotPresent),
        Err(_) => Err(AccessError::UnexpectedType),
    }
}

/// Reads a 32-bit integer field (`Document::get_i32`), with the errors of `get_text`.
#[verifier::external_body]
pub(crate) fn get_i32(d: &Document, key: &str) -> (r: Result<i32, AccessError>)
    ensures
        r == access(*d, key@, |v: FieldValue| pick_i32(v)),
{
    match d.get_i32(key) {
        Ok(n) => Ok(n),
        Err(ValueAccessError::NotPresent) => Err(AccessError::NotPresent),
        Err(_) => Err(AccessError::UnexpectedType),
    }
}

/// Reads a 64-bit integer field (`Document::get_i64`), with the errors of `get_text`.
#[verifier::external_body]
pub(crate) fn get_i64(d: &Document, key: &str) -> (r: Result<i64, AccessError>)
    ensures
        r == access(*d, key@, |v: FieldValue| pick_i64(v)),
{
    match d.get_i64(key) {
        Ok(n) => Ok(n),
        Err(ValueAccessError::NotPresent) => Err(AccessError::NotPresent),
        Err(_) => Err(AccessError::UnexpectedType),
    }
}

/// Reads an object id field (`Document::get_object_id`), with the errors of `get_text`.
#[verifier::external_body]
pub(crate) fn get_object_id(d: &Document, key: &str) -> (r: Result<[u8; 12], AccessError>)
    ensures
        read_gives(r, |b: [u8; 12]| b@, access(*d, key@, |v: FieldValue| pick_object_id(v))),
{
    match d.get_object_id(key) {
        Ok(id) => Ok(id.bytes()),
        Err(ValueAccessError::NotPresent) => Err(AccessError::NotPresent),
        Err(_) => Err(AccessError::UnexpectedType),
    }
}

/// One item of an array field, as far as this library reads it.
#[derive(Debug)]
pub enum ArrayItem {
    Document(Document),
    Other,
}

/// Whether `item` is what the array element `v` holds: the same sub-document fields,
/// or anything else.
pub open spec fn item_matches(item: ArrayItem, v: FieldValue) -> bool {
    match v {
        FieldValue::Doc(x) => item matches ArrayItem::Document(y) && document_fields(y) == document_fields(x),
        _ => item is Other,
    }
}

/// Reads an array field (`Document::get_array`), each element converted in order: a
/// `Bson::Document` to a copy of it, anything else to `Other`. Fails as `get_text` does.
#[verifier::external_body]
pub(crate) fn get_array(d: &Document, key: &str) -> (r: Result<Vec<ArrayItem>, AccessError>)
    ensures
        match (r, access(*d, key@, |v: FieldValue| pick_array(v))) {
            (Ok(items), Ok(values)) => items@.len() == values.len() && forall|k: int|
                0 <= k < values.len() ==> item_matches(#[trigger] items@[k], values[k]),
            (Err(e), Err(f)) => e == f,
            _ => false,
        },
{
    match d.get_array(key) {
        Ok(items) => Ok(items.iter().map(|item| match item {
            Bson::Document(x) => ArrayItem::Document(x.clone()),
            _ => ArrayItem::Other,
        }).collect()),
        Err(ValueAccessError::NotPresent) => Err(AccessError::NotPresent),
        Err(_) => Err(AccessError::UnexpectedType),
    }
}

/// What a reference field holds (`Document::get`, then a match on the value).
#[derive(Debug)]
pub enum Reference {
    Missing,
    ObjectId([u8; 12]),
    Text(String),
    Other,
}

/// Reads a field that refers to another item: an object id, or its text
/// (`Document::get`, then a match on `Bson::ObjectId` and `Bson::String`).
#[verifier::external_body]
pub(crate) fn get_reference(d: &Document, key: &str) -> (r: Reference)
    ensures
        match field(*d, key@) {
            None => r is Missing,
            Some(FieldValue::ObjectId(b)) => r matches Reference::ObjectId(x) && x@ == b,
            Some(FieldValue::Text(s)) => r matches Reference::Text(x) && x@ == s,
            Some(_) => r is Other,
        },
{
    match d.get(key) {
        None => Reference::Missing,
        Some(Bson::ObjectId(id)) => Reference::ObjectId(id.bytes()),
        Some(Bson::String(s)) => Reference::Text(s.clone()),
        Some(_) => Reference::Other,
    }
}

} // verus!
