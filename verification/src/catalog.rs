use vstd::prelude::*;

use mongodb::bson::Document;

use crate::document::{
    access, access_error_text, format_error, get_object_id, get_text,
    insert_document, insert_i32, insert_object_id, insert_text, lemma_insert_new_key, new_document, pick_object_id,
    pick_text, document_fields, FieldValue,
};
use crate::names::{display_name, normalize_name, normalize_preference_name};
use crate::object_id::{
    hex_text, invalid_id_message, is_object_id_text, object_id_bytes, object_id_hex,
    parse_object_id,
};
use crate::text::{trim, trim_str};

verus! {

/// A part or a rejection reason: an id and a name.
#[derive(Debug, Clone)]
pub struct NamedEntity {
    pub id: String,
    pub name: String,
}

/// A named setting of the application.
#[derive(Debug, Clone)]
pub struct Preference {
    pub id: String,
    pub name: String,
    pub value: String,
}

/// The input that creates or renames a part or a rejection reason.
#[derive(Debug, Clone)]
pub struct NamedEntityDto {
    pub name: String,
}

/// The input that creates a preference.
#[derive(Debug, Clone)]
pub struct PreferenceDto {
    pub name: String,
    pub value: String,
}

/// The id of a stored document as hexadecimal text, or the message of the failed read.
pub open spec fn id_field(d: Document) -> Result<Seq<char>, Seq<char>> {
    match access(d, "_id"@, |v: FieldValue| pick_object_id(v)) {
        Ok(b) => Ok(hex_text(b)),
        Err(e) => Err(access_error_text(e)),
    }
}

/// A text field of a stored document, or the message of the failed read.
pub open spec fn text_field(d: Document, key: Seq<char>) -> Result<Seq<char>, Seq<char>> {
    match access(d, key, |v: FieldValue| pick_text(v)) {
        Ok(s) => Ok(s),
        Err(e) => Err(access_error_text(e)),
    }
}

/// The id and name that a stored document gives, or the message of the first failed read.
pub open spec fn entity_of(d: Document) -> Result<(Seq<char>, Seq<char>), Seq<char>> {
    match id_field(d) {
        Err(m) => Err(m),
        Ok(id) => match text_field(d, "name"@) {
            Err(m) => Err(m),
            Ok(name) => Ok((id, name)),
        },
    }
}

/// The id, name and value that a stored document gives, or the message of the first
/// failed read.
pub open spec fn preference_of(d: Document) -> Result<(Seq<char>, Seq<char>, Seq<char>), Seq<char>> {
    match id_field(d) {
        Err(m) => Err(m),
        Ok(id) => match text_field(d, "name"@) {
            Err(m) => Err(m),
            Ok(name) => match text_field(d, "value"@) {
                Err(m) => Err(m),
                Ok(value) => Ok((id, name, value)),
            },
        },
    }
}

/// Whether `r` is the entity `want`, or fails with its message.
pub open spec fn entity_result(r: Result<NamedEntity, String>, want: Result<(Seq<char>, Seq<char>), Seq<char>>) -> bool {
    match (r, want) {
        (Ok(e), Ok((id, name))) => e.id@ == id && e.name@ == name,
        (Err(m), Err(x)) => m@ == x,
        _ => false,
    }
}

/// Whether `r` is the preference `want`, or fails with its message.
pub open spec fn preference_result(
    r: Result<Preference, String>,
    want: Result<(Seq<char>, Seq<char>, Seq<char>), Seq<char>>,
) -> bool {
    match (r, want) {
        (Ok(p), Ok((id, name, value))) => p.id@ == id && p.name@ == name && p.value@ == value,
        (Err(m), Err(x)) => m@ == x,
        _ => false,
    }
}

/// The id of a stored document, as hexadecimal text.
pub fn document_id(document: &Document) -> (r: Result<String, String>)
    ensures
        match (r, id_field(*document)) {
            (Ok(s), Ok(t)) => s@ == t,
            (Err(m), Err(x)) => m@ == x,
            _ => false,
        },
{
    match get_object_id(document, "_id") {
        Ok(id) => Ok(object_id_hex(id)),
        Err(e) => Err(format_error(e)),
    }
}

/// The object id of a stored document.
pub fn object_id_of(document: &Document) -> (r: Result<[u8; 12], String>)
    ensures
        match (r, access(*document, "_id"@, |v: FieldValue| pick_object_id(v))) {
            (Ok(b), Ok(w)) => b@ == w,
            (Err(m), Err(e)) => m@ == access_error_text(e),
            _ => false,
        },
{
    match get_object_id(document, "_id") {
        Ok(id) => Ok(id),
        Err(e) => Err(format_error(e)),
    }
}

/// Reads a text field, failing with the message of the failed read.
pub fn text_of(document: &Document, key: &str) -> (r: Result<String, String>)
    ensures
        match (r, text_field(*document, key@)) {
            (Ok(s), Ok(t)) => s@ == t,
            (Err(m), Err(x)) => m@ == x,
            _ => false,
        },
{
    match get_text(document, key) {
        Ok(s) => Ok(s),
        Err(e) => Err(format_error(e)),
    }
}

/// The part or rejection reason that a stored document holds.
pub fn named_entity_from_document(document: Document) -> (r: Result<NamedEntity, String>)
    ensures
        entity_result(r, entity_of(document)),
{
    let id = document_id(&document)?;
    let name = text_of(&document, "name")?;
    Ok(NamedEntity { id, name })
}

/// The preference that a stored document holds.
pub fn preference_from_document(document: Document) -> (r: Result<Preference, String>)
    ensures
        preference_result(r, preference_of(document)),
{
    let id = document_id(&document)?;
    let name = text_of(&document, "name")?;
    let value = text_of(&document, "value")?;
    Ok(Preference { id, name, value })
}

/// The message for a name that another item already has.
pub open spec fn already_exists_message(name: Seq<char>) -> Seq<char> {
    name + " already exists"@
}

/// Refuses a name that another item of the collection already has.
pub fn check_name_available(name: &str, taken: bool) -> (r: Result<(), String>)
    ensures
        r is Ok <==> !taken,
        r matches Err(m) ==> m@ == already_exists_message(name@),
{
    if taken {
        let mut m = name.to_owned();
        m.append(" already exists");
        Err(m)
    } else {
        Ok(())
    }
}

/// The message for an insertion whose id did not come back as an object id.
pub open spec fn missing_inserted_id_message() -> Seq<char> {
    "MongoDB did not return an inserted id"@
}

/// The object id that an insertion returned; any other inserted id is refused.
pub fn inserted_object_id(inserted_id: Option<[u8; 12]>) -> (r: Result<[u8; 12], String>)
    ensures
        r is Ok <==> inserted_id is Some,
        r matches Ok(b) ==> inserted_id == Some(b),
        r matches Err(m) ==> m@ == missing_inserted_id_message(),
{
    match inserted_id {
        Some(id) => Ok(id),
        None => Err("MongoDB did not return an inserted id".to_owned()),
    }
}

/// The part or rejection reason that was just inserted under the name `name`.
pub fn inserted_named_entity(inserted_id: Option<[u8; 12]>, name: String) -> (r: Result<NamedEntity, String>)
    ensures
        r is Ok <==> inserted_id is Some,
        r matches Ok(e) ==> e.id@ == hex_text(inserted_id->0@) && e.name == name,
        r matches Err(m) ==> m@ == missing_inserted_id_message(),
{
    let id = inserted_object_id(inserted_id)?;
    Ok(NamedEntity { id: object_id_hex(id), name })
}

/// The message for an id that names no item of the collection.
pub open spec fn item_not_found_message(id: Seq<char>) -> Seq<char> {
    "Item with id "@ + id + " was not found"@
}

/// The renamed part or rejection reason, once the update matched `matched_count` items.
pub fn updated_named_entity(id: String, name: String, matched_count: u64) -> (r: Result<NamedEntity, String>)
    ensures
        r is Ok <==> matched_count > 0,
        r matches Ok(e) ==> e.id == id && e.name == name,
        r matches Err(m) ==> m@ == item_not_found_message(id@),
{
    if matched_count == 0 {
        let mut m = "Item with id ".to_owned();
        m.append(id.as_str());
        m.append(" was not found");
        return Err(m);
    }
    Ok(NamedEntity { id, name })
}

/// The id and the new name of a rename: the id must be an object id (the error names
/// the collection), the name is normalized for display.
pub fn rename_request(collection_name: &str, id: &str, input: &NamedEntityDto) -> (r: Result<([u8; 12], String), String>)
    ensures
        r is Ok <==> is_object_id_text(id@) && display_name(input.name@).len() > 0,
        r matches Ok((b, n)) ==> b@ == object_id_bytes(id@) && n@ == display_name(input.name@),
        r matches Err(m) ==> if is_object_id_text(id@) {
            m@ == "Name is required"@
        } else {
            m@ == invalid_id_message(collection_name@)
        },
{
    let object_id = parse_object_id(id, collection_name)?;
    let name = normalize_name(input.name.as_str())?;
    Ok((object_id, name))
}

/// The outcome of deleting the item with id `id`, once `deleted_count` items went.
pub fn deleted_item(id: String, deleted_count: u64) -> (r: Result<String, String>)
    ensures
        r is Ok <==> deleted_count > 0,
        r matches Ok(s) ==> s == id,
        r matches Err(m) ==> m@ == item_not_found_message(id@),
{
    if deleted_count == 0 {
        let mut m = "Item with id ".to_owned();
        m.append(id.as_str());
        m.append(" was not found");
        Err(m)
    } else {
        Ok(id)
    }
}

/// The message for a reference to an item that is not stored.
pub open spec fn referenced_not_found_message(collection_name: Seq<char>) -> Seq<char> {
    "Referenced "@ + collection_name + " item was not found"@
}

/// The referenced part or rejection reason, from the document that the lookup found.
pub fn referenced_entity(collection_name: &str, found: Option<Document>) -> (r: Result<NamedEntity, String>)
    ensures
        match found {
            None => r matches Err(m) && m@ == referenced_not_found_message(collection_name@),
            Some(d) => entity_result(r, entity_of(d)),
        },
{
    match found {
        None => {
            let mut m = "Referenced ".to_owned();
            m.append(collection_name);
            m.append(" item was not found");
            Err(m)
        },
        Some(d) => named_entity_from_document(d),
    }
}

/// The filter `{ "_id": id }`.
pub fn id_filter(id: [u8; 12]) -> (d: Document)
    ensures
        document_fields(d) == seq![("_id"@, FieldValue::ObjectId(id@))],
{
    let mut d = new_document();
    insert_object_id(&mut d, "_id", id);
    d
}

/// The filter `{ key: value }` on a text field.
pub fn text_filter(key: &str, value: &str) -> (d: Document)
    ensures
        document_fields(d) == seq![(key@, FieldValue::Text(value@))],
{
    let mut d = new_document();
    insert_text(&mut d, key, value.to_owned());
    d
}

/// The filter `{ "name": name, "_id": { "$ne": id } }`: another item with the name.
pub fn other_with_name_filter(name: &str, id: [u8; 12]) -> (d: Document)
    ensures
        document_fields(d).len() == 2,
        document_fields(d)[0] == ("name"@, FieldValue::Text(name@)),
        document_fields(d)[1].0 == "_id"@,
        document_fields(d)[1].1 matches FieldValue::Doc(x) && document_fields(x) == seq![
            ("$ne"@, FieldValue::ObjectId(id@)),
        ],
{
    let mut not_id = new_document();
    insert_object_id(&mut not_id, "$ne", id);
    let ghost inner = not_id;
    let mut d = new_document();
    insert_text(&mut d, "name", name.to_owned());
    proof {
        reveal_strlit("name");
        reveal_strlit("_id");
        assert(document_fields(d) =~= seq![("name"@, FieldValue::Text(name@))]);
        assert("name"@.len() != "_id"@.len());
        lemma_insert_new_key(document_fields(d), "_id"@, FieldValue::Doc(inner));
    }
    insert_document(&mut d, "_id", not_id);
    d
}

/// The update `{ "$set": { key: value } }` of a text field.
pub fn set_text_update(key: &str, value: &str) -> (d: Document)
    ensures
        document_fields(d).len() == 1,
        document_fields(d)[0].0 == "$set"@,
        document_fields(d)[0].1 matches FieldValue::Doc(x) && document_fields(x) == seq![
            (key@, FieldValue::Text(value@)),
        ],
{
    let inner = text_filter(key, value);
    let ghost g = inner;
    let mut d = new_document();
    insert_document(&mut d, "$set", inner);
    assert(document_fields(d)[0].1 == FieldValue::Doc(g));
    d
}

/// The sort order `{ key: direction }`.
pub fn sort_order(key: &str, direction: i32) -> (d: Document)
    ensures
        document_fields(d) == seq![(key@, FieldValue::Int32(direction))],
{
    let mut d = new_document();
    insert_i32(&mut d, key, direction);
    d
}

/// The stored form `{ "name": name, "value": value }` of a new preference.
pub fn preference_document(name: &str, value: &str) -> (d: Document)
    ensures
        document_fields(d) == seq![
            ("name"@, FieldValue::Text(name@)),
            ("value"@, FieldValue::Text(value@)),
        ],
{
    let mut d = new_document();
    insert_text(&mut d, "name", name.to_owned());
    proof {
        reveal_strlit("name");
        reveal_strlit("value");
        assert(document_fields(d) =~= seq![("name"@, FieldValue::Text(name@))]);
        assert("name"@.len() != "value"@.len());
        lemma_insert_new_key(document_fields(d), "value"@, FieldValue::Text(value@));
    }
    insert_text(&mut d, "value", value.to_owned());
    d
}

/// The message for a preference value that is nothing but whitespace.
pub open spec fn value_required_message() -> Seq<char> {
    "Preference value is required"@
}

/// The name and value of a new preference: the name normalized for display, the value
/// without surrounding whitespace; an empty name or value is refused.
pub fn preference_request(input: &PreferenceDto) -> (r: Result<(String, String), String>)
    ensures
        r is Ok <==> display_name(input.name@).len() > 0 && trim(input.value@).len() > 0,
        r matches Ok((n, v)) ==> n@ == display_name(input.name@) && v@ == trim(input.value@),
        r matches Err(m) ==> if display_name(input.name@).len() == 0 {
            m@ == "Name is required"@
        } else {
            m@ == value_required_message()
        },
{
    let name = normalize_name(input.name.as_str())?;
    let value = trim_str(input.value.as_str());
    if value.as_str().is_empty() {
        return Err("Preference value is required".to_owned());
    }
    Ok((name, value))
}

/// The preference that was just inserted.
pub fn inserted_preference(inserted_id: Option<[u8; 12]>, name: String, value: String) -> (r: Result<Preference, String>)
    ensures
        r is Ok <==> inserted_id is Some,
        r matches Ok(p) ==> p.id@ == hex_text(inserted_id->0@) && p.name == name && p.value == value,
        r matches Err(m) ==> m@ == missing_inserted_id_message(),
{
    let id = inserted_object_id(inserted_id)?;
    Ok(Preference { id: object_id_hex(id), name, value })
}

/// The message for a preference that is not stored; it names the preference as asked.
pub open spec fn preference_not_found_message(name: Seq<char>) -> Seq<char> {
    "Preference "@ + name + " was not found"@
}

/// Refuses an absent preference, naming it as it was asked for.
pub fn preference_not_found(name: &str) -> (r: String)
    ensures
        r@ == preference_not_found_message(name@),
{
    let mut m = "Preference ".to_owned();
    m.append(name);
    m.append(" was not found");
    m
}

/// The preference asked for as `name`, from the document that the lookup found.
pub fn found_preference(name: &str, found: Option<Document>) -> (r: Result<Preference, String>)
    ensures
        match found {
            None => r matches Err(m) && m@ == preference_not_found_message(name@),
            Some(d) => preference_result(r, preference_of(d)),
        },
{
    match found {
        None => Err(preference_not_found(name)),
        Some(d) => preference_from_document(d),
    }
}

/// The name and value of a preference update: the name without surrounding
/// whitespace, then the value likewise; an empty one is refused.
pub fn preference_update_request(name: &str, value: &str) -> (r: Result<(String, String), String>)
    ensures
        r is Ok <==> trim(name@).len() > 0 && trim(value@).len() > 0,
        r matches Ok((n, v)) ==> n@ == trim(name@) && v@ == trim(value@),
        r matches Err(m) ==> if trim(name@).len() == 0 {
            m@ == "Preference name is required"@
        } else {
            m@ == value_required_message()
        },
{
    let name = normalize_preference_name(name)?;
    let value = trim_str(value);
    if value.as_str().is_empty() {
        return Err("Preference value is required".to_owned());
    }
    Ok((name, value))
}

/// Refuses an update of the preference asked for as `name` that matched nothing.
pub fn preference_update_matched(name: &str, matched_count: u64) -> (r: Result<(), String>)
    ensures
        r is Ok <==> matched_count > 0,
        r matches Err(m) ==> m@ == preference_not_found_message(name@),
{
    if matched_count == 0 {
        Err(preference_not_found(name))
    } else {
        Ok(())
    }
}

/// The outcome of deleting the preference asked for as `name` and stored as
/// `normalized_name`, once `deleted_count` documents went.
pub fn deleted_preference(name: &str, normalized_name: String, deleted_count: u64) -> (r: Result<String, String>)
    ensures
        r is Ok <==> deleted_count > 0,
        r matches Ok(s) ==> s == normalized_name,
        r matches Err(m) ==> m@ == preference_not_found_message(name@),
{
    if deleted_count == 0 {
        Err(preference_not_found(name))
    } else {
        Ok(normalized_name)
    }
}

} // verus!
