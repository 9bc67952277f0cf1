use inventory::catalog::{
    check_name_available, deleted_item, deleted_preference, document_id, found_preference,
    id_filter, inserted_named_entity, inserted_preference, named_entity_from_document,
    object_id_of, other_with_name_filter, preference_document, preference_from_document,
    preference_request, preference_update_matched, preference_update_request,
    referenced_entity, rename_request, set_text_update, sort_order, text_filter,
    text_of, updated_named_entity, NamedEntity, NamedEntityDto, PreferenceDto,
};
use inventory::document::{format_error, insert_i64, insert_text, AccessError, Reference};
use inventory::entries::{
    created_entry, data_entry_document, data_entry_document_at, data_entry_from_document,
    data_entry_part_id, entry_replacement, entry_total_overflows, found_entry,
    i64_from_document, object_id_from_reference, optional_string_from_document,
    rejection_reason_ids, string_from_document,
    DataEntryDto, RejectionItemDto,
};
use mongodb::bson::{oid::ObjectId, Bson, Document};

const PART: &str = "65a1b2c3d4e5f60718293a4b";
const REASON: &str = "65a1b2c3d4e5f60718293a4c";

fn oid(text: &str) -> ObjectId {
    ObjectId::parse_str(text).unwrap()
}

fn entity_doc(id: &str, name: &str) -> Document {
    let mut d = Document::new();
    d.insert("_id", oid(id));
    d.insert("name", name);
    d
}

fn sample_input() -> DataEntryDto {
    DataEntryDto {
        date: "2024-03-01".to_string(),
        shift: "Day".to_string(),
        inspector_name: "  Ann Lee ".to_string(),
        part: PART.to_string(),
        number_of_parts: 120,
        rejections: vec![
            RejectionItemDto { reason: REASON.to_string(), number_of_rejections: 3 },
            RejectionItemDto { reason: PART.to_string(), number_of_rejections: 4 },
        ],
        lot_number: " L-7 ".to_string(),
    }
}

#[test]
fn access_errors_read_like_bson() {
    assert_eq!(format_error(AccessError::NotPresent), "field is not present");
    assert_eq!(
        format_error(AccessError::UnexpectedType),
        "field does not have the expected type"
    );
    let d = Document::new();
    assert_eq!(
        format_error(AccessError::NotPresent),
        d.get_str("x").unwrap_err().to_string()
    );
}

#[test]
fn entities_are_read_from_documents() {
    let e = named_entity_from_document(entity_doc(PART, "Brake Pad")).unwrap();
    assert_eq!(e.id, PART);
    assert_eq!(e.name, "Brake Pad");
}

#[test]
fn entity_without_id_or_name_is_refused() {
    let mut d = Document::new();
    d.insert("name", "x");
    assert_eq!(named_entity_from_document(d).unwrap_err(), "field is not present");
    let mut d = Document::new();
    d.insert("_id", oid(PART));
    d.insert("name", 5i32);
    assert_eq!(
        named_entity_from_document(d).unwrap_err(),
        "field does not have the expected type"
    );
    let mut d = Document::new();
    d.insert("_id", "not an id");
    assert_eq!(document_id(&d).unwrap_err(), "field does not have the expected type");
    assert_eq!(object_id_of(&d).unwrap_err(), "field does not have the expected type");
}

#[test]
fn preferences_are_read_from_documents() {
    let mut d = entity_doc(PART, "Theme");
    d.insert("value", "dark");
    let p = preference_from_document(d).unwrap();
    assert_eq!((p.id.as_str(), p.name.as_str(), p.value.as_str()), (PART, "Theme", "dark"));
    let d = entity_doc(PART, "Theme");
    assert_eq!(preference_from_document(d).unwrap_err(), "field is not present");
}

#[test]
fn taken_names_are_refused() {
    assert!(check_name_available("Bolt", false).is_ok());
    assert_eq!(check_name_available("Bolt", true).unwrap_err(), "Bolt already exists");
}

#[test]
fn inserted_entities_take_the_returned_id() {
    let e = inserted_named_entity(Some(oid(PART).bytes()), "Bolt".to_string()).unwrap();
    assert_eq!((e.id.as_str(), e.name.as_str()), (PART, "Bolt"));
    assert_eq!(
        inserted_named_entity(None, "Bolt".to_string()).unwrap_err(),
        "MongoDB did not return an inserted id"
    );
    let p = inserted_preference(Some(oid(REASON).bytes()), "A".into(), "b".into()).unwrap();
    assert_eq!(p.id, REASON);
    assert!(inserted_preference(None, "A".into(), "b".into()).is_err());
}

#[test]
fn renames_check_id_then_name() {
    let input = NamedEntityDto { name: "  new   NAME ".to_string() };
    let (id, name) = rename_request("parts", PART, &input).unwrap();
    assert_eq!(id, oid(PART).bytes());
    assert_eq!(name, "New Name");
    assert_eq!(rename_request("parts", "bad", &input).unwrap_err(), "Invalid parts id");
    let blank = NamedEntityDto { name: " ".to_string() };
    assert_eq!(rename_request("parts", PART, &blank).unwrap_err(), "Name is required");
    assert_eq!(rename_request("parts", "bad", &blank).unwrap_err(), "Invalid parts id");
}

#[test]
fn updates_and_deletes_need_a_match() {
    let e = updated_named_entity(PART.to_string(), "A".to_string(), 1).unwrap();
    assert_eq!(e.id, PART);
    assert_eq!(
        updated_named_entity("abc".to_string(), "A".to_string(), 0).unwrap_err(),
        "Item with id abc was not found"
    );
    assert_eq!(deleted_item("abc".to_string(), 1).unwrap(), "abc");
    assert_eq!(deleted_item("abc".to_string(), 0).unwrap_err(), "Item with id abc was not found");
}

#[test]
fn references_must_be_found() {
    assert_eq!(
        referenced_entity("parts", None).unwrap_err(),
        "Referenced parts item was not found"
    );
    let e = referenced_entity("parts", Some(entity_doc(PART, "Bolt"))).unwrap();
    assert_eq!(e.name, "Bolt");
}

#[test]
fn filters_have_the_expected_shape() {
    let d = id_filter(oid(PART).bytes());
    assert_eq!(d.get_object_id("_id").unwrap(), oid(PART));
    assert_eq!(d.len(), 1);
    let d = text_filter("name", "Bolt");
    assert_eq!(d.get_str("name").unwrap(), "Bolt");
    let d = other_with_name_filter("Bolt", oid(PART).bytes());
    let keys: Vec<&String> = d.keys().collect();
    assert_eq!(keys, vec!["name", "_id"]);
    assert_eq!(d.get_document("_id").unwrap().get_object_id("$ne").unwrap(), oid(PART));
    let d = set_text_update("value", "dark");
    assert_eq!(d.get_document("$set").unwrap().get_str("value").unwrap(), "dark");
    let d = sort_order("date", -1);
    assert_eq!(d.get_i32("date").unwrap(), -1);
    let d = preference_document("Theme", "dark");
    let keys: Vec<&String> = d.keys().collect();
    assert_eq!(keys, vec!["name", "value"]);
}

#[test]
fn preference_requests_are_checked() {
    let input = PreferenceDto { name: " report  title".to_string(), value: " Q1 ".to_string() };
    let (name, value) = preference_request(&input).unwrap();
    assert_eq!((name.as_str(), value.as_str()), ("Report Title", "Q1"));
    let no_name = PreferenceDto { name: "".to_string(), value: "".to_string() };
    assert_eq!(preference_request(&no_name).unwrap_err(), "Name is required");
    let no_value = PreferenceDto { name: "a".to_string(), value: "  ".to_string() };
    assert_eq!(preference_request(&no_value).unwrap_err(), "Preference value is required");
    let (n, v) = preference_update_request(" Theme ", " dark ").unwrap();
    assert_eq!((n.as_str(), v.as_str()), ("Theme", "dark"));
    assert_eq!(
        preference_update_request(" ", "dark").unwrap_err(),
        "Preference name is required"
    );
    assert_eq!(
        preference_update_request("a", " ").unwrap_err(),
        "Preference value is required"
    );
}

#[test]
fn missing_preferences_are_named_as_asked() {
    assert_eq!(
        found_preference(" theme ", None).unwrap_err(),
        "Preference  theme  was not found"
    );
    assert!(preference_update_matched("x", 1).is_ok());
    assert_eq!(preference_update_matched("x", 0).unwrap_err(), "Preference x was not found");
    assert_eq!(deleted_preference(" x", "x".into(), 1).unwrap(), "x");
    assert_eq!(
        deleted_preference(" x", "x".into(), 0).unwrap_err(),
        "Preference  x was not found"
    );
}

#[test]
fn entry_documents_hold_the_record() {
    let d = data_entry_document_at(sample_input(), None, "NOW".to_string()).unwrap();
    let keys: Vec<&String> = d.keys().collect();
    assert_eq!(
        keys,
        vec![
            "date",
            "shift",
            "inspectorName",
            "part",
            "numberOfParts",
            "rejections",
            "totalRejections",
            "lotNumber",
            "updatedAt",
            "createdAt"
        ]
    );
    assert_eq!(d.get_str("inspectorName").unwrap(), "Ann Lee");
    assert_eq!(d.get_str("lotNumber").unwrap(), "L-7");
    assert_eq!(d.get_object_id("part").unwrap(), oid(PART));
    assert_eq!(d.get_i64("numberOfParts").unwrap(), 120);
    assert_eq!(d.get_i64("totalRejections").unwrap(), 7);
    assert_eq!(d.get_str("updatedAt").unwrap(), "NOW");
    assert_eq!(d.get_str("createdAt").unwrap(), "NOW");
    let items = d.get_array("rejections").unwrap();
    assert_eq!(items.len(), 2);
    match &items[1] {
        Bson::Document(x) => {
            assert_eq!(x.get_object_id("reason").unwrap(), oid(PART));
            assert_eq!(x.get_i64("numberOfRejections").unwrap(), 4);
        }
        _ => panic!("not a document"),
    }
}

#[test]
fn entry_documents_keep_a_given_creation_time() {
    let d = data_entry_document_at(sample_input(), Some("THEN".into()), "NOW".into()).unwrap();
    assert_eq!(d.get_str("createdAt").unwrap(), "THEN");
    assert_eq!(d.get_str("updatedAt").unwrap(), "NOW");
    let d = data_entry_document(sample_input(), None).unwrap();
    assert_eq!(d.get_str("createdAt").unwrap(), d.get_str("updatedAt").unwrap());
}

#[test]
fn records_are_stamped_with_a_utc_time() {
    let d = data_entry_document(sample_input(), Some("THEN".into())).unwrap();
    let now = d.get_str("updatedAt").unwrap();
    let b = now.as_bytes();
    assert!(now.ends_with("+00:00"), "{now}");
    let digit = |i: usize| b[i].is_ascii_digit();
    let two = |i: usize| ((b[i] - b'0') * 10 + (b[i + 1] - b'0')) as u32;
    assert!((0..4).all(digit), "{now}");
    assert_eq!((b[4], b[7], b[10], b[13], b[16]), (b'-', b'-', b'T', b':', b':'));
    assert!([5, 6, 8, 9, 11, 12, 14, 15, 17, 18].into_iter().all(digit), "{now}");
    assert!((1..=12).contains(&two(5)) && (1..=31).contains(&two(8)), "{now}");
    assert!(two(11) <= 23 && two(14) <= 59 && two(17) <= 60, "{now}");
    let fraction = &now[19..now.len() - 6];
    assert!(
        fraction.is_empty()
            || ([4, 7, 10].contains(&fraction.len())
                && fraction.starts_with('.')
                && fraction[1..].bytes().all(|c| c.is_ascii_digit())),
        "{now}"
    );
    assert_eq!(d.get_str("createdAt").unwrap(), "THEN");
}

#[test]
fn entry_errors_come_in_order() {
    let mut i = sample_input();
    i.shift = "day".into();
    i.lot_number = "".into();
    assert_eq!(data_entry_document_at(i, None, "N".into()).unwrap_err(), "Shift must be Day or Night");
    let mut i = sample_input();
    i.inspector_name = " ".into();
    assert_eq!(data_entry_document_at(i, None, "N".into()).unwrap_err(), "Inspector name is required");
    let mut i = sample_input();
    i.lot_number = "\t".into();
    assert_eq!(data_entry_document_at(i, None, "N".into()).unwrap_err(), "Lot number is required");
    let mut i = sample_input();
    i.number_of_parts = -1;
    assert_eq!(
        data_entry_document_at(i, None, "N".into()).unwrap_err(),
        "Number of parts cannot be negative"
    );
    let mut i = sample_input();
    i.part = "nope".into();
    assert_eq!(data_entry_document_at(i, None, "N".into()).unwrap_err(), "Invalid part id");
    let mut i = sample_input();
    i.rejections[0].number_of_rejections = -2;
    i.rejections[1].reason = "bad".into();
    assert_eq!(
        data_entry_document_at(i, None, "N".into()).unwrap_err(),
        "Number of rejections cannot be negative"
    );
    let mut i = sample_input();
    i.rejections[0].reason = "bad".into();
    i.rejections[1].number_of_rejections = -2;
    assert_eq!(data_entry_document_at(i, None, "N".into()).unwrap_err(), "Invalid rejection id");
}

#[test]
fn night_shift_and_no_rejections_are_fine() {
    let mut i = sample_input();
    i.shift = "Night".into();
    i.rejections.clear();
    let d = data_entry_document_at(i, None, "N".into()).unwrap();
    assert_eq!(d.get_i64("totalRejections").unwrap(), 0);
    assert!(d.get_array("rejections").unwrap().is_empty());
}

#[test]
fn total_overflow_is_detected_where_it_would_happen() {
    let mut i = sample_input();
    assert!(!entry_total_overflows(&i));
    i.rejections[0].number_of_rejections = i64::MAX;
    assert!(entry_total_overflows(&i));
    i.rejections[0].reason = "bad".into();
    assert!(!entry_total_overflows(&i));
    let mut i = sample_input();
    i.rejections[0].number_of_rejections = i64::MAX;
    i.shift = "x".into();
    assert!(!entry_total_overflows(&i));
}

fn stored_entry() -> Document {
    let mut d = data_entry_document_at(sample_input(), Some("THEN".into()), "NOW".into()).unwrap();
    d.insert("_id", oid("65a1b2c3d4e5f60718293a4d"));
    d
}

#[test]
fn stored_entries_are_read_back() {
    let d = stored_entry();
    assert_eq!(data_entry_part_id(&d).unwrap(), oid(PART).bytes());
    let ids = rejection_reason_ids(&d);
    assert_eq!(ids.len(), 2);
    assert_eq!(ids[0].clone().unwrap(), oid(REASON).bytes());
    let part = NamedEntity { id: PART.into(), name: "Bolt".into() };
    let reasons = vec![
        NamedEntity { id: REASON.into(), name: "Crack".into() },
        NamedEntity { id: PART.into(), name: "Dent".into() },
    ];
    let e = data_entry_from_document(d, part, reasons).unwrap();
    assert_eq!(e.id, "65a1b2c3d4e5f60718293a4d");
    assert_eq!(e.inspector_name, "Ann Lee");
    assert_eq!(e.part.name, "Bolt");
    assert_eq!(e.rejections.len(), 2);
    assert_eq!(e.rejections[1].reason.name, "Dent");
    assert_eq!(e.rejections[1].id, PART);
    assert_eq!(e.rejections[1].number_of_rejections, 4);
    assert_eq!(e.total_rejections, 7);
    assert_eq!(e.created_at.as_deref(), Some("THEN"));
    assert_eq!(e.updated_at.as_deref(), Some("NOW"));
}

#[test]
fn loose_fields_fall_back() {
    let mut d = Document::new();
    d.insert("_id", oid(PART));
    d.insert("part", PART);
    d.insert("numberOfParts", 12i32);
    d.insert("date", 5i32);
    let mut arr = vec![Bson::Int32(1)];
    let mut sub = Document::new();
    sub.insert("reason", 7i32);
    arr.push(Bson::Document(sub));
    d.insert("rejections", arr);
    assert_eq!(i64_from_document(&d, "numberOfParts"), 12);
    assert_eq!(i64_from_document(&d, "totalRejections"), 0);
    assert_eq!(string_from_document(&d, "date"), "");
    assert_eq!(data_entry_part_id(&d).unwrap(), oid(PART).bytes());
    let ids = rejection_reason_ids(&d);
    assert_eq!(ids.len(), 1);
    assert_eq!(ids[0].clone().unwrap_err(), "Missing rejection id");
    let e = data_entry_from_document(
        d,
        NamedEntity { id: PART.into(), name: "P".into() },
        vec![NamedEntity { id: REASON.into(), name: "R".into() }],
    )
    .unwrap();
    assert_eq!(e.number_of_parts, 12);
    assert_eq!(e.rejections[0].number_of_rejections, 0);
    assert_eq!(e.created_at, None);
}

#[test]
fn references_take_ids_or_their_text() {
    assert_eq!(object_id_from_reference(Reference::ObjectId([1; 12]), "part").unwrap(), [1; 12]);
    assert_eq!(
        object_id_from_reference(Reference::Text(PART.into()), "part").unwrap(),
        oid(PART).bytes()
    );
    assert_eq!(
        object_id_from_reference(Reference::Text("bad".into()), "part").unwrap_err(),
        "Invalid part id"
    );
    assert_eq!(object_id_from_reference(Reference::Missing, "part").unwrap_err(), "Missing part id");
    assert_eq!(object_id_from_reference(Reference::Other, "part").unwrap_err(), "Missing part id");
}

#[test]
fn edited_entries_keep_their_creation_time() {
    let existing = stored_entry();
    let mut input = sample_input();
    input.number_of_parts = 5;
    let id = oid("65a1b2c3d4e5f60718293a4d").bytes();
    let d = entry_replacement(&existing, input, id).unwrap();
    assert_eq!(d.get_str("createdAt").unwrap(), "THEN");
    assert_eq!(d.get_i64("numberOfParts").unwrap(), 5);
    assert_eq!(d.keys().last().unwrap(), "_id");
    assert_eq!(d.get_object_id("_id").unwrap().bytes(), id);
}

#[test]
fn entry_lookups_report_what_is_missing() {
    assert_eq!(created_entry(None).unwrap_err(), "Created data entry was not found");
    assert!(created_entry(Some(Document::new())).is_ok());
    assert_eq!(found_entry("abc", None).unwrap_err(), "Data entry with id abc was not found");
    assert!(found_entry("abc", Some(Document::new())).is_ok());
}

#[test]
fn reading_a_field_gives_what_was_set() {
    let mut d = Document::new();
    insert_text(&mut d, "a", "x".into());
    insert_i64(&mut d, "b", 5);
    insert_text(&mut d, "a", "y".into());
    let keys: Vec<&String> = d.keys().collect();
    assert_eq!(keys, vec!["a", "b"]);
    assert_eq!(text_of(&d, "a").unwrap(), "y");
    assert_eq!(i64_from_document(&d, "b"), 5);
    assert_eq!(text_of(&d, "b").unwrap_err(), format_error(AccessError::UnexpectedType));
    assert_eq!(text_of(&d, "c").unwrap_err(), format_error(AccessError::NotPresent));
    assert_eq!(object_id_of(&d).unwrap_err(), format_error(AccessError::NotPresent));
    assert_eq!(string_from_document(&d, "b"), "");
    assert_eq!(optional_string_from_document(&d, "a"), Some("y".to_string()));
    assert_eq!(optional_string_from_document(&d, "c"), None);
}

#[test]
fn arrays_and_references_are_read_item_by_item() {
    let mut d = Document::new();
    let mut first = Document::new();
    first.insert("reason", oid(PART));
    let mut second = Document::new();
    second.insert("reason", "not an id");
    d.insert(
        "rejections",
        vec![Bson::Int32(3), Bson::Document(first), Bson::Document(second)],
    );
    d.insert("part", PART);
    let ids = rejection_reason_ids(&d);
    assert_eq!(ids.len(), 2);
    assert_eq!(ids[0], Ok(oid(PART).bytes()));
    assert_eq!(ids[1], Err("Invalid rejection id".to_string()));
    assert_eq!(data_entry_part_id(&d).unwrap(), oid(PART).bytes());

    let mut not_array = Document::new();
    not_array.insert("rejections", oid(PART));
    not_array.insert("part", 1i64);
    assert!(rejection_reason_ids(&not_array).is_empty());
    assert!(rejection_reason_ids(&Document::new()).is_empty());
    assert_eq!(data_entry_part_id(&not_array).unwrap_err(), "Missing part id");
    assert_eq!(data_entry_part_id(&Document::new()).unwrap_err(), "Missing part id");
}
