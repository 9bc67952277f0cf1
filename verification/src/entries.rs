use vstd::prelude::*;

use mongodb::bson::Document;

use crate::catalog::{document_id, id_field, NamedEntity};
use crate::document::{
    access, document_fields, field, field_in, fields_insert, lemma_field_at, get_array, get_i32, get_i64, get_reference,
    get_text, item_matches, ArrayItem, insert_documents, insert_i64, insert_object_id,
    insert_text, lemma_insert_new_key, new_document, pick_array, pick_i32, pick_i64, pick_text,
    FieldValue, Reference,
};
use crate::object_id::{invalid_id_message, is_object_id_text, object_id_bytes, parse_object_id};
use crate::text::{trim, trim_str};

verus! {

/// One rejection reason of an inspection, as the user enters it.
#[derive(Debug, Clone)]
pub struct RejectionItemDto {
    /// The id of the rejection reason.
    pub reason: String,
    pub number_of_rejections: i64,
}

/// An inspection record, as the user enters it.
#[derive(Debug, Clone)]
pub struct DataEntryDto {
    pub date: String,
    pub shift: String,
    pub inspector_name: String,
    /// The id of the inspected part.
    pub part: String,
    pub number_of_parts: i64,
    pub rejections: Vec<RejectionItemDto>,
    pub lot_number: String,
}

/// The message for the first field of an inspection record that is refused, before
/// its rejections are looked at.
pub open spec fn header_error(input: DataEntryDto) -> Option<Seq<char>> {
    if !(input.shift@ == "Day"@ || input.shift@ == "Night"@) {
        Some("Shift must be Day or Night"@)
    } else if trim(input.inspector_name@).len() == 0 {
        Some("Inspector name is required"@)
    } else if trim(input.lot_number@).len() == 0 {
        Some("Lot number is required"@)
    } else if input.number_of_parts < 0 {
        Some("Number of parts cannot be negative"@)
    } else if !is_object_id_text(input.part@) {
        Some(invalid_id_message("part"@))
    } else {
        None
    }
}

/// The message for a refused rejection item, if it is refused.
pub open spec fn item_error(item: RejectionItemDto) -> Option<Seq<char>> {
    if item.number_of_rejections < 0 {
        Some("Number of rejections cannot be negative"@)
    } else if !is_object_id_text(item.reason@) {
        Some(invalid_id_message("rejection"@))
    } else {
        None
    }
}

/// The message for the first refused rejection item, if any.
pub open spec fn items_error(items: Seq<RejectionItemDto>) -> Option<Seq<char>>
    decreases items.len(),
{
    if items.len() == 0 {
        None
    } else if item_error(items[0]) is Some {
        item_error(items[0])
    } else {
        items_error(items.drop_first())
    }
}

/// The message for the first refused part of an inspection record, if any.
pub open spec fn entry_error(input: DataEntryDto) -> Option<Seq<char>> {
    if header_error(input) is Some {
        header_error(input)
    } else {
        items_error(input.rejections@)
    }
}

/// The sum of the rejection counts of `items`.
pub open spec fn rejection_total(items: Seq<RejectionItemDto>) -> int
    decreases items.len(),
{
    if items.len() == 0 {
        0
    } else {
        rejection_total(items.drop_last()) + items.last().number_of_rejections
    }
}

/// Every running total that the record's validation adds up fits in an `i64`: the
/// counts of the items up to and including the first refused one, if it is refused
/// only for its reason id.
pub open spec fn totals_fit(items: Seq<RejectionItemDto>) -> bool {
    forall|k: int|
        0 <= k < items.len() && (forall|j: int| 0 <= j < k ==> #[trigger] item_error(items[j]) is None)
            && items[k].number_of_rejections >= 0 ==> rejection_total(items.take(k + 1))
            <= i64::MAX
}

/// The stored fields of one rejection item.
pub open spec fn rejection_fields(item: RejectionItemDto) -> Seq<(Seq<char>, FieldValue)> {
    seq![
        ("reason"@, FieldValue::ObjectId(object_id_bytes(item.reason@))),
        ("numberOfRejections"@, FieldValue::Int64(item.number_of_rejections)),
    ]
}

/// Whether `d` is the stored form of the record `input`, created at `created_at` and
/// last written at `now`.
pub open spec fn is_entry_document(
    d: Document,
    input: DataEntryDto,
    created_at: Seq<char>,
    now: Seq<char>,
) -> bool {
    is_entry_fields(document_fields(d), input, created_at, now)
}

/// Whether `f` are the stored fields of the record `input`, created at `created_at`
/// and last written at `now`.
pub open spec fn is_entry_fields(
    f: Seq<(Seq<char>, FieldValue)>,
    input: DataEntryDto,
    created_at: Seq<char>,
    now: Seq<char>,
) -> bool {
    &&& f.len() == 10
    &&& f[0] == ("date"@, FieldValue::Text(input.date@))
    &&& f[1] == ("shift"@, FieldValue::Text(input.shift@))
    &&& f[2] == ("inspectorName"@, FieldValue::Text(trim(input.inspector_name@)))
    &&& f[3] == ("part"@, FieldValue::ObjectId(object_id_bytes(input.part@)))
    &&& f[4] == ("numberOfParts"@, FieldValue::Int64(input.number_of_parts))
    &&& f[5].0 == "rejections"@
    &&& f[5].1 matches FieldValue::Array(items) && items.len() == input.rejections@.len() && (
    forall|k: int|
        0 <= k < items.len() ==> (#[trigger] items[k] matches FieldValue::Doc(x) && document_fields(x)
            == rejection_fields(input.rejections@[k])))
    &&& f[6] == ("totalRejections"@, FieldValue::Int64(rejection_total(input.rejections@) as i64))
    &&& f[7] == ("lotNumber"@, FieldValue::Text(trim(input.lot_number@)))
    &&& f[8] == ("updatedAt"@, FieldValue::Text(now))
    &&& f[9] == ("createdAt"@, FieldValue::Text(created_at))
}

proof fn lemma_items_error_at(items: Seq<RejectionItemDto>, i: int)
    requires
        0 <= i <= items.len(),
        forall|j: int| 0 <= j < i ==> #[trigger] item_error(items[j]) is None,
    ensures
        i < items.len() && item_error(items[i]) is Some ==> items_error(items) == item_error(
            items[i],
        ),
        i == items.len() ==> items_error(items) is None,
    decreases i,
{
    if i > 0 {
        let rest = items.drop_first();
        assert forall|j: int| 0 <= j < i - 1 implies #[trigger] item_error(rest[j]) is None by {
            assert(rest[j] == items[j + 1]);
            assert(item_error(items[j + 1]) is None);
        }
        assert(item_error(items[0]) is None);
        lemma_items_error_at(rest, i - 1);
        if i < items.len() {
            assert(rest[i - 1] == items[i]);
        }
    } else if items.len() > 0 {
    }
}

/// The stored form of one rejection item.
fn rejection_document(reason: [u8; 12], count: i64) -> (d: Document)
    ensures
        document_fields(d) == seq![
            ("reason"@, FieldValue::ObjectId(reason@)),
            ("numberOfRejections"@, FieldValue::Int64(count)),
        ],
{
    let mut d = new_document();
    insert_object_id(&mut d, "reason", reason);
    proof {
        reveal_strlit("reason");
        reveal_strlit("numberOfRejections");
        assert(document_fields(d) =~= seq![("reason"@, FieldValue::ObjectId(reason@))]);
        assert("reason"@.len() != "numberOfRejections"@.len());
        lemma_insert_new_key(document_fields(d), "numberOfRejections"@, FieldValue::Int64(count));
    }
    insert_i64(&mut d, "numberOfRejections", count);
    d
}

/// The stored forms of the rejection items and the sum of their counts, or the
/// message for the first refused item.
fn rejection_documents(items: &Vec<RejectionItemDto>) -> (r: Result<(Vec<Document>, i64), String>)
    requires
        totals_fit(items@),
    ensures
        match items_error(items@) {
            Some(m) => r matches Err(e) && e@ == m,
            None => r matches Ok((docs, total)) && total == rejection_total(items@) && docs@.len()
                == items@.len() && forall|k: int|
                0 <= k < docs@.len() ==> document_fields(#[trigger] docs@[k]) == rejection_fields(
                    items@[k],
                ),
        },
{
    let mut docs: Vec<Document> = Vec::new();
    let mut total: i64 = 0;
    let mut i: usize = 0;
    while i < items.len()
        invariant
            totals_fit(items@),
            i <= items@.len(),
            forall|j: int| 0 <= j < i ==> #[trigger] item_error(items@[j]) is None,
            total == rejection_total(items@.take(i as int)),
            docs@.len() == i,
            forall|k: int|
                0 <= k < i ==> document_fields(#[trigger] docs@[k]) == rejection_fields(items@[k]),
        decreases items@.len() - i,
    {
        let item = &items[i];
        assert(items@.take(i + 1).drop_last() =~= items@.take(i as int));
        if item.number_of_rejections < 0 {
            proof {
                lemma_items_error_at(items@, i as int);
            }
            return Err("Number of rejections cannot be negative".to_owned());
        }
        total = total + item.number_of_rejections;
        let reason = match parse_object_id(item.reason.as_str(), "rejection") {
            Ok(b) => b,
            Err(e) => {
                proof {
                    lemma_items_error_at(items@, i as int);
                }
                return Err(e);
            },
        };
        docs.push(rejection_document(reason, item.number_of_rejections));
        i = i + 1;
    }
    proof {
        lemma_items_error_at(items@, i as int);
        assert(items@.take(i as int) =~= items@);
    }
    Ok((docs, total))
}

/// The stored form of an inspection record, or the message for its first refused
/// part. The record was created at `created_at` when that is given, else at `now`,
/// and is written at `now`.
pub fn data_entry_document_at(input: DataEntryDto, created_at: Option<String>, now: String) -> (r: Result<Document, String>)
    requires
        header_error(input) is None ==> totals_fit(input.rejections@),
    ensures
        match entry_error(input) {
            Some(m) => r matches Err(e) && e@ == m,
            None => r matches Ok(d) && is_entry_document(
                d,
                input,
                created_or(created_at, now@),
                now@,
            ),
        },
{
    if !(input.shift == "Day".to_owned() || input.shift == "Night".to_owned()) {
        return Err("Shift must be Day or Night".to_owned());
    }
    let inspector_name = trim_str(input.inspector_name.as_str());
    if inspector_name.as_str().is_empty() {
        return Err("Inspector name is required".to_owned());
    }
    let lot_number = trim_str(input.lot_number.as_str());
    if lot_number.as_str().is_empty() {
        return Err("Lot number is required".to_owned());
    }
    if input.number_of_parts < 0 {
        return Err("Number of parts cannot be negative".to_owned());
    }
    let part_id = parse_object_id(input.part.as_str(), "part")?;
    let (docs, total) = rejection_documents(&input.rejections)?;
    let ghost subs = docs@;
    let ghost old_input = input;
    let created = match created_at {
        Some(c) => c,
        None => now.clone(),
    };
    let d = assemble_entry_document(input, inspector_name, part_id, docs, total, lot_number, now, created);
    proof {
        let f = document_fields(d);
        let items = subs.map_values(|x: Document| FieldValue::Doc(x));
        assert forall|k: int| 0 <= k < items.len() implies (#[trigger] items[k] matches FieldValue::Doc(x)
            && document_fields(x) == rejection_fields(old_input.rejections@[k])) by {
            assert(items[k] == FieldValue::Doc(subs[k]));
        }
    }
    Ok(d)
}

/// The keys of a stored record, in order.
spec fn entry_keys() -> Seq<Seq<char>> {
    seq![
        "date"@,
        "shift"@,
        "inspectorName"@,
        "part"@,
        "numberOfParts"@,
        "rejections"@,
        "totalRejections"@,
        "lotNumber"@,
        "updatedAt"@,
        "createdAt"@,
    ]
}

/// The place of a key among the keys of a stored record, told by its first character.
spec fn key_rank(c: char) -> int {
    match c {
        'd' => 0,
        's' => 1,
        'i' => 2,
        'p' => 3,
        'n' => 4,
        'r' => 5,
        't' => 6,
        'l' => 7,
        'u' => 8,
        'c' => 9,
        _ => -1,
    }
}

proof fn lemma_entry_key_ranks()
    ensures
        forall|i: int| #![trigger entry_keys()[i]] 0 <= i < 10 ==> entry_keys()[i].len() > 0 && key_rank(entry_keys()[i][0]) == i,
{
    reveal_strlit("date");
    reveal_strlit("shift");
    reveal_strlit("inspectorName");
    reveal_strlit("part");
    reveal_strlit("numberOfParts");
    reveal_strlit("rejections");
    reveal_strlit("totalRejections");
    reveal_strlit("lotNumber");
    reveal_strlit("updatedAt");
    reveal_strlit("createdAt");
    assert forall|i: int| #![trigger entry_keys()[i]] 0 <= i < 10 implies entry_keys()[i].len() > 0 && key_rank(entry_keys()[i][0]) == i by {
        if i == 0 {
            assert(entry_keys()[0] == "date"@);
        } else if i == 1 {
            assert(entry_keys()[1] == "shift"@);
        } else if i == 2 {
            assert(entry_keys()[2] == "inspectorName"@);
        } else if i == 3 {
            assert(entry_keys()[3] == "part"@);
        } else if i == 4 {
            assert(entry_keys()[4] == "numberOfParts"@);
        } else if i == 5 {
            assert(entry_keys()[5] == "rejections"@);
        } else if i == 6 {
            assert(entry_keys()[6] == "totalRejections"@);
        } else if i == 7 {
            assert(entry_keys()[7] == "lotNumber"@);
        } else if i == 8 {
            assert(entry_keys()[8] == "updatedAt"@);
        } else if i == 9 {
            assert(entry_keys()[9] == "createdAt"@);
        } else {
        }
    }
}

/// Whether the fields `f` are keyed by the first keys of a stored record, in order.
spec fn entry_keys_prefix(f: Seq<(Seq<char>, FieldValue)>) -> bool {
    f.len() <= 10 && forall|i: int| 0 <= i < f.len() ==> #[trigger] f[i].0 == entry_keys()[i]
}

/// The next key of a stored record is new to the fields before it.
proof fn lemma_entry_keys_distinct(f: Seq<(Seq<char>, FieldValue)>, key: Seq<char>, v: FieldValue)
    requires
        entry_keys_prefix(f),
        f.len() < 10,
        key == entry_keys()[f.len() as int],
    ensures
        fields_insert(f, key, v) == f.push((key, v)),
        entry_keys_prefix(f.push((key, v))),
{
    lemma_entry_key_ranks();
    assert forall|i: int| 0 <= i < f.len() implies #[trigger] f[i].0 != key by {
        assert(f[i].0 == entry_keys()[i]);
        assert(key_rank(entry_keys()[i][0]) == i);
        assert(key_rank(entry_keys()[f.len() as int][0]) == f.len());
    }
    lemma_insert_new_key(f, key, v);
}

/// Builds the stored form of a validated record.
fn assemble_entry_document(
    input: DataEntryDto,
    inspector_name: String,
    part_id: [u8; 12],
    rejection_documents: Vec<Document>,
    total_rejections: i64,
    lot_number: String,
    now: String,
    created: String,
) -> (d: Document)
    ensures
        document_fields(d) == seq![
            ("date"@, FieldValue::Text(input.date@)),
            ("shift"@, FieldValue::Text(input.shift@)),
            ("inspectorName"@, FieldValue::Text(inspector_name@)),
            ("part"@, FieldValue::ObjectId(part_id@)),
            ("numberOfParts"@, FieldValue::Int64(input.number_of_parts)),
            ("rejections"@, FieldValue::Array(rejection_documents@.map_values(|x: Document| FieldValue::Doc(x)))),
            ("totalRejections"@, FieldValue::Int64(total_rejections)),
            ("lotNumber"@, FieldValue::Text(lot_number@)),
            ("updatedAt"@, FieldValue::Text(now@)),
            ("createdAt"@, FieldValue::Text(created@)),
        ],
{
    let ghost subs = FieldValue::Array(rejection_documents@.map_values(|x: Document| FieldValue::Doc(x)));
    let mut document = new_document();
    proof {
        reveal_strlit("date");
        reveal_strlit("shift");
        reveal_strlit("inspectorName");
        reveal_strlit("part");
        reveal_strlit("numberOfParts");
        reveal_strlit("rejections");
        reveal_strlit("totalRejections");
        reveal_strlit("lotNumber");
        reveal_strlit("updatedAt");
        reveal_strlit("createdAt");
    }
    proof { lemma_entry_keys_distinct(document_fields(document), "date"@, FieldValue::Text(input.date@)); }
    insert_text(&mut document, "date", input.date);
    proof { lemma_entry_keys_distinct(document_fields(document), "shift"@, FieldValue::Text(input.shift@)); }
    insert_text(&mut document, "shift", input.shift);
    proof { lemma_entry_keys_distinct(document_fields(document), "inspectorName"@, FieldValue::Text(inspector_name@)); }
    insert_text(&mut document, "inspectorName", inspector_name);
    proof { lemma_entry_keys_distinct(document_fields(document), "part"@, FieldValue::ObjectId(part_id@)); }
    insert_object_id(&mut document, "part", part_id);
    proof { lemma_entry_keys_distinct(document_fields(document), "numberOfParts"@, FieldValue::Int64(input.number_of_parts)); }
    insert_i64(&mut document, "numberOfParts", input.number_of_parts);
    proof { lemma_entry_keys_distinct(document_fields(document), "rejections"@, subs); }
    insert_documents(&mut document, "rejections", rejection_documents);
    proof { lemma_entry_keys_distinct(document_fields(document), "totalRejections"@, FieldValue::Int64(total_rejections)); }
    insert_i64(&mut document, "totalRejections", total_rejections);
    proof { lemma_entry_keys_distinct(document_fields(document), "lotNumber"@, FieldValue::Text(lot_number@)); }
    insert_text(&mut document, "lotNumber", lot_number);
    proof { lemma_entry_keys_distinct(document_fields(document), "updatedAt"@, FieldValue::Text(now@)); }
    insert_text(&mut document, "updatedAt", now);
    proof { lemma_entry_keys_distinct(document_fields(document), "createdAt"@, FieldValue::Text(created@)); }
    insert_text(&mut document, "createdAt", created);
    assert(document_fields(document) =~= seq![
        ("date"@, FieldValue::Text(input.date@)),
        ("shift"@, FieldValue::Text(input.shift@)),
        ("inspectorName"@, FieldValue::Text(inspector_name@)),
        ("part"@, FieldValue::ObjectId(part_id@)),
        ("numberOfParts"@, FieldValue::Int64(input.number_of_parts)),
        ("rejections"@, subs),
        ("totalRejections"@, FieldValue::Int64(total_rejections)),
        ("lotNumber"@, FieldValue::Text(lot_number@)),
        ("updatedAt"@, FieldValue::Text(now@)),
        ("createdAt"@, FieldValue::Text(created@)),
    ]);
    document
}


/// The creation time of a record: the one it already had, else `now`.
pub open spec fn created_or(created_at: Option<String>, now: Seq<char>) -> Seq<char> {
    match created_at {
        Some(c) => c@,
        None => now,
    }
}

/// Whether `c` is a decimal digit.
pub open spec fn is_digit(c: char) -> bool {
    '0' <= c && c <= '9'
}

/// Whether every character of `s` is a decimal digit.
pub open spec fn all_digits(s: Seq<char>) -> bool {
    forall|i: int| 0 <= i < s.len() ==> is_digit(#[trigger] s[i])
}

/// The number that the two digits of `t` at `i` and `i + 1` spell.
pub open spec fn two_digit_value(t: Seq<char>, i: int) -> int {
    (t[i] as int - '0' as int) * 10 + (t[i + 1] as int - '0' as int)
}

/// Whether `t` holds two digits at `i` and `i + 1` that spell at least `lo` and at
/// most `hi`.
pub open spec fn two_digits_within(t: Seq<char>, i: int, lo: int, hi: int) -> bool {
    &&& is_digit(t[i])
    &&& is_digit(t[i + 1])
    &&& lo <= two_digit_value(t, i) <= hi
}

/// The year of an RFC 3339 time: four digits, or, outside years 0 to 9999, a sign
/// followed by four or more digits.
pub open spec fn is_year_text(y: Seq<char>) -> bool {
    ||| y.len() == 4 && all_digits(y)
    ||| y.len() >= 5 && (y[0] == '+' || y[0] == '-') && all_digits(y.drop_first())
}

/// The part of an RFC 3339 time between the year and the fraction of a second:
/// `-MM-DDTHH:MM:SS`, with a month of 1 to 12, a day of 1 to 31, an hour of 0 to 23,
/// a minute of 0 to 59 and a second of 0 to 60 (60 for a leap second).
pub open spec fn is_clock_text(c: Seq<char>) -> bool {
    &&& c.len() == 15
    &&& c[0] == '-'
    &&& two_digits_within(c, 1, 1, 12)
    &&& c[3] == '-'
    &&& two_digits_within(c, 4, 1, 31)
    &&& c[6] == 'T'
    &&& two_digits_within(c, 7, 0, 23)
    &&& c[9] == ':'
    &&& two_digits_within(c, 10, 0, 59)
    &&& c[12] == ':'
    &&& two_digits_within(c, 13, 0, 60)
}

/// The fraction of a second of an RFC 3339 time: none, or a point followed by three,
/// six or nine digits.
pub open spec fn is_fraction_text(f: Seq<char>) -> bool {
    ||| f.len() == 0
    ||| (f.len() == 4 || f.len() == 7 || f.len() == 10) && f[0] == '.' && all_digits(f.drop_first())
}

/// Whether `t` is an RFC 3339 time in UTC as chrono's `to_rfc3339` writes it: the
/// year, `-MM-DDTHH:MM:SS`, an optional fraction of a second, and the zero offset
/// written `+00:00`.
pub open spec fn is_utc_timestamp(t: Seq<char>) -> bool {
    exists|year: Seq<char>, clock: Seq<char>, fraction: Seq<char>|
        #![trigger is_year_text(year), is_clock_text(clock), is_fraction_text(fraction)]
        is_year_text(year) && is_clock_text(clock) && is_fraction_text(fraction) && t == year + clock
            + fraction + "+00:00"@
}

/// The current time as RFC 3339 text (`chrono::Utc::now().to_rfc3339()`).
/// Which time it is rests on the clock and is not claimed. Claimed is the form that
/// `to_rfc3339` writes for a UTC time through `write_rfc3339`: the year as four
/// digits (or, outside 0 to 9999, signed with at least four digits), then month, day,
/// hour, minute and second as two digits each (`write_hundreds`), the second being 60
/// only for a leap second; a fraction of three, six or nine digits when the
/// nanoseconds are not zero (`SecondsFormat::AutoSi`); and the zero offset written
/// `+00:00`, since `to_rfc3339` does not use `Z`.
#[verifier::external_body]
pub(crate) fn now_iso() -> (r: String)
    ensures
        is_utc_timestamp(r@),
{
    chrono::Utc::now().to_rfc3339()
}

/// The stored form of an inspection record, written now (a UTC time in RFC 3339
/// form); it was created at `created_at` when that is given, else now as well.
pub fn data_entry_document(input: DataEntryDto, created_at: Option<String>) -> (r: Result<Document, String>)
    requires
        header_error(input) is None ==> totals_fit(input.rejections@),
    ensures
        match entry_error(input) {
            Some(m) => r matches Err(e) && e@ == m,
            None => r matches Ok(d) && exists|now: Seq<char>|
                is_utc_timestamp(now) && #[trigger] is_entry_document(
                    d,
                    input,
                    created_or(created_at, now),
                    now,
                ),
        },
{
    let now = now_iso();
    let ghost n = now@;
    let r = data_entry_document_at(input, created_at, now);
    proof {
        if entry_error(input) is None {
            let d = r->Ok_0;
            assert(is_entry_document(
                d,
                input,
                created_or(created_at, n),
                n,
            ));
        }
    }
    r
}

/// Whether validating the record `input` would add up a rejection total that does not
/// fit in an `i64`.
pub fn entry_total_overflows(input: &DataEntryDto) -> (r: bool)
    ensures
        r == !(header_error(*input) is None ==> totals_fit(input.rejections@)),
{
    if !(input.shift == "Day".to_owned() || input.shift == "Night".to_owned()) {
        return false;
    }
    if crate::text::is_blank(input.inspector_name.as_str()) || crate::text::is_blank(input.lot_number.as_str()) {
        return false;
    }
    if input.number_of_parts < 0 {
        return false;
    }
    if parse_object_id(input.part.as_str(), "part").is_err() {
        return false;
    }
    let items = &input.rejections;
    let mut total: i64 = 0;
    let mut i: usize = 0;
    while i < items.len()
        invariant
            header_error(*input) is None,
            items == &input.rejections,
            i <= items@.len(),
            forall|j: int| 0 <= j < i ==> #[trigger] item_error(items@[j]) is None,
            total == rejection_total(items@.take(i as int)),
            forall|k: int|
                0 <= k < i && (forall|j: int| 0 <= j < k ==> #[trigger] item_error(items@[j]) is None)
                    && items@[k].number_of_rejections >= 0 ==> rejection_total(items@.take(k + 1))
                    <= i64::MAX,
        decreases items@.len() - i,
    {
        let item = &items[i];
        assert(items@.take(i + 1).drop_last() =~= items@.take(i as int));
        if item.number_of_rejections < 0 {
            assert forall|k: int|
                0 <= k < items@.len() && (forall|j: int| 0 <= j < k ==> #[trigger] item_error(items@[j]) is None)
                    && items@[k].number_of_rejections >= 0 implies rejection_total(items@.take(k + 1))
                    <= i64::MAX by {
                if k > i {
                    assert(item_error(items@[i as int]) is Some);
                }
            }
            return false;
        }
        if total > i64::MAX - item.number_of_rejections {
            return true;
        }
        total = total + item.number_of_rejections;
        if parse_object_id(item.reason.as_str(), "rejection").is_err() {
            assert forall|k: int|
                0 <= k < items@.len() && (forall|j: int| 0 <= j < k ==> #[trigger] item_error(items@[j]) is None)
                    && items@[k].number_of_rejections >= 0 implies rejection_total(items@.take(k + 1))
                    <= i64::MAX by {
                if k > i {
                    assert(item_error(items@[i as int]) is Some);
                }
            }
            return false;
        }
        i = i + 1;
    }
    false
}

/// The message for a reference field that holds neither an object id nor its text.
pub open spec fn missing_id_message(label: Seq<char>) -> Seq<char> {
    "Missing "@ + label + " id"@
}

/// The object id that a reference field holds, or the message for a bad one.
pub open spec fn reference_id(value: Option<FieldValue>, label: Seq<char>) -> Result<Seq<u8>, Seq<char>> {
    match value {
        Some(FieldValue::ObjectId(b)) => Ok(b),
        Some(FieldValue::Text(s)) => if is_object_id_text(s) {
            Ok(object_id_bytes(s))
        } else {
            Err(invalid_id_message(label))
        },
        _ => Err(missing_id_message(label)),
    }
}

/// Whether `r` is the id `want`, or fails with its message.
pub open spec fn id_result(r: Result<[u8; 12], String>, want: Result<Seq<u8>, Seq<char>>) -> bool {
    match (r, want) {
        (Ok(b), Ok(w)) => b@ == w,
        (Err(m), Err(x)) => m@ == x,
        _ => false,
    }
}

/// The object id of a referenced item of kind `label`: an object id as it is, or the
/// text of one; anything else is refused.
pub fn object_id_from_reference(value: Reference, label: &str) -> (r: Result<[u8; 12], String>)
    ensures
        match value {
            Reference::ObjectId(b) => r == Ok::<[u8; 12], String>(b),
            Reference::Text(s) => id_result(r, reference_id(Some(FieldValue::Text(s@)), label@)),
            _ => r matches Err(m) && m@ == missing_id_message(label@),
        },
{
    match value {
        Reference::ObjectId(b) => Ok(b),
        Reference::Text(s) => parse_object_id(s.as_str(), label),
        _ => {
            let mut m = "Missing ".to_owned();
            m.append(label);
            m.append(" id");
            Err(m)
        },
    }
}

/// The id of the part that a stored record refers to.
pub fn data_entry_part_id(document: &Document) -> (r: Result<[u8; 12], String>)
    ensures
        id_result(r, reference_id(field(*document, "part"@), "part"@)),
{
    let value = get_reference(document, "part");
    object_id_from_reference(value, "part")
}

/// The sub-documents among `items`, in order.
pub open spec fn sub_documents(items: Seq<FieldValue>) -> Seq<Document>
    decreases items.len(),
{
    if items.len() == 0 {
        seq![]
    } else {
        let p = sub_documents(items.drop_last());
        match items.last() {
            FieldValue::Doc(x) => p.push(x),
            _ => p,
        }
    }
}

/// The rejection sub-documents of a stored record; none when it has no such array.
pub open spec fn rejection_documents_of(d: Document) -> Seq<Document> {
    match access(d, "rejections"@, |v: FieldValue| pick_array(v)) {
        Ok(items) => sub_documents(items),
        Err(_) => seq![],
    }
}

/// The ids of the rejection reasons that a stored record refers to, one per rejection
/// sub-document, each with the message for a bad reference.
pub fn rejection_reason_ids(document: &Document) -> (r: Vec<Result<[u8; 12], String>>)
    ensures
        r@.len() == rejection_documents_of(*document).len(),
        forall|k: int|
            0 <= k < r@.len() ==> id_result(
                #[trigger] r@[k],
                reference_id(field(rejection_documents_of(*document)[k], "reason"@), "rejection"@),
            ),
{
    let mut out: Vec<Result<[u8; 12], String>> = Vec::new();
    let list = match get_array(document, "rejections") {
        Ok(list) => list,
        Err(_) => {
            return out;
        },
    };
    let ghost items = access(*document, "rejections"@, |v: FieldValue| pick_array(v))->Ok_0;
    let n = list.len();
    let mut i: usize = 0;
    while i < n
        invariant
            access(*document, "rejections"@, |v: FieldValue| pick_array(v)) == Ok::<Seq<FieldValue>, crate::document::AccessError>(items),
            n == items.len(),
            n == list@.len(),
            forall|k: int| 0 <= k < items.len() ==> item_matches(#[trigger] list@[k], items[k]),
            i <= n,
            out@.len() == sub_documents(items.take(i as int)).len(),
            forall|k: int|
                0 <= k < out@.len() ==> id_result(
                    #[trigger] out@[k],
                    reference_id(field(sub_documents(items.take(i as int))[k], "reason"@), "rejection"@),
                ),
        decreases n - i,
    {
        assert(items.take(i + 1).drop_last() =~= items.take(i as int));
        let ghost before = sub_documents(items.take(i as int));
        assert(item_matches(list@[i as int], items[i as int]));
        match &list[i] {
            ArrayItem::Document(x) => {
                let id = object_id_from_reference(get_reference(x, "reason"), "rejection");
                out.push(id);
            },
            ArrayItem::Other => {},
        }
        i = i + 1;
        assert forall|k: int| 0 <= k < out@.len() implies id_result(
            #[trigger] out@[k],
            reference_id(field(sub_documents(items.take(i as int))[k], "reason"@), "rejection"@),
        ) by {
            if k < before.len() {
                assert(sub_documents(items.take(i as int))[k] == before[k]);
            }
        }
    }
    assert(items.take(n as int) =~= items);
    out
}


/// One rejection of an inspection record, with its reason looked up.
#[derive(Debug, Clone)]
pub struct RejectionDetail {
    pub id: String,
    pub reason: NamedEntity,
    pub number_of_rejections: i64,
}

/// An inspection record as it is shown, with its part and reasons looked up.
#[derive(Debug, Clone)]
pub struct DataEntry {
    pub id: String,
    pub date: String,
    pub shift: String,
    pub inspector_name: String,
    pub part: NamedEntity,
    pub number_of_parts: i64,
    pub rejections: Vec<RejectionDetail>,
    pub total_rejections: i64,
    pub lot_number: String,
    pub created_at: Option<String>,
    pub updated_at: Option<String>,
}

/// A count field of a stored document: a 64-bit or else a 32-bit integer, else 0.
pub open spec fn count_field(d: Document, key: Seq<char>) -> i64 {
    match access(d, key, |v: FieldValue| pick_i64(v)) {
        Ok(n) => n,
        Err(_) => match access(d, key, |v: FieldValue| pick_i32(v)) {
            Ok(n) => n as i64,
            Err(_) => 0,
        },
    }
}

/// A text field of a stored document, or the empty text when it holds none.
pub open spec fn text_or_empty(d: Document, key: Seq<char>) -> Seq<char> {
    match access(d, key, |v: FieldValue| pick_text(v)) {
        Ok(s) => s,
        Err(_) => seq![],
    }
}

/// A text field of a stored document, if it holds one.
pub open spec fn optional_text(d: Document, key: Seq<char>) -> Option<Seq<char>> {
    match access(d, key, |v: FieldValue| pick_text(v)) {
        Ok(s) => Some(s),
        Err(_) => None,
    }
}

/// The text of an optional string.
pub open spec fn optional_view(s: Option<String>) -> Option<Seq<char>> {
    match s {
        Some(x) => Some(x@),
        None => None,
    }
}

/// Reads a count field: a 64-bit integer, else a 32-bit one widened, else 0.
pub fn i64_from_document(document: &Document, key: &str) -> (r: i64)
    ensures
        r == count_field(*document, key@),
{
    match get_i64(document, key) {
        Ok(n) => n,
        Err(_) => match get_i32(document, key) {
            Ok(n) => n as i64,
            Err(_) => 0,
        },
    }
}

/// Reads a text field, or the empty text when it holds none.
pub fn string_from_document(document: &Document, key: &str) -> (r: String)
    ensures
        r@ == text_or_empty(*document, key@),
{
    match get_text(document, key) {
        Ok(s) => s,
        Err(_) => String::new(),
    }
}

/// Reads a text field, if it holds one.
pub fn optional_string_from_document(document: &Document, key: &str) -> (r: Option<String>)
    ensures
        optional_view(r) == optional_text(*document, key@),
{
    match get_text(document, key) {
        Ok(s) => Some(s),
        Err(_) => None,
    }
}

/// A copy of a named entity.
pub fn copy_entity(e: &NamedEntity) -> (r: NamedEntity)
    ensures
        r == *e,
{
    NamedEntity { id: e.id.clone(), name: e.name.clone() }
}

/// Whether `rs` are the rejections of a record: one per rejection sub-document in
/// `subs`, with the reason looked up for it in `reasons` and its count read from it.
pub open spec fn rejections_are(rs: Seq<RejectionDetail>, subs: Seq<Document>, reasons: Seq<NamedEntity>) -> bool {
    &&& rs.len() == subs.len()
    &&& forall|k: int|
        0 <= k < rs.len() ==> (#[trigger] rs[k]).reason == reasons[k] && rs[k].id == reasons[k].id
            && rs[k].number_of_rejections == count_field(subs[k], "numberOfRejections"@)
}

/// The inspection record that a stored document holds, with its part and the reasons
/// of its rejections (one per rejection sub-document, in order) already looked up.
pub fn data_entry_from_document(document: Document, part: NamedEntity, reasons: Vec<NamedEntity>) -> (r: Result<DataEntry, String>)
    requires
        reasons@.len() == rejection_documents_of(document).len(),
    ensures
        match id_field(document) {
            Err(m) => r matches Err(e) && e@ == m,
            Ok(id) => r matches Ok(e) && {
                &&& e.id@ == id
                &&& e.date@ == text_or_empty(document, "date"@)
                &&& e.shift@ == text_or_empty(document, "shift"@)
                &&& e.inspector_name@ == text_or_empty(document, "inspectorName"@)
                &&& e.part == part
                &&& e.number_of_parts == count_field(document, "numberOfParts"@)
                &&& rejections_are(e.rejections@, rejection_documents_of(document), reasons@)
                &&& e.total_rejections == count_field(document, "totalRejections"@)
                &&& e.lot_number@ == text_or_empty(document, "lotNumber"@)
                &&& optional_view(e.created_at) == optional_text(document, "createdAt"@)
                &&& optional_view(e.updated_at) == optional_text(document, "updatedAt"@)
            },
        },
{
    let ghost subs = rejection_documents_of(document);
    let mut rejections: Vec<RejectionDetail> = Vec::new();
    match get_array(&document, "rejections") {
        Ok(list) => {
            let ghost items = access(document, "rejections"@, |v: FieldValue| pick_array(v))->Ok_0;
            let n = list.len();
            let mut i: usize = 0;
            while i < n
                invariant
                    access(document, "rejections"@, |v: FieldValue| pick_array(v)) == Ok::<Seq<FieldValue>, crate::document::AccessError>(items),
                    subs == sub_documents(items),
                    reasons@.len() == subs.len(),
                    n == items.len(),
                    n == list@.len(),
                    forall|k: int| 0 <= k < items.len() ==> item_matches(#[trigger] list@[k], items[k]),
                    i <= n,
                    rejections_are(rejections@, sub_documents(items.take(i as int)), reasons@),
                    sub_documents(items.take(i as int)).len() <= subs.len(),
                    forall|k: int| 0 <= k < sub_documents(items.take(i as int)).len() ==> #[trigger] sub_documents(items.take(i as int))[k] == subs[k],
                decreases n - i,
            {
                assert(items.take(i + 1).drop_last() =~= items.take(i as int));
                proof {
                    lemma_sub_documents_prefix(items, i as int + 1);
                }
                let ghost before = sub_documents(items.take(i as int));
                assert(item_matches(list@[i as int], items[i as int]));
                match &list[i] {
                    ArrayItem::Document(x) => {
                        let j = rejections.len();
                        let reason = copy_entity(&reasons[j]);
                        let count = i64_from_document(x, "numberOfRejections");
                        rejections.push(RejectionDetail { id: reason.id.clone(), reason, number_of_rejections: count });
                    },
                    ArrayItem::Other => {},
                }
                i = i + 1;
                assert forall|k: int| 0 <= k < sub_documents(items.take(i as int)).len() implies #[trigger] sub_documents(items.take(i as int))[k] == subs[k] by {
                    lemma_sub_documents_prefix(items, i as int);
                }
                assert forall|k: int| 0 <= k < rejections@.len() implies (#[trigger] rejections@[k]).reason == reasons@[k]
                    && rejections@[k].id == reasons@[k].id && rejections@[k].number_of_rejections
                    == count_field(sub_documents(items.take(i as int))[k], "numberOfRejections"@) by {
                    if k < before.len() {
                        assert(sub_documents(items.take(i as int))[k] == before[k]);
                    }
                }
            }
            assert(items.take(n as int) =~= items);
        },
        Err(_) => {},
    }
    let id = document_id(&document)?;
    let date = string_from_document(&document, "date");
    let shift = string_from_document(&document, "shift");
    let inspector_name = string_from_document(&document, "inspectorName");
    let number_of_parts = i64_from_document(&document, "numberOfParts");
    let total_rejections = i64_from_document(&document, "totalRejections");
    let lot_number = string_from_document(&document, "lotNumber");
    let created_at = optional_string_from_document(&document, "createdAt");
    let updated_at = optional_string_from_document(&document, "updatedAt");
    Ok(
        DataEntry {
            id,
            date,
            shift,
            inspector_name,
            part,
            number_of_parts,
            rejections,
            total_rejections,
            lot_number,
            created_at,
            updated_at,
        },
    )
}

/// The sub-documents of a prefix of `items` begin the sub-documents of `items`.
proof fn lemma_sub_documents_prefix(items: Seq<FieldValue>, i: int)
    requires
        0 <= i <= items.len(),
    ensures
        sub_documents(items.take(i)).len() <= sub_documents(items).len(),
        forall|k: int| 0 <= k < sub_documents(items.take(i)).len() ==> #[trigger] sub_documents(items.take(i))[k] == sub_documents(items)[k],
    decreases items.len() - i,
{
    if i < items.len() {
        lemma_sub_documents_prefix(items, i + 1);
        assert(items.take(i + 1).drop_last() =~= items.take(i));
        let a = sub_documents(items.take(i));
        let b = sub_documents(items.take(i + 1));
        assert(a.len() <= b.len());
        assert forall|k: int| 0 <= k < a.len() implies #[trigger] a[k] == sub_documents(items)[k] by {
            assert(a[k] == b[k]);
        }
    } else {
        assert(items.take(i) =~= items);
    }
}


/// A stored record that the lookup after its insertion found.
pub fn created_entry(found: Option<Document>) -> (r: Result<Document, String>)
    ensures
        match found {
            Some(d) => r == Ok::<Document, String>(d),
            None => r matches Err(m) && m@ == "Created data entry was not found"@,
        },
{
    match found {
        Some(d) => Ok(d),
        None => Err("Created data entry was not found".to_owned()),
    }
}

/// The message for a record id that names no stored record.
pub open spec fn entry_not_found_message(id: Seq<char>) -> Seq<char> {
    "Data entry with id "@ + id + " was not found"@
}

/// The stored record with id `id` that a lookup found.
pub fn found_entry(id: &str, found: Option<Document>) -> (r: Result<Document, String>)
    ensures
        match found {
            Some(d) => r == Ok::<Document, String>(d),
            None => r matches Err(m) && m@ == entry_not_found_message(id@),
        },
{
    match found {
        Some(d) => Ok(d),
        None => {
            let mut m = "Data entry with id ".to_owned();
            m.append(id);
            m.append(" was not found");
            Err(m)
        },
    }
}

/// The creation time that a record keeps: the one it had, else `now`.
pub open spec fn kept_or(created_at: Option<Seq<char>>, now: Seq<char>) -> Seq<char> {
    match created_at {
        Some(c) => c,
        None => now,
    }
}

proof fn lemma_id_key_is_new(f: Seq<(Seq<char>, FieldValue)>, input: DataEntryDto, c: Seq<char>, now: Seq<char>)
    requires
        is_entry_fields(f, input, c, now),
    ensures
        forall|i: int| 0 <= i < f.len() ==> #[trigger] f[i].0 != "_id"@,
{
    lemma_entry_key_ranks();
    reveal_strlit("_id");
    assert forall|i: int| 0 <= i < f.len() implies #[trigger] f[i].0 != "_id"@ by {
        assert(f[i].0 == entry_keys()[i]);
        assert(key_rank(entry_keys()[i][0]) == i);
        assert(key_rank("_id"@[0]) == -1);
    }
}

/// The document that replaces a stored record with id `id` when it is edited to
/// `input`: the new record's stored form, keeping the creation time that the stored
/// record had, with its id added last.
pub fn entry_replacement(existing: &Document, input: DataEntryDto, id: [u8; 12]) -> (r: Result<Document, String>)
    requires
        header_error(input) is None ==> totals_fit(input.rejections@),
    ensures
        match entry_error(input) {
            Some(m) => r matches Err(e) && e@ == m,
            None => r matches Ok(d) && document_fields(d).len() == 11 && document_fields(d)[10]
                == ("_id"@, FieldValue::ObjectId(id@)) && exists|now: Seq<char>|
                is_utc_timestamp(now) && #[trigger] is_entry_fields(
                    document_fields(d).take(10),
                    input,
                    kept_or(optional_text(*existing, "createdAt"@), now),
                    now,
                ),
        },
{
    let created_at = optional_string_from_document(existing, "createdAt");
    let mut document = data_entry_document(input, created_at)?;
    let ghost before = document_fields(document);
    proof {
        let now = choose|now: Seq<char>|
            is_utc_timestamp(now) && #[trigger] is_entry_document(document, input, created_or(created_at, now), now);
        lemma_id_key_is_new(before, input, created_or(created_at, now), now);
        lemma_insert_new_key(before, "_id"@, FieldValue::ObjectId(id@));
        assert(before.push(("_id"@, FieldValue::ObjectId(id@))).take(10) =~= before);
        assert(created_or(created_at, now) == kept_or(optional_text(*existing, "createdAt"@), now));
    }
    insert_object_id(&mut document, "_id", id);
    Ok(document)
}

/// Reading a stored record gives back what was entered: the date and shift as
/// entered, whatever the write time; the inspector name and lot number without
/// surrounding whitespace; the part's id and the number of parts; one rejection
/// sub-document per item; the sum of the rejection counts as the total; the write
/// time as the update time and `created_at` as the creation time.
pub proof fn lemma_stored_record_reads(d: Document, input: DataEntryDto, created_at: Seq<char>, now: Seq<char>)
    requires
        is_entry_document(d, input, created_at, now),
    ensures
        field(d, "date"@) == Some(FieldValue::Text(input.date@)),
        field(d, "shift"@) == Some(FieldValue::Text(input.shift@)),
        field(d, "inspectorName"@) == Some(FieldValue::Text(trim(input.inspector_name@))),
        field(d, "part"@) == Some(FieldValue::ObjectId(object_id_bytes(input.part@))),
        field(d, "numberOfParts"@) == Some(FieldValue::Int64(input.number_of_parts)),
        field(d, "rejections"@) matches Some(FieldValue::Array(items)) && items.len()
            == input.rejections@.len(),
        field(d, "totalRejections"@) == Some(FieldValue::Int64(rejection_total(input.rejections@) as i64)),
        field(d, "lotNumber"@) == Some(FieldValue::Text(trim(input.lot_number@))),
        field(d, "updatedAt"@) == Some(FieldValue::Text(now)),
        field(d, "createdAt"@) == Some(FieldValue::Text(created_at)),
{
    let f = document_fields(d);
    lemma_entry_key_ranks();
    assert forall|i: int| 0 <= i < 10 implies #[trigger] f[i].0 == entry_keys()[i] by {
    }
    assert forall|i: int| 0 <= i < 10 implies field_in(f, #[trigger] entry_keys()[i]) == Some(f[i].1) by {
        assert forall|j: int| 0 <= j < i implies #[trigger] f[j].0 != f[i].0 by {
            assert(key_rank(entry_keys()[j][0]) == j);
            assert(key_rank(entry_keys()[i][0]) == i);
        }
        lemma_field_at(f, i);
    }
    assert(field(d, entry_keys()[0]) == Some(f[0].1));
    assert(field(d, entry_keys()[1]) == Some(f[1].1));
    assert(field(d, entry_keys()[2]) == Some(f[2].1));
    assert(field(d, entry_keys()[3]) == Some(f[3].1));
    assert(field(d, entry_keys()[4]) == Some(f[4].1));
    assert(field(d, entry_keys()[5]) == Some(f[5].1));
    assert(field(d, entry_keys()[6]) == Some(f[6].1));
    assert(field(d, entry_keys()[7]) == Some(f[7].1));
    assert(field(d, entry_keys()[8]) == Some(f[8].1));
    assert(field(d, entry_keys()[9]) == Some(f[9].1));
}

/// A list of rejection items is accepted exactly when each of its items is.
proof fn lemma_items_error_none(items: Seq<RejectionItemDto>)
    ensures
        items_error(items) is None <==> forall|k: int| 0 <= k < items.len() ==> #[trigger] item_error(items[k]) is None,
    decreases items.len(),
{
    if items.len() > 0 {
        let rest = items.drop_first();
        lemma_items_error_none(rest);
        if item_error(items[0]) is None {
            assert forall|k: int| 0 <= k < items.len() && (forall|j: int| 0 <= j < rest.len() ==> #[trigger] item_error(rest[j]) is None) implies #[trigger] item_error(items[k]) is None by {
                if k > 0 {
                    assert(items[k] == rest[k - 1]);
                }
            }
            assert((forall|k: int| 0 <= k < items.len() ==> #[trigger] item_error(items[k]) is None) ==> (forall|j: int| 0 <= j < rest.len() ==> #[trigger] item_error(rest[j]) is None)) by {
                assert forall|j: int| 0 <= j < rest.len() && (forall|k: int| 0 <= k < items.len() ==> #[trigger] item_error(items[k]) is None) implies #[trigger] item_error(rest[j]) is None by {
                    assert(rest[j] == items[j + 1]);
                }
            }
        }
    }
}

/// A rejection item is refused only for a negative count or a reason that is not an
/// object id: one with a count of zero or more and a valid reason is accepted.
pub proof fn lemma_rejection_item_accepted(item: RejectionItemDto)
    ensures
        item.number_of_rejections >= 0 && is_object_id_text(item.reason@) ==> item_error(item) is None,
        item.number_of_rejections < 0 ==> item_error(item) == Some("Number of rejections cannot be negative"@),
        item.number_of_rejections >= 0 && !is_object_id_text(item.reason@) ==> item_error(item) == Some(
            invalid_id_message("rejection"@),
        ),
{
}

/// A record is accepted exactly when its header fields are and every rejection item
/// has a count of zero or more and a valid reason id.
pub proof fn lemma_record_accepted(input: DataEntryDto)
    ensures
        entry_error(input) is None <==> header_error(input) is None && forall|k: int|
            0 <= k < input.rejections@.len() ==> (#[trigger] input.rejections@[k]).number_of_rejections >= 0
                && is_object_id_text(input.rejections@[k].reason@),
{
    let items = input.rejections@;
    lemma_items_error_none(items);
    assert forall|k: int| 0 <= k < items.len() implies (item_error(#[trigger] items[k]) is None <==> (
    items[k].number_of_rejections >= 0 && is_object_id_text(items[k].reason@))) by {
        lemma_rejection_item_accepted(items[k]);
    }
}

} // verus!
