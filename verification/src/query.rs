use vstd::prelude::*;

use mongodb::bson::Document;

use crate::document::{
    document_fields, insert_document, insert_object_ids, insert_text, insert_texts,
    lemma_insert_new_key, new_document, FieldValue,
};
use crate::names::{display_name, normalize_name};
use crate::text::{is_blank, push_char, trim};

verus! {

/// What the list of inspection records is narrowed to. Every bound is optional text.
#[derive(Debug, Clone)]
pub struct DataEntryFilter {
    /// Part names, separated by commas.
    pub part_name: Option<String>,
    pub start_date: Option<String>,
    pub end_date: Option<String>,
    pub load_number_start: Option<String>,
    pub load_number_end: Option<String>,
    /// Matched case-insensitively as a regular expression.
    pub inspector_name: Option<String>,
    pub rejection_percentage_min: Option<String>,
    pub rejection_percentage_max: Option<String>,
    /// `"true"` lifts the restriction to the named parts.
    pub all_parts: Option<String>,
}

impl Default for DataEntryFilter {
    fn default() -> (r: Self)
        ensures
            r.part_name is None && r.start_date is None && r.end_date is None
                && r.load_number_start is None && r.load_number_end is None
                && r.inspector_name is None && r.rejection_percentage_min is None
                && r.rejection_percentage_max is None && r.all_parts is None,
    {
        DataEntryFilter {
            part_name: None,
            start_date: None,
            end_date: None,
            load_number_start: None,
            load_number_end: None,
            inspector_name: None,
            rejection_percentage_min: None,
            rejection_percentage_max: None,
            all_parts: None,
        }
    }
}

/// The pieces of `s` between the separators `sep`, in order (`str::split`): one more
/// piece than there are separators, empty pieces included.
pub open spec fn split_on(s: Seq<char>, sep: char) -> Seq<Seq<char>>
    decreases s.len(),
{
    if s.len() == 0 {
        seq![seq![]]
    } else {
        let p = split_on(s.drop_last(), sep);
        if s.last() == sep {
            p.push(seq![])
        } else {
            p.update(p.len() - 1, p.last().push(s.last()))
        }
    }
}

proof fn lemma_split_nonempty(s: Seq<char>, sep: char)
    ensures
        split_on(s, sep).len() >= 1,
    decreases s.len(),
{
    if s.len() > 0 {
        lemma_split_nonempty(s.drop_last(), sep);
    }
}

/// Splits `s` at every `sep` (`str::split`).
pub fn split_text(s: &str, sep: char) -> (r: Vec<String>)
    ensures
        r@.map_values(|p: String| p@) == split_on(s@, sep),
{
    let n = s.unicode_len();
    let mut done: Vec<String> = Vec::new();
    let mut cur = String::new();
    let mut i: usize = 0;
    while i < n
        invariant
            n == s@.len(),
            i <= n,
            split_on(s@.take(i as int), sep) == done@.map_values(|p: String| p@).push(cur@),
        decreases n - i,
    {
        let c = s.get_char(i);
        assert(s@.take(i + 1).drop_last() =~= s@.take(i as int));
        let ghost before = done@.map_values(|p: String| p@).push(cur@);
        if c == sep {
            let piece = cur;
            cur = String::new();
            done.push(piece);
            assert(done@.map_values(|p: String| p@).push(cur@) =~= before.push(seq![]));
        } else {
            push_char(&mut cur, c);
            assert(done@.map_values(|p: String| p@).push(cur@) =~= before.update(
                before.len() - 1,
                before.last().push(c),
            ));
        }
        i = i + 1;
    }
    assert(s@.take(n as int) =~= s@);
    done.push(cur);
    assert(done@.map_values(|p: String| p@) =~= split_on(s@, sep));
    done
}

/// Whether an optional bound is given and is not blank.
pub open spec fn given(s: Option<String>) -> bool {
    s matches Some(v) && trim(v@).len() > 0
}

/// Whether `all_parts` lifts the restriction to named parts.
pub open spec fn all_parts_requested(filter: DataEntryFilter) -> bool {
    filter.all_parts matches Some(v) && v@ == "true"@
}

/// The part names that the filter restricts the records to, if it does.
pub open spec fn restricts_parts(filter: DataEntryFilter) -> bool {
    !all_parts_requested(filter) && given(filter.part_name)
}

/// The comma-separated part names of the filter, each normalized for display.
pub open spec fn part_names_of(filter: DataEntryFilter) -> Seq<Seq<char>> {
    split_on(filter.part_name->0@, ',').map_values(|p: Seq<char>| display_name(p))
}

/// Normalizes each piece of `pieces`; the first piece without a word is refused.
fn normalize_all(pieces: &Vec<String>) -> (r: Result<Vec<String>, String>)
    ensures
        r is Ok <==> forall|k: int| 0 <= k < pieces@.len() ==> display_name(#[trigger] pieces@[k]@).len() > 0,
        r matches Ok(v) ==> v@.map_values(|x: String| x@) == pieces@.map_values(|p: String| display_name(p@)),
        r matches Err(m) ==> m@ == "Name is required"@,
{
    let mut out: Vec<String> = Vec::new();
    let mut i: usize = 0;
    while i < pieces.len()
        invariant
            i <= pieces@.len(),
            forall|k: int| 0 <= k < i ==> display_name(#[trigger] pieces@[k]@).len() > 0,
            out@.map_values(|x: String| x@) == pieces@.take(i as int).map_values(|p: String| display_name(p@)),
        decreases pieces@.len() - i,
    {
        let name = normalize_name(pieces[i].as_str())?;
        let ghost before = out@.map_values(|x: String| x@);
        out.push(name);
        assert(out@.map_values(|x: String| x@) =~= before.push(display_name(pieces@[i as int]@)));
        assert(pieces@.take(i + 1) =~= pieces@.take(i as int).push(pieces@[i as int]));
        i = i + 1;
        assert(out@.map_values(|x: String| x@) =~= pieces@.take(i as int).map_values(|p: String| display_name(p@)));
    }
    assert(pieces@.take(i as int) =~= pieces@);
    Ok(out)
}

/// The part names to look up when the filter restricts the records to named parts:
/// the comma-separated names of `part_name`, each normalized for display. `None`
/// when `all_parts` is `"true"` or no part name is given; a piece without a word is
/// refused.
pub fn part_names_to_find(filter: &DataEntryFilter) -> (r: Result<Option<Vec<String>>, String>)
    ensures
        !restricts_parts(*filter) ==> r matches Ok(None),
        restricts_parts(*filter) ==> (r is Ok <==> forall|k: int|
            0 <= k < part_names_of(*filter).len() ==> (#[trigger] part_names_of(*filter)[k]).len() > 0),
        restricts_parts(*filter) ==> (r is Ok ==> r matches Ok(Some(_))),
        r matches Ok(Some(v)) ==> v@.map_values(|x: String| x@) == part_names_of(*filter),
        r matches Err(m) ==> m@ == "Name is required"@,
{
    let all_parts = match &filter.all_parts {
        Some(v) => *v == "true".to_owned(),
        None => false,
    };
    if all_parts {
        return Ok(None);
    }
    match &filter.part_name {
        Some(v) => {
            if is_blank(v.as_str()) {
                return Ok(None);
            }
            let pieces = split_text(v.as_str(), ',');
            let names = normalize_all(&pieces);
            proof {
                let ps = pieces@.map_values(|p: String| p@);
                assert(ps == split_on(v@, ','));
                assert(pieces@.map_values(|p: String| display_name(p@)) =~= part_names_of(*filter));
                assert forall|k: int| 0 <= k < pieces@.len() implies display_name(#[trigger] pieces@[k]@)
                    == part_names_of(*filter)[k] by {
                    assert(ps[k] == pieces@[k]@);
                }
            }
            match names {
                Ok(list) => Ok(Some(list)),
                Err(m) => Err(m),
            }
        },
        None => Ok(None),
    }
}

/// The filter `{ "name": { "$in": names } }`.
pub fn names_in_filter(names: Vec<String>) -> (d: Document)
    ensures
        document_fields(d).len() == 1,
        document_fields(d)[0].0 == "name"@,
        document_fields(d)[0].1 matches FieldValue::Doc(x) && document_fields(x) == seq![
            ("$in"@, FieldValue::Array(names@.map_values(|n: String| FieldValue::Text(n@)))),
        ],
{
    let mut inner = new_document();
    insert_texts(&mut inner, "$in", names);
    let ghost g = inner;
    let mut d = new_document();
    insert_document(&mut d, "name", inner);
    assert(document_fields(d)[0].1 == FieldValue::Doc(g));
    d
}

/// The bound fields of a range: `$gte` for a given lower bound, then `$lte` for a
/// given upper bound.
pub open spec fn range_fields(low: Option<String>, high: Option<String>) -> Seq<(Seq<char>, FieldValue)> {
    (if given(low) {
        seq![("$gte"@, FieldValue::Text(low->0@))]
    } else {
        seq![]
    }) + (if given(high) {
        seq![("$lte"@, FieldValue::Text(high->0@))]
    } else {
        seq![]
    })
}

/// The range `{ "$gte": low, "$lte": high }`, with only the bounds that are given.
fn range_document(low: &Option<String>, high: &Option<String>) -> (d: Document)
    ensures
        document_fields(d) == range_fields(*low, *high),
{
    let mut d = new_document();
    let mut has_low = false;
    match low {
        Some(v) => {
            if !is_blank(v.as_str()) {
                insert_text(&mut d, "$gte", v.clone());
                has_low = true;
            }
        },
        None => {},
    }
    match high {
        Some(v) => {
            if !is_blank(v.as_str()) {
                proof {
                    reveal_strlit("$gte");
                    reveal_strlit("$lte");
                    if has_low {
                        assert("$gte"@[1] != "$lte"@[1]);
                        lemma_insert_new_key(document_fields(d), "$lte"@, FieldValue::Text(v@));
                    }
                }
                insert_text(&mut d, "$lte", v.clone());
            }
        },
        None => {},
    }
    assert(document_fields(d) =~= range_fields(*low, *high));
    d
}

/// The conditions of the record query, in order, each a key and the fields of its
/// condition document: the parts `$in` the ids, a date range when a date bound is
/// present, a lot number range when a lot bound is present, and a case-insensitive
/// match of the inspector name when one is given.
pub open spec fn query_conditions(filter: DataEntryFilter, part_ids: Option<Seq<[u8; 12]>>) -> Seq<(Seq<char>, Seq<(Seq<char>, FieldValue)>)> {
    (match part_ids {
        Some(ids) => seq![
            ("part"@, seq![("$in"@, FieldValue::Array(ids.map_values(|b: [u8; 12]| FieldValue::ObjectId(b@))))]),
        ],
        None => seq![],
    }) + (if filter.start_date is Some || filter.end_date is Some {
        seq![("date"@, range_fields(filter.start_date, filter.end_date))]
    } else {
        seq![]
    }) + (if filter.load_number_start is Some || filter.load_number_end is Some {
        seq![("lotNumber"@, range_fields(filter.load_number_start, filter.load_number_end))]
    } else {
        seq![]
    }) + (if given(filter.inspector_name) {
        seq![
            ("inspectorName"@, seq![
                ("$regex"@, FieldValue::Text(filter.inspector_name->0@)),
                ("$options"@, FieldValue::Text("i"@)),
            ]),
        ]
    } else {
        seq![]
    })
}

/// Whether document `d` holds the conditions `conds`, each as a sub-document.
pub open spec fn holds_conditions(d: Document, conds: Seq<(Seq<char>, Seq<(Seq<char>, FieldValue)>)>) -> bool {
    &&& document_fields(d).len() == conds.len()
    &&& forall|i: int|
        0 <= i < conds.len() ==> (#[trigger] document_fields(d)[i]).0 == conds[i].0 && (
        document_fields(d)[i].1 matches FieldValue::Doc(x) && document_fields(x) == conds[i].1)
}

/// Adds the condition `key: cond` to a query whose keys all differ from `key`.
fn add_condition(
    q: &mut Document,
    key: &str,
    cond: Document,
    Ghost(conds): Ghost<Seq<(Seq<char>, Seq<(Seq<char>, FieldValue)>)>>,
)
    requires
        holds_conditions(*old(q), conds),
        forall|i: int| 0 <= i < conds.len() ==> #[trigger] conds[i].0 != key@,
    ensures
        holds_conditions(*final(q), conds.push((key@, document_fields(cond)))),
{
    let ghost g = cond;
    proof {
        assert forall|i: int| 0 <= i < document_fields(*q).len() implies #[trigger] document_fields(*q)[i].0 != key@ by {
            assert(document_fields(*q)[i].0 == conds[i].0);
        }
        lemma_insert_new_key(document_fields(*q), key@, FieldValue::Doc(g));
    }
    insert_document(q, key, cond);
    proof {
        let c2 = conds.push((key@, document_fields(g)));
        assert forall|i: int| 0 <= i < c2.len() implies (#[trigger] document_fields(*q)[i]).0 == c2[i].0 && (
            document_fields(*q)[i].1 matches FieldValue::Doc(x) && document_fields(x) == c2[i].1) by {
            if i < conds.len() {
                assert(document_fields(*q)[i] == document_fields(*old(q))[i]);
            }
        }
    }
}

/// The query for the inspection records that the filter selects, given the ids of
/// the parts that its part names found (`None` when it names no parts). `None` when
/// it names parts and none was found: then no record is selected.
pub fn entry_query(filter: &DataEntryFilter, part_ids: Option<Vec<[u8; 12]>>) -> (r: Option<Document>)
    ensures
        r is None <==> (part_ids matches Some(ids) && ids@.len() == 0),
        r matches Some(q) ==> holds_conditions(q, query_conditions(*filter, match part_ids {
            Some(ids) => Some(ids@),
            None => None,
        })),
{
    let ghost ids_view: Option<Seq<[u8; 12]>> = match &part_ids {
        Some(ids) => Some(ids@),
        None => None,
    };
    let ghost full = query_conditions(*filter, ids_view);
    let ghost p1: Seq<(Seq<char>, Seq<(Seq<char>, FieldValue)>)> = match ids_view {
        Some(ids) => seq![
            ("part"@, seq![("$in"@, FieldValue::Array(ids.map_values(|b: [u8; 12]| FieldValue::ObjectId(b@))))]),
        ],
        None => seq![],
    };
    let ghost p2: Seq<(Seq<char>, Seq<(Seq<char>, FieldValue)>)> = if filter.start_date is Some || filter.end_date is Some {
        seq![("date"@, range_fields(filter.start_date, filter.end_date))]
    } else {
        seq![]
    };
    let ghost p3: Seq<(Seq<char>, Seq<(Seq<char>, FieldValue)>)> = if filter.load_number_start is Some || filter.load_number_end is Some {
        seq![("lotNumber"@, range_fields(filter.load_number_start, filter.load_number_end))]
    } else {
        seq![]
    };
    let ghost p4: Seq<(Seq<char>, Seq<(Seq<char>, FieldValue)>)> = if given(filter.inspector_name) {
        seq![
            ("inspectorName"@, seq![
                ("$regex"@, FieldValue::Text(filter.inspector_name->0@)),
                ("$options"@, FieldValue::Text("i"@)),
            ]),
        ]
    } else {
        seq![]
    };
    assert(full == p1 + p2 + p3 + p4);
    proof {
        reveal_strlit("part");
        reveal_strlit("date");
        reveal_strlit("lotNumber");
        reveal_strlit("inspectorName");
        assert("part"@[0] == 'p' && "date"@[0] == 'd' && "lotNumber"@[0] == 'l' && "inspectorName"@[0] == 'i');
    }
    let mut query = new_document();
    let ghost mut conds: Seq<(Seq<char>, Seq<(Seq<char>, FieldValue)>)> = seq![];
    assert(holds_conditions(query, conds));
    match part_ids {
        Some(ids) => {
            if ids.len() == 0 {
                return None;
            }
            let mut inner = new_document();
            insert_object_ids(&mut inner, "$in", ids);
            add_condition(&mut query, "part", inner, Ghost(conds));
            proof {
                conds = conds.push(("part"@, document_fields(inner)));
                assert(conds =~= p1);
            }
        },
        None => {
            assert(conds =~= p1);
        },
    }
    assert(forall|i: int| 0 <= i < conds.len() ==> #[trigger] conds[i].0 == "part"@);
    if filter.start_date.is_some() || filter.end_date.is_some() {
        let range = range_document(&filter.start_date, &filter.end_date);
        assert forall|i: int| 0 <= i < conds.len() implies #[trigger] conds[i].0 != "date"@ by {
            assert(conds[i].0 == "part"@);
            assert(conds[i].0[0] != "date"@[0]);
        }
        add_condition(&mut query, "date", range, Ghost(conds));
        proof {
            conds = conds.push(("date"@, document_fields(range)));
        }
    }
    assert(conds =~= p1 + p2);
    assert(forall|i: int| 0 <= i < conds.len() ==> #[trigger] conds[i].0 == "part"@ || conds[i].0 == "date"@);
    if filter.load_number_start.is_some() || filter.load_number_end.is_some() {
        let range = range_document(&filter.load_number_start, &filter.load_number_end);
        assert forall|i: int| 0 <= i < conds.len() implies #[trigger] conds[i].0 != "lotNumber"@ by {
            assert(conds[i].0 == "part"@ || conds[i].0 == "date"@);
            assert(conds[i].0[0] != "lotNumber"@[0]);
        }
        add_condition(&mut query, "lotNumber", range, Ghost(conds));
        proof {
            conds = conds.push(("lotNumber"@, document_fields(range)));
        }
    }
    assert(conds =~= p1 + p2 + p3);
    assert(forall|i: int| 0 <= i < conds.len() ==> #[trigger] conds[i].0 == "part"@ || conds[i].0 == "date"@ || conds[i].0 == "lotNumber"@);
    match &filter.inspector_name {
        Some(name) => {
            if !is_blank(name.as_str()) {
                let mut regex = new_document();
                insert_text(&mut regex, "$regex", name.clone());
                proof {
                    reveal_strlit("$regex");
                    reveal_strlit("$options");
                    assert("$regex"@[1] != "$options"@[1]);
                    lemma_insert_new_key(document_fields(regex), "$options"@, FieldValue::Text("i"@));
                }
                insert_text(&mut regex, "$options", "i".to_owned());
                assert forall|i: int| 0 <= i < conds.len() implies #[trigger] conds[i].0 != "inspectorName"@ by {
                    assert(conds[i].0 == "part"@ || conds[i].0 == "date"@ || conds[i].0 == "lotNumber"@);
                    assert(conds[i].0[0] != "inspectorName"@[0]);
                }
                add_condition(&mut query, "inspectorName", regex, Ghost(conds));
                proof {
                    assert(document_fields(regex) =~= seq![
                        ("$regex"@, FieldValue::Text(filter.inspector_name->0@)),
                        ("$options"@, FieldValue::Text("i"@)),
                    ]);
                    conds = conds.push(("inspectorName"@, document_fields(regex)));
                }
            }
        },
        None => {},
    }
    assert(conds =~= p1 + p2 + p3 + p4);
    Some(query)
}


/// A filter that asks for all parts restricts nothing by part: no part names are looked
/// up, and the query holds no part condition.
pub proof fn lemma_all_parts_lifts_part_condition(filter: DataEntryFilter)
    requires
        all_parts_requested(filter),
    ensures
        !restricts_parts(filter),
        forall|i: int|
            0 <= i < query_conditions(filter, None).len() ==> (#[trigger] query_conditions(filter, None)[i]).0
                != "part"@,
{
    reveal_strlit("part");
    reveal_strlit("date");
    reveal_strlit("lotNumber");
    reveal_strlit("inspectorName");
    let conds = query_conditions(filter, None);
    assert forall|i: int| 0 <= i < conds.len() implies (#[trigger] conds[i]).0 != "part"@ by {
        assert(conds[i].0 == "date"@ || conds[i].0 == "lotNumber"@ || conds[i].0 == "inspectorName"@);
        assert(conds[i].0[0] != "part"@[0]);
    }
}

/// Whether `conds` holds a condition on `key` that includes `entry`.
pub open spec fn has_condition(
    conds: Seq<(Seq<char>, Seq<(Seq<char>, FieldValue)>)>,
    key: Seq<char>,
    entry: (Seq<char>, FieldValue),
) -> bool {
    exists|i: int| 0 <= i < conds.len() && #[trigger] conds[i].0 == key && conds[i].1.contains(entry)
}

/// A range condition holds each bound that is given, the lower one as `$gte` and the
/// upper one as `$lte`, whether or not the other bound is given, and nothing else.
pub proof fn lemma_range_bounds(low: Option<String>, high: Option<String>)
    ensures
        given(low) ==> range_fields(low, high).contains(("$gte"@, FieldValue::Text(low->0@))),
        given(high) ==> range_fields(low, high).contains(("$lte"@, FieldValue::Text(high->0@))),
        forall|i: int|
            0 <= i < range_fields(low, high).len() ==> (given(low) && #[trigger] range_fields(low, high)[i]
                == ("$gte"@, FieldValue::Text(low->0@))) || (given(high) && range_fields(low, high)[i]
                == ("$lte"@, FieldValue::Text(high->0@))),
{
    let r = range_fields(low, high);
    if given(low) {
        assert(r[0] == ("$gte"@, FieldValue::Text(low->0@)));
    }
    if given(high) {
        let j = r.len() - 1;
        assert(r[j] == ("$lte"@, FieldValue::Text(high->0@)));
    }
}

/// The query of the record list: with part ids, its first condition is that the part
/// is one of exactly those ids, all of them, in order; without, no condition is on the
/// part. Each given date bound, lot-number bound and inspector name is a condition of
/// the query, whatever else is given.
pub proof fn lemma_query_conditions(filter: DataEntryFilter, part_ids: Option<Seq<[u8; 12]>>)
    ensures
        part_ids matches Some(ids) ==> ({
            let c = query_conditions(filter, part_ids)[0];
            &&& c.0 == "part"@
            &&& c.1.len() == 1
            &&& c.1[0].0 == "$in"@
            &&& c.1[0].1 matches FieldValue::Array(items) && items.len() == ids.len() && forall|k: int|
                0 <= k < ids.len() ==> #[trigger] items[k] == FieldValue::ObjectId(ids[k]@)
        }),
        part_ids is None ==> forall|i: int|
            0 <= i < query_conditions(filter, part_ids).len() ==> #[trigger] query_conditions(filter, part_ids)[i].0
                != "part"@,
        given(filter.start_date) ==> has_condition(
            query_conditions(filter, part_ids),
            "date"@,
            ("$gte"@, FieldValue::Text(filter.start_date->0@)),
        ),
        given(filter.end_date) ==> has_condition(
            query_conditions(filter, part_ids),
            "date"@,
            ("$lte"@, FieldValue::Text(filter.end_date->0@)),
        ),
        given(filter.load_number_start) ==> has_condition(
            query_conditions(filter, part_ids),
            "lotNumber"@,
            ("$gte"@, FieldValue::Text(filter.load_number_start->0@)),
        ),
        given(filter.load_number_end) ==> has_condition(
            query_conditions(filter, part_ids),
            "lotNumber"@,
            ("$lte"@, FieldValue::Text(filter.load_number_end->0@)),
        ),
        given(filter.inspector_name) ==> has_condition(
            query_conditions(filter, part_ids),
            "inspectorName"@,
            ("$regex"@, FieldValue::Text(filter.inspector_name->0@)),
        ),
{
    let conds = query_conditions(filter, part_ids);
    let p: int = if part_ids is Some { 1 } else { 0 };
    let dt: int = if filter.start_date is Some || filter.end_date is Some { 1 } else { 0 };
    let lt: int = if filter.load_number_start is Some || filter.load_number_end is Some { 1 } else { 0 };
    lemma_range_bounds(filter.start_date, filter.end_date);
    lemma_range_bounds(filter.load_number_start, filter.load_number_end);
    if let Some(ids) = part_ids {
        let items = ids.map_values(|b: [u8; 12]| FieldValue::ObjectId(b@));
        assert(conds[0] == ("part"@, seq![("$in"@, FieldValue::Array(items))]));
    }
    if dt == 1 {
        assert(conds[p] == ("date"@, range_fields(filter.start_date, filter.end_date)));
        if given(filter.start_date) {
            assert(conds[p].1.contains(("$gte"@, FieldValue::Text(filter.start_date->0@))));
            assert(conds[p].0 == "date"@);
            assert(has_condition(conds, "date"@, ("$gte"@, FieldValue::Text(filter.start_date->0@))));
        }
        if given(filter.end_date) {
            assert(conds[p].1.contains(("$lte"@, FieldValue::Text(filter.end_date->0@))));
            assert(conds[p].0 == "date"@);
            assert(has_condition(conds, "date"@, ("$lte"@, FieldValue::Text(filter.end_date->0@))));
        }
    }
    if lt == 1 {
        assert(conds[p + dt] == ("lotNumber"@, range_fields(filter.load_number_start, filter.load_number_end)));
        if given(filter.load_number_start) {
            assert(conds[p + dt].1.contains(("$gte"@, FieldValue::Text(filter.load_number_start->0@))));
            assert(conds[p + dt].0 == "lotNumber"@);
            assert(has_condition(conds, "lotNumber"@, ("$gte"@, FieldValue::Text(filter.load_number_start->0@))));
        }
        if given(filter.load_number_end) {
            assert(conds[p + dt].1.contains(("$lte"@, FieldValue::Text(filter.load_number_end->0@))));
            assert(conds[p + dt].0 == "lotNumber"@);
            assert(has_condition(conds, "lotNumber"@, ("$lte"@, FieldValue::Text(filter.load_number_end->0@))));
        }
    }
    if given(filter.inspector_name) {
        let e = ("$regex"@, FieldValue::Text(filter.inspector_name->0@));
        assert(conds[p + dt + lt].0 == "inspectorName"@);
        assert(conds[p + dt + lt].1[0] == e);
    }
    if part_ids is None {
        reveal_strlit("part");
        reveal_strlit("date");
        reveal_strlit("lotNumber");
        reveal_strlit("inspectorName");
        assert forall|i: int| 0 <= i < conds.len() implies #[trigger] conds[i].0 != "part"@ by {
            assert(conds[i].0 == "date"@ || conds[i].0 == "lotNumber"@ || conds[i].0 == "inspectorName"@);
            assert("part"@[0] == 'p');
            assert(conds[i].0[0] != 'p');
        }
    }
}

} // verus!
