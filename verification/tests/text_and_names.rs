use inventory::names::{normalize_name, normalize_preference_name, split_words};
use inventory::catalog::{document_id, inserted_named_entity};
use inventory::document::insert_object_id;
use inventory::object_id::parse_object_id;
use mongodb::bson::Document;
use inventory::ordering::{sort_by_lowercase, text_less};
use inventory::text::{is_blank, is_whitespace, push_decimal, trim_str};

#[test]
fn whitespace_matches_std_for_every_char() {
    for code in 0u32..=0x10FFFF {
        if let Some(c) = char::from_u32(code) {
            assert_eq!(is_whitespace(c), c.is_whitespace(), "char {:x}", code);
        }
    }
}

#[test]
fn trim_matches_std() {
    let samples = [
        "",
        "   ",
        "abc",
        "  abc  ",
        "\t\n a b \u{3000}",
        "\u{a0}x\u{2028}",
        "x  y",
        "\u{200b}z",
    ];
    for s in samples {
        assert_eq!(trim_str(s), s.trim());
        assert_eq!(is_blank(s), s.trim().is_empty());
    }
}

#[test]
fn trim_is_idempotent_on_examples() {
    for s in ["  a  ", "\u{85}b\u{85}", "", " c d "] {
        let once = trim_str(s);
        assert_eq!(trim_str(&once), once);
    }
}

#[test]
fn decimal_text_of_numbers() {
    for n in [0u64, 7, 10, 27017, 4294967295, u64::MAX] {
        let mut s = String::from("#");
        push_decimal(&mut s, n);
        assert_eq!(s, format!("#{}", n));
    }
}

#[test]
fn words_are_split_like_std() {
    for s in ["", "  ", "one", " one  two\tthree\n", "a\u{3000}b"] {
        let ours = split_words(s);
        let std: Vec<String> = s.split_whitespace().map(str::to_string).collect();
        assert_eq!(ours, std);
    }
}

#[test]
fn names_are_capitalized_word_by_word() {
    assert_eq!(normalize_name("  hello   WORLD ").unwrap(), "Hello World");
    assert_eq!(normalize_name("bRAKE\tpad").unwrap(), "Brake Pad");
    assert_eq!(normalize_name("éCOLE").unwrap(), "École");
    assert_eq!(normalize_name("x").unwrap(), "X");
}

#[test]
fn ascii_names_normalize_to_themselves() {
    for s in ["  hello   WORLD ", "bRAKE\tpad", "x", "o'NEIL  jr.", "a-b C_d 42"] {
        let once = normalize_name(s).unwrap();
        assert_eq!(normalize_name(&once).unwrap(), once);
        assert!(once.is_ascii());
        assert!(once.split(' ').all(|w| !w.is_empty() && !w.contains(char::is_whitespace)));
    }
    let once = normalize_name("ß").unwrap();
    assert_eq!(once, "SS");
    assert_eq!(normalize_name(&once).unwrap(), "Ss");
}

#[test]
fn only_the_words_of_a_name_count() {
    assert_eq!(normalize_name("brake PAD").unwrap(), normalize_name("\n BRAKE \t\t pad  ").unwrap());
    assert_eq!(normalize_name("Side Panel").unwrap(), normalize_name("side\u{b}panel").unwrap());
    assert_ne!(normalize_name("side panel").unwrap(), normalize_name("sidepanel").unwrap());
}

#[test]
fn blank_names_are_refused() {
    assert_eq!(normalize_name("").unwrap_err(), "Name is required");
    assert_eq!(normalize_name(" \t\n").unwrap_err(), "Name is required");
}

#[test]
fn name_accepted_exactly_when_not_blank() {
    for s in ["", " ", "a", " b ", "\u{2003}", "\u{2003}c"] {
        assert_eq!(normalize_name(s).is_ok(), !s.trim().is_empty());
    }
}

#[test]
fn preference_names_are_trimmed() {
    assert_eq!(normalize_preference_name("  Report Title ").unwrap(), "Report Title");
    assert_eq!(normalize_preference_name("x").unwrap(), "x");
    assert_eq!(normalize_preference_name("   ").unwrap_err(), "Preference name is required");
}

#[test]
fn preference_name_normalizes_to_itself() {
    let once = normalize_preference_name("\t theme  ").unwrap();
    assert_eq!(normalize_preference_name(&once).unwrap(), once);
}

#[test]
fn object_ids_are_parsed_from_hex() {
    let id = parse_object_id("0123456789abcdefABCDEF01", "part").unwrap();
    assert_eq!(
        id,
        [0x01, 0x23, 0x45, 0x67, 0x89, 0xab, 0xcd, 0xef, 0xab, 0xcd, 0xef, 0x01]
    );
    let mut d = Document::new();
    insert_object_id(&mut d, "_id", id);
    assert_eq!(document_id(&d).unwrap(), "0123456789abcdefabcdef01");
}

#[test]
fn bad_object_ids_are_refused_with_the_kind() {
    assert_eq!(parse_object_id("xyz", "part").unwrap_err(), "Invalid part id");
    assert_eq!(
        parse_object_id("0123456789abcdef0123456", "rejection").unwrap_err(),
        "Invalid rejection id"
    );
    assert_eq!(
        parse_object_id("0123456789abcdef012345678", "parts").unwrap_err(),
        "Invalid parts id"
    );
    assert_eq!(parse_object_id("0123456789abcdef0123456g", "x").unwrap_err(), "Invalid x id");
}

#[test]
fn object_id_text_round_trips() {
    let bytes = [255u8, 0, 16, 1, 2, 3, 4, 5, 6, 7, 8, 9];
    let text = inserted_named_entity(Some(bytes), "Bolt".to_string()).unwrap().id;
    assert_eq!(text, "ff0010010203040506070809");
    assert_eq!(parse_object_id(&text, "part").unwrap(), bytes);
}

#[test]
fn text_order_matches_string_order() {
    let samples = ["", "a", "ab", "b", "B", "é", "z", "aa"];
    for a in samples {
        for b in samples {
            assert_eq!(text_less(a, b), a < b, "{:?} < {:?}", a, b);
        }
    }
}

#[test]
fn collection_names_sort_like_std() {
    let names: Vec<String> = ["parts", "Dataentries", "rejections", "Preferences", "PARTS", "alpha"]
        .iter()
        .map(|s| s.to_string())
        .collect();
    let mut expected = names.clone();
    expected.sort_by_key(|name| name.to_lowercase());
    assert_eq!(sort_by_lowercase(names), expected);
}
