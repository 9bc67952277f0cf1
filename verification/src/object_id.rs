use vstd::prelude::*;

verus! {

/// The value of a hexadecimal digit, of either case.
pub open spec fn hex_value(c: char) -> Option<int> {
    if '0' <= c && c <= '9' {
        Some(c as int - 48)
    } else if 'a' <= c && c <= 'f' {
        Some(c as int - 87)
    } else if 'A' <= c && c <= 'F' {
        Some(c as int - 55)
    } else {
        None
    }
}

/// The lower-case hexadecimal digit for `n < 16`.
pub open spec fn hex_digit(n: int) -> char {
    if n < 10 {
        (n + 48) as char
    } else {
        (n + 87) as char
    }
}

/// Whether `s` is the text of an object id: exactly 24 hexadecimal digits.
pub open spec fn is_object_id_text(s: Seq<char>) -> bool {
    s.len() == 24 && forall|i: int| 0 <= i < 24 ==> #[trigger] hex_value(s[i]) is Some
}

/// The 12 bytes that the 24 hexadecimal digits `s` spell, two digits per byte.
pub open spec fn object_id_bytes(s: Seq<char>) -> Seq<u8> {
    Seq::new(12, |i: int| (hex_value(s[2 * i])->0 * 16 + hex_value(s[2 * i + 1])->0) as u8)
}

/// The object id that `s` spells, if it is one.
pub open spec fn parsed_object_id(s: Seq<char>) -> Option<Seq<u8>> {
    if is_object_id_text(s) {
        Some(object_id_bytes(s))
    } else {
        None
    }
}

/// The lower-case hexadecimal text of the bytes `b`, two digits per byte.
pub open spec fn hex_text(b: Seq<u8>) -> Seq<char> {
    Seq::new(
        2 * b.len(),
        |i: int|
            if i % 2 == 0 {
                hex_digit(b[i / 2] as int / 16)
            } else {
                hex_digit(b[i / 2] as int % 16)
            },
    )
}

/// Parses an object id from its hexadecimal text (`bson::oid::ObjectId::parse_str`).
/// Claims that the text is accepted exactly when it is 24 hexadecimal digits of either
/// case, and that the id then holds the bytes they spell: `parse_str` hex-decodes the
/// text and refuses any result that is not 12 bytes long.
#[verifier::external_body]
fn parse_object_id_text(s: &str) -> (r: Option<[u8; 12]>)
    ensures
        r is Some <==> is_object_id_text(s@),
        r matches Some(b) ==> b@ == object_id_bytes(s@),
{
    mongodb::bson::oid::ObjectId::parse_str(s).ok().map(|id| id.bytes())
}

/// The hexadecimal text of an object id (`bson::oid::ObjectId::to_hex`).
/// Claims that the text is the lower-case hex encoding of the 12 bytes, which is what
/// `to_hex` returns through `hex::encode`.
#[verifier::external_body]
pub(crate) fn object_id_hex(id: [u8; 12]) -> (r: String)
    ensures
        r@ == hex_text(id@),
{
    mongodb::bson::oid::ObjectId::from_bytes(id).to_hex()
}

/// The message for an id that is not a valid object id.
pub open spec fn invalid_id_message(label: Seq<char>) -> Seq<char> {
    "Invalid "@ + label + " id"@
}

/// Parses the object id `id` of an item of kind `label`; an id that is not 24
/// hexadecimal digits is refused with a message that names the kind.
pub fn parse_object_id(id: &str, label: &str) -> (r: Result<[u8; 12], String>)
    ensures
        r is Ok <==> is_object_id_text(id@),
        r matches Ok(b) ==> b@ == object_id_bytes(id@),
        r matches Err(e) ==> e@ == invalid_id_message(label@),
{
    match parse_object_id_text(id) {
        Some(b) => Ok(b),
        None => {
            let mut msg = "Invalid ".to_owned();
            msg.append(label);
            msg.append(" id");
            Err(msg)
        },
    }
}

proof fn lemma_hex_digit_value(n: int)
    requires
        0 <= n < 16,
    ensures
        hex_value(hex_digit(n)) == Some(n),
{
}

/// Reading back the text of an object id gives the same id.
pub proof fn lemma_object_id_round_trip(b: Seq<u8>)
    requires
        b.len() == 12,
    ensures
        parsed_object_id(hex_text(b)) == Some(b),
{
    let t = hex_text(b);
    assert forall|i: int| 0 <= i < 24 implies #[trigger] hex_value(t[i]) is Some by {
        lemma_hex_digit_value(if i % 2 == 0 { b[i / 2] as int / 16 } else { b[i / 2] as int % 16 });
    }
    assert forall|i: int| 0 <= i < 12 implies #[trigger] object_id_bytes(t)[i] == b[i] by {
        let hi = b[i] as int / 16;
        let lo = b[i] as int % 16;
        lemma_hex_digit_value(hi);
        lemma_hex_digit_value(lo);
        assert((2 * i) % 2 == 0 && (2 * i) / 2 == i);
        assert((2 * i + 1) % 2 == 1 && (2 * i + 1) / 2 == i);
        assert(hi * 16 + lo == b[i] as int);
    }
    assert(object_id_bytes(t) =~= b);
}

/// The text of a parsed id is the lower-case form of the text it was read from.
pub proof fn lemma_object_id_text_lowercase(s: Seq<char>)
    requires
        is_object_id_text(s),
        forall|i: int| 0 <= i < s.len() ==> !('A' <= #[trigger] s[i] && s[i] <= 'F'),
    ensures
        hex_text(object_id_bytes(s)) == s,
{
    let b = object_id_bytes(s);
    assert forall|i: int| 0 <= i < 24 implies #[trigger] hex_text(b)[i] == s[i] by {
        let j = i / 2;
        assert(0 <= j < 12);
        let hi = hex_value(s[2 * j])->0;
        let lo = hex_value(s[2 * j + 1])->0;
        assert(hex_value(s[2 * j]) is Some);
        assert(hex_value(s[2 * j + 1]) is Some);
        assert(0 <= hi < 16 && 0 <= lo < 16);
        assert(b[j] as int == hi * 16 + lo);
        assert((hi * 16 + lo) / 16 == hi && (hi * 16 + lo) % 16 == lo) by (nonlinear_arith)
            requires
                0 <= hi < 16,
                0 <= lo < 16,
        ;
        if i % 2 == 0 {
            assert(i == 2 * j);
        } else {
            assert(i == 2 * j + 1);
        }
    }
    assert(hex_text(b) =~= s);
}

} // verus!
