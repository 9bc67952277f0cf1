use vstd::prelude::*;

use crate::text::{is_space, is_whitespace, push_char, trim, trim_str};

verus! {

/// What `char::to_uppercase` gives for `c`, collected into a string.
pub uninterp spec fn char_uppercase(c: char) -> Seq<char>;

/// What `str::to_lowercase` gives for `s`.
pub uninterp spec fn str_lowercase(s: Seq<char>) -> Seq<char>;

/// Whether `c` is an ASCII character.
pub open spec fn is_ascii_char(c: char) -> bool {
    (c as u32) < 128
}

/// Whether every character of `s` is ASCII.
pub open spec fn all_ascii(s: Seq<char>) -> bool {
    forall|i: int| 0 <= i < s.len() ==> is_ascii_char(#[trigger] s[i])
}

/// The ASCII upper-case form of `c`: `a` to `z` become `A` to `Z`, anything else stays.
pub open spec fn ascii_upper(c: char) -> char {
    if 'a' <= c && c <= 'z' {
        ((c as u32) - 32) as char
    } else {
        c
    }
}

/// The ASCII lower-case form of `c`: `A` to `Z` become `a` to `z`, anything else stays.
pub open spec fn ascii_lower(c: char) -> char {
    if 'A' <= c && c <= 'Z' {
        ((c as u32) + 32) as char
    } else {
        c
    }
}

/// `s` with every character in its ASCII lower-case form.
pub open spec fn ascii_lowercase(s: Seq<char>) -> Seq<char> {
    s.map_values(|c: char| ascii_lower(c))
}

/// The upper-case form of one character: the ASCII mapping for an ASCII character,
/// the Unicode mapping otherwise.
pub open spec fn upper_of(c: char) -> Seq<char> {
    if is_ascii_char(c) {
        seq![ascii_upper(c)]
    } else {
        char_uppercase(c)
    }
}

/// The lower-case form of a text: the ASCII mapping, character by character, for an
/// ASCII text; the Unicode mapping otherwise.
pub open spec fn lower_of(s: Seq<char>) -> Seq<char> {
    if all_ascii(s) {
        ascii_lowercase(s)
    } else {
        str_lowercase(s)
    }
}

/// The ASCII case mappings keep ASCII characters ASCII and whitespace whitespace,
/// and each forgets the other's work.
proof fn lemma_ascii_case(c: char)
    requires
        is_ascii_char(c),
    ensures
        is_ascii_char(ascii_upper(c)),
        is_ascii_char(ascii_lower(c)),
        is_space(ascii_upper(c)) == is_space(c),
        is_space(ascii_lower(c)) == is_space(c),
        ascii_upper(ascii_upper(c)) == ascii_upper(c),
        ascii_lower(ascii_lower(c)) == ascii_lower(c),
        ascii_upper(ascii_lower(c)) == ascii_upper(c),
        ascii_lower(ascii_upper(c)) == ascii_lower(c),
{
}

/// Upper-cases one character (`char::to_uppercase`, collected).
/// Claims that the result is the named Unicode mapping of `c`; that it holds one or
/// more characters, as the standard library documents; and that for an ASCII
/// character it is the ASCII upper-case form: in the Unicode data the ASCII letters
/// `a` to `z` map to `A` to `Z` and no other ASCII character has a mapping, and the
/// documentation of `char::to_ascii_uppercase` names `to_uppercase` as the function
/// that upper-cases ASCII characters too.
#[verifier::external_body]
fn upper_char(c: char) -> (r: String)
    ensures
        r@ == char_uppercase(c),
        r@.len() >= 1,
        is_ascii_char(c) ==> r@ == seq![ascii_upper(c)],
{
    c.to_uppercase().collect::<String>()
}

/// Lower-cases a text (`str::to_lowercase`).
/// Claims that the result is the named Unicode mapping of `s`, and that for an ASCII
/// text it is the text with each character in its ASCII lower-case form: in the
/// Unicode data the ASCII letters `A` to `Z` map to `a` to `z`, no other ASCII
/// character has a mapping, and the one rule that looks at neighbouring characters
/// (final sigma) concerns a non-ASCII letter; the documentation of
/// `str::to_ascii_lowercase` names `to_lowercase` as the function that lower-cases
/// ASCII characters too.
#[verifier::external_body]
pub(crate) fn lower_str(s: &str) -> (r: String)
    ensures
        r@ == str_lowercase(s@),
        all_ascii(s@) ==> r@ == ascii_lowercase(s@),
{
    s.to_lowercase()
}

/// The runs of non-whitespace characters of `s`, in order (`str::split_whitespace`).
pub open spec fn words(s: Seq<char>) -> Seq<Seq<char>>
    decreases s.len(),
{
    if s.len() == 0 {
        seq![]
    } else {
        let prev = words(s.drop_last());
        if is_space(s.last()) {
            prev
        } else if s.len() >= 2 && !is_space(s[s.len() - 2]) {
            prev.update(prev.len() - 1, prev.last().push(s.last()))
        } else {
            prev.push(seq![s.last()])
        }
    }
}

/// A word with its first character upper-cased and the rest lower-cased.
pub open spec fn capitalized(w: Seq<char>) -> Seq<char> {
    upper_of(w[0]) + lower_of(w.drop_first())
}

/// A word capitalized by the standard library's mappings: `char::to_uppercase` of its
/// first character followed by `str::to_lowercase` of the rest, whatever characters
/// they are.
pub open spec fn std_capitalized(w: Seq<char>) -> Seq<char> {
    char_uppercase(w[0]) + str_lowercase(w.drop_first())
}

/// The words `ws` joined by single spaces.
pub open spec fn join_words(ws: Seq<Seq<char>>) -> Seq<char>
    decreases ws.len(),
{
    if ws.len() == 0 {
        seq![]
    } else if ws.len() == 1 {
        ws[0]
    } else {
        join_words(ws.drop_last()) + seq![' '] + ws.last()
    }
}

/// A display name built with the standard library's case mappings.
pub open spec fn std_display_name(s: Seq<char>) -> Seq<char> {
    join_words(words(s).map_values(|w: Seq<char>| std_capitalized(w)))
}

/// A display name: the words of `s`, each capitalized, joined by single spaces.
pub open spec fn display_name(s: Seq<char>) -> Seq<char> {
    join_words(words(s).map_values(|w: Seq<char>| capitalized(w)))
}

proof fn lemma_words_step(s: Seq<char>, i: int)
    requires
        0 <= i < s.len(),
    ensures
        s.take(i + 1).drop_last() == s.take(i),
        s.take(i + 1).last() == s[i],
        i >= 1 ==> s.take(i + 1)[i - 1] == s[i - 1],
{
    assert(s.take(i + 1).drop_last() =~= s.take(i));
}

/// The words are non-empty; there is a last word exactly when the text ends in one.
proof fn lemma_words_shape(s: Seq<char>)
    ensures
        forall|k: int| 0 <= k < words(s).len() ==> #[trigger] words(s)[k].len() > 0,
        s.len() > 0 && !is_space(s.last()) ==> words(s).len() > 0,
        words(s).len() == 0 <==> (forall|k: int| 0 <= k < s.len() ==> is_space(#[trigger] s[k])),
    decreases s.len(),
{
    if s.len() > 0 {
        let p = s.drop_last();
        lemma_words_shape(p);
        assert(forall|k: int| 0 <= k < p.len() ==> #[trigger] p[k] == s[k]);
        if !is_space(s.last()) {
            assert(!is_space(s[s.len() - 1]));
        } else if forall|k: int| 0 <= k < p.len() ==> is_space(#[trigger] p[k]) {
            assert forall|k: int| 0 <= k < s.len() implies is_space(#[trigger] s[k]) by {
                if k < p.len() {
                    assert(p[k] == s[k]);
                }
            }
        } else {
            let k = choose|k: int| 0 <= k < p.len() && !is_space(#[trigger] p[k]);
            assert(!is_space(s[k]));
        }
        if s.len() >= 2 && !is_space(s[s.len() - 2]) {
            assert(!is_space(p.last()));
        }
    }
}

/// Capitalizes the word `w`.
fn capitalize(w: &str) -> (r: String)
    requires
        w@.len() > 0,
    ensures
        r@ == capitalized(w@),
        r@ == std_capitalized(w@),
        r@.len() > 0,
{
    let n = w.unicode_len();
    let first = upper_char(w.get_char(0));
    let rest = lower_str(w.substring_char(1, n));
    assert(w@.subrange(1, n as int) =~= w@.drop_first());
    let mut out = first;
    out.append(rest.as_str());
    out
}

/// The words of `s` (`str::split_whitespace`).
pub fn split_words(s: &str) -> (r: Vec<String>)
    ensures
        r@.map_values(|w: String| w@) == words(s@),
{
    let n = s.unicode_len();
    let mut done: Vec<String> = Vec::new();
    let mut cur = String::new();
    let mut in_word = false;
    let mut i: usize = 0;
    while i < n
        invariant
            n == s@.len(),
            i <= n,
            in_word ==> i > 0 && !is_space(s@[i - 1]) && cur@.len() > 0,
            !in_word ==> (i == 0 || is_space(s@[i - 1])) && cur@.len() == 0,
            words(s@.take(i as int)) == done@.map_values(|w: String| w@) + (if in_word {
                seq![cur@]
            } else {
                seq![]
            }),
        decreases n - i,
    {
        let c = s.get_char(i);
        proof {
            lemma_words_step(s@, i as int);
        }
        let ghost before = done@.map_values(|w: String| w@) + (if in_word {
            seq![cur@]
        } else {
            seq![]
        });
        if is_whitespace(c) {
            if in_word {
                let w = cur;
                cur = String::new();
                done.push(w);
                in_word = false;
                assert(done@.map_values(|w: String| w@) =~= before);
            }
        } else {
            if in_word {
                let ghost old_cur = cur@;
                push_char(&mut cur, c);
                assert(done@.map_values(|w: String| w@) + seq![cur@] =~= before.update(
                    before.len() - 1,
                    before.last().push(c),
                ));
            } else {
                push_char(&mut cur, c);
                in_word = true;
                assert(cur@ =~= seq![c]);
                assert(done@.map_values(|w: String| w@) + seq![cur@] =~= before.push(seq![c]));
            }
        }
        i = i + 1;
    }
    if in_word {
        done.push(cur);
    }
    assert(s@.take(n as int) =~= s@);
    assert(done@.map_values(|w: String| w@) =~= words(s@));
    done
}

/// Normalizes a name for display: its words, each with an upper-case first letter and
/// the rest lower-case, joined by single spaces. A name without any word is refused.
pub fn normalize_name(value: &str) -> (r: Result<String, String>)
    ensures
        r is Ok <==> trim(value@).len() > 0,
        r is Ok <==> display_name(value@).len() > 0,
        r matches Ok(n) ==> n@ == display_name(value@),
        r matches Ok(n) ==> n@ == std_display_name(value@),
        r matches Err(e) ==> e@ == "Name is required"@,
{
    let parts = split_words(value);
    let ghost ws = words(value@);
    proof {
        lemma_words_shape(value@);
    }
    let mut out = String::new();
    let mut i: usize = 0;
    let ghost caps = ws.map_values(|w: Seq<char>| capitalized(w));
    let ghost scaps = ws.map_values(|w: Seq<char>| std_capitalized(w));
    while i < parts.len()
        invariant
            parts@.map_values(|w: String| w@) == ws,
            ws == words(value@),
            caps == ws.map_values(|w: Seq<char>| capitalized(w)),
            scaps == ws.map_values(|w: Seq<char>| std_capitalized(w)),
            out@ == join_words(scaps.take(i as int)),
            forall|k: int| 0 <= k < ws.len() ==> #[trigger] ws[k].len() > 0,
            i <= parts.len(),
            out@ == join_words(caps.take(i as int)),
            i > 0 ==> out@.len() > 0,
        decreases parts.len() - i,
    {
        assert(parts@[i as int]@ == ws[i as int]);
        let word = capitalize(parts[i].as_str());
        assert(caps.take(i + 1).drop_last() =~= caps.take(i as int));
        assert(scaps.take(i + 1).drop_last() =~= scaps.take(i as int));
        if i > 0 {
            out.append(" ");
            proof {
                reveal_strlit(" ");
            }
        }
        out.append(word.as_str());
        i = i + 1;
        assert(out@ =~= join_words(caps.take(i as int)));
        assert(out@ =~= join_words(scaps.take(i as int)));
    }
    assert(caps.take(parts.len() as int) =~= caps);
    assert(scaps.take(parts.len() as int) =~= scaps);
    proof {
        crate::text::lemma_trim_blank(value@);
    }
    if out.as_str().is_empty() {
        Err("Name is required".to_owned())
    } else {
        Ok(out)
    }
}

/// Normalizes a preference name: the name without surrounding whitespace.
/// A name that is nothing but whitespace is refused.
pub fn normalize_preference_name(value: &str) -> (r: Result<String, String>)
    ensures
        r is Ok <==> trim(value@).len() > 0,
        r matches Ok(n) ==> n@ == trim(value@),
        r matches Err(e) ==> e@ == "Preference name is required"@,
{
    let name = trim_str(value);
    if name.as_str().is_empty() {
        Err("Preference name is required".to_owned())
    } else {
        Ok(name)
    }
}


/// A preference name that is accepted is accepted again once normalized, and
/// normalizes to itself.
pub proof fn lemma_preference_name_stable(value: Seq<char>)
    requires
        trim(value).len() > 0,
    ensures
        trim(trim(value)).len() > 0,
        trim(trim(value)) == trim(value),
{
    crate::text::lemma_trim_idempotent(value);
}

/// A capitalized word is its first character upper-cased followed by the rest of the
/// word lower-cased. The rest is lower-cased as `str::to_lowercase` does it: by the
/// Unicode mapping when it holds a non-ASCII character, by the ASCII mapping, which
/// is what `to_lowercase` gives there, when it is all ASCII. Likewise the first
/// character is upper-cased by `char::to_uppercase`'s Unicode mapping when it is not
/// ASCII, and by the ASCII mapping when it is.
pub proof fn lemma_capitalized_word(w: Seq<char>)
    requires
        w.len() > 0,
    ensures
        !is_ascii_char(w[0]) && !all_ascii(w.drop_first()) ==> capitalized(w) == char_uppercase(w[0])
            + str_lowercase(w.drop_first()),
        !is_ascii_char(w[0]) && all_ascii(w.drop_first()) ==> capitalized(w) == char_uppercase(w[0])
            + ascii_lowercase(w.drop_first()),
        is_ascii_char(w[0]) && !all_ascii(w.drop_first()) ==> capitalized(w) == seq![ascii_upper(w[0])]
            + str_lowercase(w.drop_first()),
        is_ascii_char(w[0]) && all_ascii(w.drop_first()) ==> capitalized(w) == seq![ascii_upper(w[0])]
            + ascii_lowercase(w.drop_first()),
{
}

/// Whether `w` is a word: non-empty, without whitespace.
pub open spec fn is_word(w: Seq<char>) -> bool {
    w.len() > 0 && forall|j: int| 0 <= j < w.len() ==> !is_space(#[trigger] w[j])
}

/// The words of an ASCII text are ASCII words.
proof fn lemma_words_ascii(s: Seq<char>)
    requires
        all_ascii(s),
    ensures
        forall|k: int| 0 <= k < words(s).len() ==> is_word(#[trigger] words(s)[k]) && all_ascii(words(s)[k]),
    decreases s.len(),
{
    lemma_words_shape(s);
    if s.len() > 0 {
        let p = s.drop_last();
        assert(all_ascii(p)) by {
            assert forall|i: int| 0 <= i < p.len() implies is_ascii_char(#[trigger] p[i]) by {
                assert(p[i] == s[i]);
            }
        }
        lemma_words_ascii(p);
        let prev = words(p);
        let c = s.last();
        assert(is_ascii_char(c)) by {
            assert(is_ascii_char(s[s.len() - 1]));
        }
        if !is_space(c) && s.len() >= 2 && !is_space(s[s.len() - 2]) {
            lemma_words_shape(p);
            assert(p.last() == s[s.len() - 2]);
            assert(prev.len() > 0);
            let w = prev.last().push(c);
            assert(is_word(prev[prev.len() - 1]) && all_ascii(prev[prev.len() - 1]));
            assert(is_word(w)) by {
                assert forall|j: int| 0 <= j < w.len() implies !is_space(#[trigger] w[j]) by {
                    if j < w.len() - 1 {
                        assert(w[j] == prev.last()[j]);
                    }
                }
            }
            assert(all_ascii(w)) by {
                assert forall|j: int| 0 <= j < w.len() implies is_ascii_char(#[trigger] w[j]) by {
                    if j < w.len() - 1 {
                        assert(w[j] == prev.last()[j]);
                    }
                }
            }
            let r = prev.update(prev.len() - 1, w);
            assert forall|k: int| 0 <= k < r.len() implies is_word(#[trigger] r[k]) && all_ascii(r[k]) by {
                if k < prev.len() - 1 {
                    assert(r[k] == prev[k]);
                }
            }
        } else if !is_space(c) {
            let r = prev.push(seq![c]);
            assert(is_word(seq![c]));
            assert(all_ascii(seq![c]));
            assert forall|k: int| 0 <= k < r.len() implies is_word(#[trigger] r[k]) && all_ascii(r[k]) by {
                if k < prev.len() {
                    assert(r[k] == prev[k]);
                }
            }
        }
    }
}

/// Appending whitespace adds no word.
proof fn lemma_words_push_space(x: Seq<char>, c: char)
    requires
        is_space(c),
    ensures
        words(x.push(c)) == words(x),
{
    assert(x.push(c).drop_last() =~= x);
}

/// Appending a word to a text that is empty or ends in whitespace adds that word.
proof fn lemma_words_append_word(x: Seq<char>, b: Seq<char>)
    requires
        x.len() == 0 || is_space(x.last()),
        is_word(b),
    ensures
        words(x + b) == words(x).push(b),
    decreases b.len(),
{
    let s = x + b;
    let c = b.last();
    assert(!is_space(b[b.len() - 1]));
    assert(s.drop_last() =~= x + b.drop_last());
    assert(s.last() == c);
    if b.len() == 1 {
        assert(x + b.drop_last() =~= x);
        if s.len() >= 2 {
            assert(s[s.len() - 2] == x.last());
        }
        assert(b =~= seq![c]);
    } else {
        let b2 = b.drop_last();
        assert(is_word(b2)) by {
            assert forall|j: int| 0 <= j < b2.len() implies !is_space(#[trigger] b2[j]) by {
                assert(b2[j] == b[j]);
            }
        }
        lemma_words_append_word(x, b2);
        assert(s[s.len() - 2] == b[b.len() - 2]);
        assert(!is_space(b[b.len() - 2]));
        let prev = words(x).push(b2);
        assert(prev.update(prev.len() - 1, prev.last().push(c)) =~= words(x).push(b)) by {
            assert(b2.push(c) =~= b);
        }
    }
}

/// The words of words joined by single spaces are those words.
proof fn lemma_words_of_joined(ws: Seq<Seq<char>>)
    requires
        forall|k: int| 0 <= k < ws.len() ==> is_word(#[trigger] ws[k]),
    ensures
        words(join_words(ws)) == ws,
    decreases ws.len(),
{
    if ws.len() == 0 {
        assert(words(seq![]) =~= ws);
    } else if ws.len() == 1 {
        assert(is_word(ws[0]));
        lemma_words_append_word(seq![], ws[0]);
        assert(seq![] + ws[0] =~= ws[0]);
        assert(seq![].push(ws[0]) =~= ws);
        assert(words(Seq::<char>::empty()) =~= Seq::<Seq<char>>::empty());
    } else {
        let front = ws.drop_last();
        assert forall|k: int| 0 <= k < front.len() implies is_word(#[trigger] front[k]) by {
            assert(front[k] == ws[k]);
        }
        lemma_words_of_joined(front);
        let x = join_words(front).push(' ');
        lemma_words_push_space(join_words(front), ' ');
        assert(is_word(ws[ws.len() - 1]));
        lemma_words_append_word(x, ws.last());
        assert(join_words(front) + seq![' '] =~= x);
        assert(front.push(ws.last()) =~= ws);
    }
}

/// An ASCII word, capitalized: its first character upper-cased, the rest lower-cased,
/// all in ASCII.
proof fn lemma_capitalized_ascii(w: Seq<char>)
    requires
        is_word(w),
        all_ascii(w),
    ensures
        capitalized(w) == seq![ascii_upper(w[0])] + ascii_lowercase(w.drop_first()),
        is_word(capitalized(w)),
        all_ascii(capitalized(w)),
        capitalized(capitalized(w)) == capitalized(w),
{
    let rest = w.drop_first();
    assert(is_ascii_char(w[0]));
    assert(all_ascii(rest)) by {
        assert forall|i: int| 0 <= i < rest.len() implies is_ascii_char(#[trigger] rest[i]) by {
            assert(rest[i] == w[i + 1]);
        }
    }
    let cw = capitalized(w);
    assert(cw =~= seq![ascii_upper(w[0])] + ascii_lowercase(rest));
    lemma_ascii_case(w[0]);
    assert(!is_space(w[0]));
    assert forall|j: int| 0 <= j < cw.len() implies !is_space(#[trigger] cw[j]) && is_ascii_char(cw[j]) by {
        if j > 0 {
            assert(cw[j] == ascii_lower(rest[j - 1]));
            assert(rest[j - 1] == w[j]);
            lemma_ascii_case(w[j]);
        }
    }
    assert(all_ascii(cw));
    let rest2 = cw.drop_first();
    assert(rest2 =~= ascii_lowercase(rest));
    assert(all_ascii(rest2)) by {
        assert forall|i: int| 0 <= i < rest2.len() implies is_ascii_char(#[trigger] rest2[i]) by {
            assert(rest2[i] == cw[i + 1]);
        }
    }
    assert(ascii_lowercase(rest2) =~= rest2) by {
        assert forall|i: int| 0 <= i < rest2.len() implies #[trigger] ascii_lowercase(rest2)[i] == rest2[i] by {
            lemma_ascii_case(rest[i]);
        }
    }
    assert(capitalized(cw) =~= cw);
}

/// An ASCII name that is accepted normalizes, once normalized, to itself: normalizing
/// twice gives what normalizing once gave. Its normalized form is ASCII, and its words
/// are the capitalized words of the name: no whitespace inside a word, single spaces
/// between them.
pub proof fn lemma_display_name_ascii_stable(v: Seq<char>)
    requires
        all_ascii(v),
        display_name(v).len() > 0,
    ensures
        display_name(display_name(v)) == display_name(v),
        all_ascii(display_name(v)),
        words(display_name(v)) == words(v).map_values(|w: Seq<char>| capitalized(w)),
        forall|k: int| 0 <= k < words(display_name(v)).len() ==> is_word(#[trigger] words(display_name(v))[k]),
{
    let ws = words(v);
    let caps = ws.map_values(|w: Seq<char>| capitalized(w));
    lemma_words_ascii(v);
    assert forall|k: int| 0 <= k < caps.len() implies is_word(#[trigger] caps[k]) && all_ascii(caps[k]) && capitalized(caps[k]) == caps[k] by {
        lemma_capitalized_ascii(ws[k]);
    }
    lemma_words_of_joined(caps);
    assert(caps.map_values(|w: Seq<char>| capitalized(w)) =~= caps);
    lemma_join_ascii(caps);
}

/// Words that are all ASCII join to an ASCII text.
proof fn lemma_join_ascii(ws: Seq<Seq<char>>)
    requires
        forall|k: int| 0 <= k < ws.len() ==> all_ascii(#[trigger] ws[k]),
    ensures
        all_ascii(join_words(ws)),
    decreases ws.len(),
{
    if ws.len() == 1 {
        assert(all_ascii(ws[0]));
    } else if ws.len() > 1 {
        let front = ws.drop_last();
        assert forall|k: int| 0 <= k < front.len() implies all_ascii(#[trigger] front[k]) by {
            assert(front[k] == ws[k]);
        }
        lemma_join_ascii(front);
        let a = join_words(front);
        let l = ws.last();
        assert(all_ascii(ws[ws.len() - 1]));
        let j = a + seq![' '] + l;
        assert forall|i: int| 0 <= i < j.len() implies is_ascii_char(#[trigger] j[i]) by {
            if i < a.len() {
                assert(j[i] == a[i]);
            } else if i > a.len() {
                assert(j[i] == l[i - a.len() - 1]);
            }
        }
    }
}

/// Of an ASCII name, only the words count, up to ASCII case: two ASCII texts whose
/// words agree when lower-cased normalize alike, whatever whitespace surrounds and
/// separates the words.
pub proof fn lemma_display_name_depends_on_words(v: Seq<char>, w: Seq<char>)
    requires
        all_ascii(v),
        all_ascii(w),
        words(v).map_values(|x: Seq<char>| ascii_lowercase(x)) == words(w).map_values(
            |x: Seq<char>| ascii_lowercase(x),
        ),
    ensures
        display_name(v) == display_name(w),
{
    let wv = words(v);
    let ww = words(w);
    lemma_words_ascii(v);
    lemma_words_ascii(w);
    assert(wv.len() == ww.len()) by {
        assert(wv.map_values(|x: Seq<char>| ascii_lowercase(x)).len() == ww.map_values(
            |x: Seq<char>| ascii_lowercase(x),
        ).len());
    }
    let cv = wv.map_values(|x: Seq<char>| capitalized(x));
    let cw = ww.map_values(|x: Seq<char>| capitalized(x));
    assert forall|k: int| 0 <= k < cv.len() implies #[trigger] cv[k] == cw[k] by {
        let a = wv[k];
        let b = ww[k];
        assert(ascii_lowercase(a) == ascii_lowercase(b)) by {
            assert(wv.map_values(|x: Seq<char>| ascii_lowercase(x))[k] == ascii_lowercase(a));
            assert(ww.map_values(|x: Seq<char>| ascii_lowercase(x))[k] == ascii_lowercase(b));
        }
        assert(a.len() == b.len()) by {
            assert(ascii_lowercase(a).len() == ascii_lowercase(b).len());
        }
        lemma_capitalized_ascii(a);
        lemma_capitalized_ascii(b);
        assert(ascii_lower(a[0]) == ascii_lower(b[0])) by {
            assert(ascii_lowercase(a)[0] == ascii_lowercase(b)[0]);
        }
        assert(is_ascii_char(a[0]) && is_ascii_char(b[0]));
        lemma_ascii_case(a[0]);
        lemma_ascii_case(b[0]);
        assert(ascii_upper(a[0]) == ascii_upper(b[0]));
        assert(ascii_lowercase(a.drop_first()) =~= ascii_lowercase(b.drop_first())) by {
            assert forall|i: int| 0 <= i < a.len() - 1 implies #[trigger] ascii_lowercase(a.drop_first())[i]
                == ascii_lowercase(b.drop_first())[i] by {
                assert(ascii_lowercase(a)[i + 1] == ascii_lowercase(b)[i + 1]);
            }
        }
    }
    assert(cv =~= cw);
}

} // verus!
