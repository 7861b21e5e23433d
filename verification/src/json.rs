//! The textual model of the JSON payloads, and the trusted boundary to
//! `serde_json`, which does the serialization itself.

use vstd::prelude::*;

verus! {

/// One decimal digit as a character.
pub open spec fn dec_digit(d: nat) -> char {
    if d == 0 {
        '0'
    } else if d == 1 {
        '1'
    } else if d == 2 {
        '2'
    } else if d == 3 {
        '3'
    } else if d == 4 {
        '4'
    } else if d == 5 {
        '5'
    } else if d == 6 {
        '6'
    } else if d == 7 {
        '7'
    } else if d == 8 {
        '8'
    } else {
        '9'
    }
}

/// The usual decimal rendering of a natural number: no sign, no leading
/// zeros (except for the single digit of zero itself).
pub open spec fn dec_str(n: nat) -> Seq<char>
    decreases n,
{
    if n < 10 {
        seq![dec_digit(n)]
    } else {
        dec_str(n / 10) + seq![dec_digit(n % 10)]
    }
}

fn digit_str(d: u64) -> (r: &'static str)
    requires
        d < 10,
    ensures
        r@ == seq![dec_digit(d as nat)],
{
    proof {
        reveal_strlit("0");
        reveal_strlit("1");
        reveal_strlit("2");
        reveal_strlit("3");
        reveal_strlit("4");
        reveal_strlit("5");
        reveal_strlit("6");
        reveal_strlit("7");
        reveal_strlit("8");
        reveal_strlit("9");
        assert("0"@ =~= seq!['0']);
        assert("1"@ =~= seq!['1']);
        assert("2"@ =~= seq!['2']);
        assert("3"@ =~= seq!['3']);
        assert("4"@ =~= seq!['4']);
        assert("5"@ =~= seq!['5']);
        assert("6"@ =~= seq!['6']);
        assert("7"@ =~= seq!['7']);
        assert("8"@ =~= seq!['8']);
        assert("9"@ =~= seq!['9']);
    }
    if d == 0 {
        "0"
    } else if d == 1 {
        "1"
    } else if d == 2 {
        "2"
    } else if d == 3 {
        "3"
    } else if d == 4 {
        "4"
    } else if d == 5 {
        "5"
    } else if d == 6 {
        "6"
    } else if d == 7 {
        "7"
    } else if d == 8 {
        "8"
    } else {
        "9"
    }
}

/// The decimal rendering of `n`, as a string.
pub fn decimal_string(n: u64) -> (r: String)
    ensures
        r@ == dec_str(n as nat),
    decreases n,
{
    if n < 10 {
        String::from_str(digit_str(n))
    } else {
        let mut s = decimal_string(n / 10);
        s.append(digit_str(n % 10));
        s
    }
}

/// One lower-case hexadecimal digit as a character.
pub open spec fn hex_digit(d: nat) -> char {
    if d < 10 {
        dec_digit(d)
    } else if d == 10 {
        'a'
    } else if d == 11 {
        'b'
    } else if d == 12 {
        'c'
    } else if d == 13 {
        'd'
    } else if d == 14 {
        'e'
    } else {
        'f'
    }
}

/// How one character appears inside a JSON string literal: `"` and `\` take
/// a backslash, the control characters below space are escaped (the five
/// with short forms as those, the rest as `\u00..`), and every other
/// character stands as itself.
pub open spec fn json_escape_char(c: char) -> Seq<char> {
    if c == '"' {
        seq!['\\', '"']
    } else if c == '\\' {
        seq!['\\', '\\']
    } else if c == '\u{8}' {
        seq!['\\', 'b']
    } else if c == '\t' {
        seq!['\\', 't']
    } else if c == '\n' {
        seq!['\\', 'n']
    } else if c == '\u{c}' {
        seq!['\\', 'f']
    } else if c == '\r' {
        seq!['\\', 'r']
    } else if (c as u32) < 0x20 {
        seq!['\\', 'u', '0', '0', hex_digit(((c as u32) / 16) as nat), hex_digit(
            ((c as u32) % 16) as nat,
        )]
    } else {
        seq![c]
    }
}

/// The characters of `s`, each escaped as JSON requires.
pub open spec fn json_escape(s: Seq<char>) -> Seq<char>
    decreases s.len(),
{
    if s.len() == 0 {
        Seq::empty()
    } else {
        json_escape_char(s[0]) + json_escape(s.drop_first())
    }
}

/// `s` as a JSON string literal: quoted and escaped.
pub open spec fn json_string_lit(s: Seq<char>) -> Seq<char> {
    seq!['"'] + json_escape(s) + seq!['"']
}

/// One member of a JSON object: the key as a string literal, a colon, and
/// the already rendered value.
pub open spec fn json_member(e: (Seq<char>, Seq<char>)) -> Seq<char> {
    json_string_lit(e.0) + seq![':'] + e.1
}

/// The members of a JSON object, in order, separated by commas.
pub open spec fn json_members(entries: Seq<(Seq<char>, Seq<char>)>) -> Seq<char>
    decreases entries.len(),
{
    if entries.len() == 0 {
        Seq::empty()
    } else if entries.len() == 1 {
        json_member(entries[0])
    } else {
        json_member(entries[0]) + seq![','] + json_members(entries.drop_first())
    }
}

/// A whole JSON object: its members between braces. Each entry pairs a key
/// with the rendered text of its value.
pub open spec fn json_object_text(entries: Seq<(Seq<char>, Seq<char>)>) -> Seq<char> {
    seq!['{'] + json_members(entries) + seq!['}']
}

#[verifier::external_type_specification]
#[verifier::external_body]
pub struct ExJsonValue(serde_json::Value);

#[verifier::external_type_specification]
#[verifier::external_body]
#[verifier::reject_recursive_types(K)]
#[verifier::reject_recursive_types(V)]
pub struct ExJsonMap<K, V>(serde_json::Map<K, V>);

/// What a `serde_json::Map` holds: its entries in the map's own order, each
/// key paired with the text that serializing its value produces.
pub uninterp spec fn json_map_entries(m: serde_json::Map<String, serde_json::Value>) -> Seq<
    (Seq<char>, Seq<char>),
>;

/// Relies on `serde_json::Map::new`: the new map has no entries.
#[verifier::external_body]
fn json_map_new() -> (m: serde_json::Map<String, serde_json::Value>)
    ensures
        json_map_entries(m) == Seq::<(Seq<char>, Seq<char>)>::empty(),
{
    serde_json::Map::new()
}

/// Relies on `serde_json::Map::insert`, which appends an absent key at the
/// end (the map keeps insertion order), and on serde_json serializing an
/// integer `Value` as its plain decimal digits.
#[verifier::external_body]
fn json_map_insert_u64(m: &mut serde_json::Map<String, serde_json::Value>, k: String, v: u64)
    requires
        forall|j: int|
            0 <= j < json_map_entries(*old(m)).len() ==> json_map_entries(*old(m))[j].0 != k@,
    ensures
        json_map_entries(*final(m)) == json_map_entries(*old(m)).push((k@, dec_str(v as nat))),
{
    m.insert(k, serde_json::Value::from(v));
}

/// Relies on `serde_json::Map::insert`, which appends an absent key at the
/// end (the map keeps insertion order), and on serde_json serializing a
/// string `Value` as a quoted, escaped JSON string literal.
#[verifier::external_body]
fn json_map_insert_str(m: &mut serde_json::Map<String, serde_json::Value>, k: String, v: String)
    requires
        forall|j: int|
            0 <= j < json_map_entries(*old(m)).len() ==> json_map_entries(*old(m))[j].0 != k@,
    ensures
        json_map_entries(*final(m)) == json_map_entries(*old(m)).push((k@, json_string_lit(v@))),
{
    m.insert(k, serde_json::Value::String(v));
}

/// Relies on `serde_json::to_string` on a `Map`: one JSON object whose
/// members are the map's entries in the map's order, each key a quoted,
/// escaped string literal; serializing a string-keyed map cannot fail.
#[verifier::external_body]
fn json_map_to_string(m: &serde_json::Map<String, serde_json::Value>) -> (r: String)
    ensures
        r@ == json_object_text(json_map_entries(*m)),
{
    match serde_json::to_string(m) {
        Ok(s) => s,
        Err(_) => String::new(),
    }
}

/// The fixed table of user scores, as (key, rendered value) entries in
/// insertion order.
pub open spec fn score_entries() -> Seq<(Seq<char>, Seq<char>)> {
    seq![
        ("user1"@, dec_str(10)),
        ("user2"@, dec_str(20)),
        ("user3"@, dec_str(30)),
        ("user4"@, dec_str(40)),
        ("user5"@, dec_str(50)),
        ("user6"@, dec_str(60)),
        ("user7"@, dec_str(70)),
        ("user8"@, dec_str(80)),
        ("user9"@, dec_str(90)),
        ("user10"@, dec_str(100)),
    ]
}

/// The JSON body of the success response.
pub open spec fn score_body_text() -> Seq<char> {
    json_object_text(score_entries())
}

/// The four fixed fields of the method-not-allowed error, as (key, rendered
/// value) entries in insertion order. The `allowed` field holds the literal
/// text `["GET"]` as a JSON string, not a nested array, for wire
/// compatibility.
pub open spec fn error_entries() -> Seq<(Seq<char>, Seq<char>)> {
    seq![
        ("status"@, json_string_lit("405"@)),
        ("error"@, json_string_lit("Method Not Allowed"@)),
        (
            "message"@,
            json_string_lit("POST requests are not supported at this endpoint. Please use GET."@),
        ),
        ("allowed"@, json_string_lit("[\"GET\"]"@)),
    ]
}

/// The JSON body of the method-not-allowed response.
pub open spec fn error_body_text() -> Seq<char> {
    json_object_text(error_entries())
}

/// The serialized success payload: the ten fixed user scores as one JSON
/// object, in insertion order.
pub fn scores_body() -> (r: String)
    ensures
        r@ == score_body_text(),
{
    proof {
        reveal_strlit("user1");
        reveal_strlit("user2");
        reveal_strlit("user3");
        reveal_strlit("user4");
        reveal_strlit("user5");
        reveal_strlit("user6");
        reveal_strlit("user7");
        reveal_strlit("user8");
        reveal_strlit("user9");
        reveal_strlit("user10");
        assert("user1"@[4] == '1');
        assert("user2"@[4] == '2');
        assert("user3"@[4] == '3');
        assert("user4"@[4] == '4');
        assert("user5"@[4] == '5');
        assert("user6"@[4] == '6');
        assert("user7"@[4] == '7');
        assert("user8"@[4] == '8');
        assert("user9"@[4] == '9');
        assert("user10"@.len() == 6);
        assert("user1"@.len() == 5);
        assert("user2"@.len() == 5);
        assert("user3"@.len() == 5);
        assert("user4"@.len() == 5);
        assert("user5"@.len() == 5);
        assert("user6"@.len() == 5);
        assert("user7"@.len() == 5);
        assert("user8"@.len() == 5);
        assert("user9"@.len() == 5);
    }
    let mut m = json_map_new();
    json_map_insert_u64(&mut m, String::from_str("user1"), 10);
    proof {
        let e = json_map_entries(m);
        assert(e[0].0 == "user1"@);
        assert forall|j: int| 0 <= j < e.len() implies e[j].0 != "user2"@ by {
            assert(e.len() == 1);
        }
    }
    json_map_insert_u64(&mut m, String::from_str("user2"), 20);
    proof {
        let e = json_map_entries(m);
        assert(e[0].0 == "user1"@);
        assert(e[1].0 == "user2"@);
        assert forall|j: int| 0 <= j < e.len() implies e[j].0 != "user3"@ by {
            assert(e.len() == 2);
        }
    }
    json_map_insert_u64(&mut m, String::from_str("user3"), 30);
    proof {
        let e = json_map_entries(m);
        assert(e[0].0 == "user1"@);
        assert(e[1].0 == "user2"@);
        assert(e[2].0 == "user3"@);
        assert forall|j: int| 0 <= j < e.len() implies e[j].0 != "user4"@ by {
            assert(e.len() == 3);
        }
    }
    json_map_insert_u64(&mut m, String::from_str("user4"), 40);
    proof {
        let e = json_map_entries(m);
        assert(e[0].0 == "user1"@);
        assert(e[1].0 == "user2"@);
        assert(e[2].0 == "user3"@);
        assert(e[3].0 == "user4"@);
        assert forall|j: int| 0 <= j < e.len() implies e[j].0 != "user5"@ by {
            assert(e.len() == 4);
        }
    }
    json_map_insert_u64(&mut m, String::from_str("user5"), 50);
    proof {
        let e = json_map_entries(m);
        assert(e[0].0 == "user1"@);
        assert(e[1].0 == "user2"@);
        assert(e[2].0 == "user3"@);
        assert(e[3].0 == "user4"@);
        assert(e[4].0 == "user5"@);
        assert forall|j: int| 0 <= j < e.len() implies e[j].0 != "user6"@ by {
            assert(e.len() == 5);
        }
    }
    json_map_insert_u64(&mut m, String::from_str("user6"), 60);
    proof {
        let e = json_map_entries(m);
        assert(e[0].0 == "user1"@);
        assert(e[1].0 == "user2"@);
        assert(e[2].0 == "user3"@);
        assert(e[3].0 == "user4"@);
        assert(e[4].0 == "user5"@);
        assert(e[5].0 == "user6"@);
        assert forall|j: int| 0 <= j < e.len() implies e[j].0 != "user7"@ by {
            assert(e.len() == 6);
        }
    }
    json_map_insert_u64(&mut m, String::from_str("user7"), 70);
    proof {
        let e = json_map_entries(m);
        assert(e[0].0 == "user1"@);
        assert(e[1].0 == "user2"@);
        assert(e[2].0 == "user3"@);
        assert(e[3].0 == "user4"@);
        assert(e[4].0 == "user5"@);
        assert(e[5].0 == "user6"@);
        assert(e[6].0 == "user7"@);
        assert forall|j: int| 0 <= j < e.len() implies e[j].0 != "user8"@ by {
            assert(e.len() == 7);
        }
    }
    json_map_insert_u64(&mut m, String::from_str("user8"), 80);
    proof {
        let e = json_map_entries(m);
        assert(e[0].0 == "user1"@);
        assert(e[1].0 == "user2"@);
        assert(e[2].0 == "user3"@);
        assert(e[3].0 == "user4"@);
        assert(e[4].0 == "user5"@);
        assert(e[5].0 == "user6"@);
        assert(e[6].0 == "user7"@);
        assert(e[7].0 == "user8"@);
        assert forall|j: int| 0 <= j < e.len() implies e[j].0 != "user9"@ by {
            assert(e.len() == 8);
        }
    }
    json_map_insert_u64(&mut m, String::from_str("user9"), 90);
    proof {
        let e = json_map_entries(m);
        assert(e[0].0 == "user1"@);
        assert(e[1].0 == "user2"@);
        assert(e[2].0 == "user3"@);
        assert(e[3].0 == "user4"@);
        assert(e[4].0 == "user5"@);
        assert(e[5].0 == "user6"@);
        assert(e[6].0 == "user7"@);
        assert(e[7].0 == "user8"@);
        assert(e[8].0 == "user9"@);
        assert forall|j: int| 0 <= j < e.len() implies e[j].0 != "user10"@ by {
            assert(e.len() == 9);
        }
    }
    json_map_insert_u64(&mut m, String::from_str("user10"), 100);
    let r = json_map_to_string(&m);
    proof {
        assert(json_map_entries(m) =~= score_entries());
    }
    r
}

/// The serialized method-not-allowed payload: the four fixed fields as one
/// JSON object, in insertion order.
pub fn error_body() -> (r: String)
    ensures
        r@ == error_body_text(),
{
    proof {
        reveal_strlit("status");
        reveal_strlit("error");
        reveal_strlit("message");
        reveal_strlit("allowed");
        assert("status"@.len() == 6);
        assert("error"@.len() == 5);
        assert("message"@.len() == 7);
        assert("allowed"@.len() == 7);
        assert("message"@[0] == 'm');
        assert("allowed"@[0] == 'a');
    }
    let mut m = json_map_new();
    json_map_insert_str(&mut m, String::from_str("status"), String::from_str("405"));
    proof {
        let e = json_map_entries(m);
        assert(e[0].0 == "status"@);
        assert forall|j: int| 0 <= j < e.len() implies e[j].0 != "error"@ by {
            assert(e.len() == 1);
        }
    }
    json_map_insert_str(&mut m, String::from_str("error"), String::from_str("Method Not Allowed"));
    proof {
        let e = json_map_entries(m);
        assert(e[0].0 == "status"@);
        assert(e[1].0 == "error"@);
        assert forall|j: int| 0 <= j < e.len() implies e[j].0 != "message"@ by {
            assert(e.len() == 2);
        }
    }
    json_map_insert_str(&mut m, String::from_str("message"), String::from_str("POST requests are not supported at this endpoint. Please use GET."));
    proof {
        let e = json_map_entries(m);
        assert(e[0].0 == "status"@);
        assert(e[1].0 == "error"@);
        assert(e[2].0 == "message"@);
        assert forall|j: int| 0 <= j < e.len() implies e[j].0 != "allowed"@ by {
            assert(e.len() == 3);
        }
    }
    json_map_insert_str(&mut m, String::from_str("allowed"), String::from_str("[\"GET\"]"));
    let r = json_map_to_string(&m);
    proof {
        assert(json_map_entries(m) =~= error_entries());
    }
    r
}


/// A decimal digit character.
pub open spec fn is_digit_char(c: char) -> bool {
    '0' <= c && c <= '9'
}

/// Every character of a decimal rendering is a digit.
pub proof fn lemma_dec_str_digits(n: nat)
    ensures
        forall|i: int| 0 <= i < dec_str(n).len() ==> is_digit_char(#[trigger] dec_str(n)[i]),
    decreases n,
{
    if n < 10 {
        assert(dec_str(n)[0] == dec_digit(n));
    } else {
        lemma_dec_str_digits(n / 10);
        assert forall|i: int| 0 <= i < dec_str(n).len() implies is_digit_char(
            #[trigger] dec_str(n)[i],
        ) by {
            let p = dec_str(n / 10);
            if i < p.len() {
                assert(dec_str(n)[i] == p[i]);
            } else {
                assert(dec_str(n)[i] == dec_digit(n % 10));
            }
        }
    }
}

/// A decimal rendering is ASCII text.
pub proof fn lemma_dec_str_ascii(n: nat)
    ensures
        vstd::utf8::is_ascii_chars(dec_str(n)),
{
    lemma_dec_str_digits(n);
    assert forall|i: int| 0 <= i < dec_str(n).len() implies '\0' <= #[trigger] dec_str(n)[i]
        <= '\u{7f}' by {
        assert(is_digit_char(dec_str(n)[i]));
    }
}

proof fn lemma_json_escape_char_ascii(c: char)
    requires
        '\0' <= c <= '\u{7f}',
    ensures
        vstd::utf8::is_ascii_chars(json_escape_char(c)),
{
    let e = json_escape_char(c);
    if c == '"' || c == '\\' || c == '\u{8}' || c == '\t' || c == '\n' || c == '\u{c}' || c
        == '\r' {
        assert(vstd::utf8::is_ascii_chars(e));
    } else if (c as u32) < 0x20 {
        assert(e[0] == '\\' && e[1] == 'u' && e[2] == '0' && e[3] == '0');
        assert('\0' <= e[4] <= '\u{7f}');
        assert('\0' <= e[5] <= '\u{7f}');
        assert(vstd::utf8::is_ascii_chars(e));
    } else {
        assert(e =~= seq![c]);
        assert(vstd::utf8::is_ascii_chars(e));
    }
}

/// The escape of ASCII text is ASCII text.
pub proof fn lemma_json_escape_ascii(s: Seq<char>)
    requires
        vstd::utf8::is_ascii_chars(s),
    ensures
        vstd::utf8::is_ascii_chars(json_escape(s)),
    decreases s.len(),
{
    broadcast use vstd::utf8::is_ascii_chars_concat;

    if s.len() > 0 {
        assert(vstd::utf8::is_ascii_chars(s.drop_first())) by {
            assert forall|i: int| 0 <= i < s.drop_first().len() implies '\0'
                <= #[trigger] s.drop_first()[i] <= '\u{7f}' by {
                assert(s.drop_first()[i] == s[i + 1]);
            }
        }
        lemma_json_escape_char_ascii(s[0]);
        lemma_json_escape_ascii(s.drop_first());
        assert(json_escape(s) =~= json_escape_char(s[0]) + json_escape(s.drop_first()));
    }
}

/// A JSON string literal made from ASCII text is ASCII text.
pub proof fn lemma_json_string_lit_ascii(s: Seq<char>)
    requires
        vstd::utf8::is_ascii_chars(s),
    ensures
        vstd::utf8::is_ascii_chars(json_string_lit(s)),
{
    broadcast use vstd::utf8::is_ascii_chars_concat;

    lemma_json_escape_ascii(s);
    assert(vstd::utf8::is_ascii_chars(seq!['"']));
    assert(json_string_lit(s) =~= (seq!['"'] + json_escape(s)) + seq!['"']);
}

/// Entries whose keys and rendered values are all ASCII text.
pub open spec fn entries_ascii(entries: Seq<(Seq<char>, Seq<char>)>) -> bool {
    forall|j: int|
        0 <= j < entries.len() ==> vstd::utf8::is_ascii_chars(#[trigger] entries[j].0)
            && vstd::utf8::is_ascii_chars(entries[j].1)
}

proof fn lemma_json_members_ascii(entries: Seq<(Seq<char>, Seq<char>)>)
    requires
        entries_ascii(entries),
    ensures
        vstd::utf8::is_ascii_chars(json_members(entries)),
    decreases entries.len(),
{
    broadcast use vstd::utf8::is_ascii_chars_concat;

    if entries.len() == 0 {
    } else {
        lemma_json_string_lit_ascii(entries[0].0);
        assert(vstd::utf8::is_ascii_chars(seq![':']));
        assert(vstd::utf8::is_ascii_chars(seq![',']));
        assert(json_member(entries[0]) =~= (json_string_lit(entries[0].0) + seq![':'])
            + entries[0].1);
        if entries.len() > 1 {
            assert(entries_ascii(entries.drop_first())) by {
                assert forall|j: int| 0 <= j < entries.drop_first().len() implies vstd::utf8::is_ascii_chars(
                    #[trigger] entries.drop_first()[j].0,
                ) && vstd::utf8::is_ascii_chars(entries.drop_first()[j].1) by {
                    assert(entries.drop_first()[j] == entries[j + 1]);
                }
            }
            lemma_json_members_ascii(entries.drop_first());
            assert(json_members(entries) =~= (json_member(entries[0]) + seq![','])
                + json_members(entries.drop_first()));
        }
    }
}

/// A JSON object whose keys and rendered values are ASCII is ASCII text.
pub proof fn lemma_json_object_text_ascii(entries: Seq<(Seq<char>, Seq<char>)>)
    requires
        entries_ascii(entries),
    ensures
        vstd::utf8::is_ascii_chars(json_object_text(entries)),
{
    broadcast use vstd::utf8::is_ascii_chars_concat;

    lemma_json_members_ascii(entries);
    assert(vstd::utf8::is_ascii_chars(seq!['{']));
    assert(vstd::utf8::is_ascii_chars(seq!['}']));
    assert(json_object_text(entries) =~= (seq!['{'] + json_members(entries)) + seq!['}']);
}

/// The success body is ASCII text, so its character count is its byte count.
pub proof fn lemma_score_body_ascii()
    ensures
        vstd::utf8::is_ascii_chars(score_body_text()),
{
    reveal_strlit("user1");
    reveal_strlit("user2");
    reveal_strlit("user3");
    reveal_strlit("user4");
    reveal_strlit("user5");
    reveal_strlit("user6");
    reveal_strlit("user7");
    reveal_strlit("user8");
    reveal_strlit("user9");
    reveal_strlit("user10");
    let e = score_entries();
    assert(entries_ascii(e)) by {
        assert forall|j: int| 0 <= j < e.len() implies vstd::utf8::is_ascii_chars(
            #[trigger] e[j].0,
        ) && vstd::utf8::is_ascii_chars(e[j].1) by {
            assert(vstd::utf8::is_ascii_chars("user1"@));
            assert(vstd::utf8::is_ascii_chars("user2"@));
            assert(vstd::utf8::is_ascii_chars("user3"@));
            assert(vstd::utf8::is_ascii_chars("user4"@));
            assert(vstd::utf8::is_ascii_chars("user5"@));
            assert(vstd::utf8::is_ascii_chars("user6"@));
            assert(vstd::utf8::is_ascii_chars("user7"@));
            assert(vstd::utf8::is_ascii_chars("user8"@));
            assert(vstd::utf8::is_ascii_chars("user9"@));
            assert(vstd::utf8::is_ascii_chars("user10"@));
            lemma_dec_str_ascii(10);
            lemma_dec_str_ascii(20);
            lemma_dec_str_ascii(30);
            lemma_dec_str_ascii(40);
            lemma_dec_str_ascii(50);
            lemma_dec_str_ascii(60);
            lemma_dec_str_ascii(70);
            lemma_dec_str_ascii(80);
            lemma_dec_str_ascii(90);
            lemma_dec_str_ascii(100);
        }
    }
    lemma_json_object_text_ascii(e);
}

/// The error body is ASCII text, so its character count is its byte count.
pub proof fn lemma_error_body_ascii()
    ensures
        vstd::utf8::is_ascii_chars(error_body_text()),
{
    reveal_strlit("status");
    reveal_strlit("error");
    reveal_strlit("message");
    reveal_strlit("allowed");
    reveal_strlit("405");
    reveal_strlit("Method Not Allowed");
    reveal_strlit("POST requests are not supported at this endpoint. Please use GET.");
    reveal_strlit("[\"GET\"]");
    let e = error_entries();
    assert(entries_ascii(e)) by {
        assert forall|j: int| 0 <= j < e.len() implies vstd::utf8::is_ascii_chars(
            #[trigger] e[j].0,
        ) && vstd::utf8::is_ascii_chars(e[j].1) by {
            assert(vstd::utf8::is_ascii_chars("status"@));
            assert(vstd::utf8::is_ascii_chars("error"@));
            assert(vstd::utf8::is_ascii_chars("message"@));
            assert(vstd::utf8::is_ascii_chars("allowed"@));
            assert(vstd::utf8::is_ascii_chars("405"@));
            assert(vstd::utf8::is_ascii_chars("Method Not Allowed"@));
            assert(vstd::utf8::is_ascii_chars(
                "POST requests are not supported at this endpoint. Please use GET."@,
            ));
            assert(vstd::utf8::is_ascii_chars("[\"GET\"]"@));
            lemma_json_string_lit_ascii("405"@);
            lemma_json_string_lit_ascii("Method Not Allowed"@);
            lemma_json_string_lit_ascii(
                "POST requests are not supported at this endpoint. Please use GET."@,
            );
            lemma_json_string_lit_ascii("[\"GET\"]"@);
        }
    }
    lemma_json_object_text_ascii(e);
}


/// No key appears twice among the entries.
pub open spec fn keys_unique(entries: Seq<(Seq<char>, Seq<char>)>) -> bool {
    forall|i: int, j: int|
        0 <= i < j < entries.len() ==> (#[trigger] entries[i]).0 != (#[trigger] entries[j]).0
}

/// The success payload lists each of its ten keys exactly once, so the
/// mapping it serializes is recovered whole from its JSON text.
pub proof fn lemma_score_keys_unique()
    ensures
        keys_unique(score_entries()),
{
    reveal_strlit("user1");
    reveal_strlit("user2");
    reveal_strlit("user3");
    reveal_strlit("user4");
    reveal_strlit("user5");
    reveal_strlit("user6");
    reveal_strlit("user7");
    reveal_strlit("user8");
    reveal_strlit("user9");
    reveal_strlit("user10");
    let e = score_entries();
    assert forall|i: int, j: int| 0 <= i < j < e.len() implies (#[trigger] e[i]).0 != (
    #[trigger] e[j]).0 by {
        assert("user1"@[4] == '1');
        assert("user2"@[4] == '2');
        assert("user3"@[4] == '3');
        assert("user4"@[4] == '4');
        assert("user5"@[4] == '5');
        assert("user6"@[4] == '6');
        assert("user7"@[4] == '7');
        assert("user8"@[4] == '8');
        assert("user9"@[4] == '9');
        assert("user10"@.len() == 6);
        assert("user1"@.len() == 5);
        assert("user2"@.len() == 5);
        assert("user3"@.len() == 5);
        assert("user4"@.len() == 5);
        assert("user5"@.len() == 5);
        assert("user6"@.len() == 5);
        assert("user7"@.len() == 5);
        assert("user8"@.len() == 5);
        assert("user9"@.len() == 5);
    }
}

/// The error payload lists each of its four keys exactly once, so the
/// mapping it serializes is recovered whole from its JSON text.
pub proof fn lemma_error_keys_unique()
    ensures
        keys_unique(error_entries()),
{
    reveal_strlit("status");
    reveal_strlit("error");
    reveal_strlit("message");
    reveal_strlit("allowed");
    let e = error_entries();
    assert forall|i: int, j: int| 0 <= i < j < e.len() implies (#[trigger] e[i]).0 != (
    #[trigger] e[j]).0 by {
        assert("status"@.len() == 6);
        assert("error"@.len() == 5);
        assert("message"@.len() == 7);
        assert("allowed"@.len() == 7);
        assert("message"@[0] == 'm');
        assert("allowed"@[0] == 'a');
    }
}

} // verus!
