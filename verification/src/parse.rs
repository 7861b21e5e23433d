//! Reading a payload back out of its rendered JSON text. The parser here is
//! specification only: it scans object text of the shape the library emits
//! (string keys, and values that are digit runs or string literals), and the
//! lemmas show that it recovers the entries exactly — serializing a payload
//! and parsing the text back yields the original mapping.

use crate::json::hex_digit;
use crate::json::is_digit_char;
use crate::json::json_escape;
use crate::json::json_escape_char;
use crate::json::json_members;
use crate::json::json_object_text;
use crate::json::json_string_lit;
use crate::json::score_body_text;
use crate::json::score_entries;
use crate::json::error_body_text;
use crate::json::error_entries;
use crate::json::dec_str;
use vstd::prelude::*;

verus! {

/// The raw content of a JSON string literal at the front of `t` (after its
/// opening quote), and the rest after the closing quote: the scan keeps
/// escape pairs together and stops at the first unescaped quote.
pub open spec fn scan_quoted(t: Seq<char>) -> Option<(Seq<char>, Seq<char>)>
    decreases t.len(),
{
    if t.len() == 0 {
        None
    } else if t[0] == '"' {
        Some((Seq::empty(), t.drop_first()))
    } else if t[0] == '\\' {
        if t.len() < 2 {
            None
        } else {
            match scan_quoted(t.skip(2)) {
                Some(r) => Some((t.take(2) + r.0, r.1)),
                None => None,
            }
        }
    } else {
        match scan_quoted(t.drop_first()) {
            Some(r) => Some((seq![t[0]] + r.0, r.1)),
            None => None,
        }
    }
}

/// The longest digit run at the front of `t`, and the rest.
pub open spec fn scan_digits(t: Seq<char>) -> (Seq<char>, Seq<char>)
    decreases t.len(),
{
    if t.len() > 0 && is_digit_char(t[0]) {
        let r = scan_digits(t.drop_first());
        (seq![t[0]] + r.0, r.1)
    } else {
        (Seq::empty(), t)
    }
}

/// One rendered value at the front of `t`: a whole string literal, quotes
/// and all, or a nonempty digit run.
pub open spec fn scan_value(t: Seq<char>) -> Option<(Seq<char>, Seq<char>)> {
    if t.len() > 0 && t[0] == '"' {
        match scan_quoted(t.drop_first()) {
            Some(r) => Some((seq!['"'] + r.0 + seq!['"'], r.1)),
            None => None,
        }
    } else {
        let r = scan_digits(t);
        if r.0.len() == 0 {
            None
        } else {
            Some(r)
        }
    }
}

/// The entries read from everything after an object's opening brace:
/// members separated by commas and closed by the final brace. Keys are
/// returned as their raw literal content, values as their rendered text.
pub open spec fn parse_members(t: Seq<char>) -> Option<Seq<(Seq<char>, Seq<char>)>>
    decreases t.len(),
{
    if t.len() == 1 && t[0] == '}' {
        Some(Seq::empty())
    } else if t.len() > 0 && t[0] == '"' {
        match scan_quoted(t.drop_first()) {
            Some(k) => {
                let after_key = k.1;
                if after_key.len() > 0 && after_key[0] == ':' {
                    match scan_value(after_key.drop_first()) {
                        Some(v) => {
                            let after_value = v.1;
                            if after_value.len() == 1 && after_value[0] == '}' {
                                Some(seq![(k.0, v.0)])
                            } else if after_value.len() > 0 && after_value[0] == ','
                                && after_value.drop_first().len() < t.len() {
                                match parse_members(after_value.drop_first()) {
                                    Some(rest) => Some(seq![(k.0, v.0)] + rest),
                                    None => None,
                                }
                            } else {
                                None
                            }
                        },
                        None => None,
                    }
                } else {
                    None
                }
            },
            None => None,
        }
    } else {
        None
    }
}

/// The entries of a rendered JSON object: the text between the braces,
/// read member by member.
pub open spec fn parse_object(t: Seq<char>) -> Option<Seq<(Seq<char>, Seq<char>)>> {
    if t.len() > 0 && t[0] == '{' {
        parse_members(t.drop_first())
    } else {
        None
    }
}


/// A character that stands for itself inside a JSON string literal: not a
/// quote, not a backslash, not a control character.
pub open spec fn is_plain_char(c: char) -> bool {
    c != '"' && c != '\\' && (c as u32) >= 0x20
}

/// Every character of `s` stands for itself in a string literal.
pub open spec fn all_plain(s: Seq<char>) -> bool {
    forall|i: int| 0 <= i < s.len() ==> is_plain_char(#[trigger] s[i])
}

/// Escaping text of plain characters changes nothing.
pub proof fn lemma_escape_plain_identity(s: Seq<char>)
    requires
        all_plain(s),
    ensures
        json_escape(s) == s,
    decreases s.len(),
{
    if s.len() > 0 {
        assert(is_plain_char(s[0]));
        assert(json_escape_char(s[0]) == seq![s[0]]);
        assert(all_plain(s.drop_first())) by {
            assert forall|i: int| 0 <= i < s.drop_first().len() implies is_plain_char(
                #[trigger] s.drop_first()[i],
            ) by {
                assert(s.drop_first()[i] == s[i + 1]);
            }
        }
        lemma_escape_plain_identity(s.drop_first());
        assert(json_escape(s) =~= s);
    }
}

proof fn lemma_scan_quoted_plain_prefix(p: Seq<char>, t: Seq<char>)
    requires
        all_plain(p),
        scan_quoted(t) is Some,
    ensures
        scan_quoted(p + t) == Some(
            (p + scan_quoted(t)->Some_0.0, scan_quoted(t)->Some_0.1),
        ),
    decreases p.len(),
{
    let r = scan_quoted(t)->Some_0;
    if p.len() == 0 {
        assert(p + t =~= t);
        assert(p + r.0 =~= r.0);
    } else {
        let u = p + t;
        assert(u[0] == p[0]);
        assert(is_plain_char(p[0]));
        assert(u[0] != '"' && u[0] != '\\');
        assert(all_plain(p.drop_first())) by {
            assert forall|i: int| 0 <= i < p.drop_first().len() implies is_plain_char(
                #[trigger] p.drop_first()[i],
            ) by {
                assert(p.drop_first()[i] == p[i + 1]);
            }
        }
        lemma_scan_quoted_plain_prefix(p.drop_first(), t);
        assert(u.drop_first() =~= p.drop_first() + t);
        assert(scan_quoted(u) == Some((seq![u[0]] + (p.drop_first() + r.0), r.1)));
        assert(seq![u[0]] + (p.drop_first() + r.0) =~= p + r.0);
    }
}

proof fn lemma_scan_quoted_pair(x: char, t: Seq<char>)
    requires
        scan_quoted(t) is Some,
    ensures
        scan_quoted(seq!['\\', x] + t) == Some(
            (seq!['\\', x] + scan_quoted(t)->Some_0.0, scan_quoted(t)->Some_0.1),
        ),
{
    let u = seq!['\\', x] + t;
    assert(u[0] == '\\');
    assert(u.len() >= 2);
    assert(u.skip(2) =~= t);
    assert(u.take(2) =~= seq!['\\', x]);
}

/// Scanning a string literal's content undoes escaping: after the escaped
/// text and its closing quote, the scan returns exactly the escaped text
/// and what follows the quote.
pub proof fn lemma_scan_quoted_escape(s: Seq<char>, rest: Seq<char>)
    ensures
        scan_quoted(json_escape(s) + (seq!['"'] + rest)) == Some((json_escape(s), rest)),
    decreases s.len(),
{
    let tail = json_escape(s.drop_first()) + (seq!['"'] + rest);
    if s.len() == 0 {
        let u = json_escape(s) + (seq!['"'] + rest);
        assert(u =~= seq!['"'] + rest);
        assert(u[0] == '"');
        assert(u.drop_first() =~= rest);
        assert(json_escape(s) =~= Seq::<char>::empty());
    } else {
        let c = s[0];
        let b = json_escape_char(c);
        let u = json_escape(s) + (seq!['"'] + rest);
        lemma_scan_quoted_escape(s.drop_first(), rest);
        assert(u =~= b + tail);
        if c == '"' || c == '\\' || c == '\u{8}' || c == '\t' || c == '\n' || c == '\u{c}'
            || c == '\r' {
            let x = b[1];
            assert(b =~= seq!['\\', x]);
            lemma_scan_quoted_pair(x, tail);
            assert(seq!['\\', x] + json_escape(s.drop_first()) =~= json_escape(s));
        } else if (c as u32) < 0x20 {
            let h1 = hex_digit(((c as u32) / 16) as nat);
            let h2 = hex_digit(((c as u32) % 16) as nat);
            let run = seq!['0', '0', h1, h2];
            assert(b =~= seq!['\\', 'u'] + run);
            assert(is_plain_char('0'));
            assert(is_plain_char(h1) && is_plain_char(h2)) by {
                lemma_hex_digit_plain(((c as u32) / 16) as nat);
                lemma_hex_digit_plain(((c as u32) % 16) as nat);
            }
            assert(all_plain(run));
            lemma_scan_quoted_plain_prefix(run, tail);
            lemma_scan_quoted_pair('u', run + tail);
            assert(u =~= seq!['\\', 'u'] + (run + tail));
            assert(seq!['\\', 'u'] + (run + json_escape(s.drop_first())) =~= json_escape(s));
        } else {
            assert(b =~= seq![c]);
            assert(is_plain_char(c));
            assert(all_plain(b));
            lemma_scan_quoted_plain_prefix(b, tail);
            assert(b + json_escape(s.drop_first()) =~= json_escape(s));
        }
    }
}

proof fn lemma_hex_digit_plain(d: nat)
    ensures
        is_plain_char(hex_digit(d)),
{
}

/// Scanning digits takes a whole digit run and stops exactly where the run
/// ends.
pub proof fn lemma_scan_digits_run(d: Seq<char>, rest: Seq<char>)
    requires
        forall|i: int| 0 <= i < d.len() ==> is_digit_char(#[trigger] d[i]),
        rest.len() == 0 || !is_digit_char(rest[0]),
    ensures
        scan_digits(d + rest) == (d, rest),
    decreases d.len(),
{
    let u = d + rest;
    if d.len() == 0 {
        assert(u =~= rest);
        assert(d =~= Seq::<char>::empty());
    } else {
        assert(u[0] == d[0]);
        assert(is_digit_char(u[0]));
        assert(forall|i: int|
            0 <= i < d.drop_first().len() ==> is_digit_char(#[trigger] d.drop_first()[i]))
            by {
            assert forall|i: int| 0 <= i < d.drop_first().len() implies is_digit_char(
                #[trigger] d.drop_first()[i],
            ) by {
                assert(d.drop_first()[i] == d[i + 1]);
            }
        }
        lemma_scan_digits_run(d.drop_first(), rest);
        assert(u.drop_first() =~= d.drop_first() + rest);
        assert(seq![u[0]] + d.drop_first() =~= d);
    }
}

/// A decimal rendering is never empty.
pub proof fn lemma_dec_str_nonempty(n: nat)
    ensures
        dec_str(n).len() > 0,
    decreases n,
{
}

/// Scanning a value takes a whole string literal.
pub proof fn lemma_scan_value_lit(s: Seq<char>, rest: Seq<char>)
    ensures
        scan_value(json_string_lit(s) + rest) == Some((json_string_lit(s), rest)),
{
    let u = json_string_lit(s) + rest;
    assert(u[0] == '"');
    assert(u.drop_first() =~= json_escape(s) + (seq!['"'] + rest));
    lemma_scan_quoted_escape(s, rest);
    assert(seq!['"'] + json_escape(s) + seq!['"'] =~= json_string_lit(s));
}

/// Scanning a value takes a whole decimal rendering, up to wherever the
/// digits end.
pub proof fn lemma_scan_value_dec(n: nat, rest: Seq<char>)
    requires
        rest.len() == 0 || !is_digit_char(rest[0]),
    ensures
        scan_value(dec_str(n) + rest) == Some((dec_str(n), rest)),
{
    let u = dec_str(n) + rest;
    lemma_dec_str_nonempty(n);
    crate::json::lemma_dec_str_digits(n);
    assert(u[0] == dec_str(n)[0]);
    assert(is_digit_char(u[0]));
    assert(u[0] != '"');
    lemma_scan_digits_run(dec_str(n), rest);
}


/// A rendered value of the shape the library emits: a decimal rendering or
/// a JSON string literal.
pub open spec fn wf_rendered_value(v: Seq<char>) -> bool {
    (exists|n: nat| v == dec_str(n)) || (exists|s: Seq<char>| v == json_string_lit(s))
}

/// Entries the library can render and read back whole: plain keys, and
/// values that are decimal renderings or string literals.
pub open spec fn wf_entries(entries: Seq<(Seq<char>, Seq<char>)>) -> bool {
    forall|j: int|
        0 <= j < entries.len() ==> all_plain((#[trigger] entries[j]).0) && wf_rendered_value(
            entries[j].1,
        )
}

proof fn lemma_parse_members_render(entries: Seq<(Seq<char>, Seq<char>)>)
    requires
        wf_entries(entries),
    ensures
        parse_members(json_members(entries) + seq!['}']) == Some(entries),
    decreases entries.len(),
{
    let t = json_members(entries) + seq!['}'];
    if entries.len() == 0 {
        assert(t =~= seq!['}']);
        assert(entries =~= Seq::<(Seq<char>, Seq<char>)>::empty());
    } else {
        let k = entries[0].0;
        let v = entries[0].1;
        assert(all_plain(k) && wf_rendered_value(v));
        lemma_escape_plain_identity(k);
        if entries.len() == 1 {
            let rest1 = seq![':'] + (v + seq!['}']);
            assert(t[0] == '"');
            assert(t.len() != 1);
            assert(t.drop_first() =~= k + (seq!['"'] + rest1));
            lemma_scan_quoted_escape(k, rest1);
            assert(scan_quoted(t.drop_first()) == Some((k, rest1)));
            assert(rest1[0] == ':');
            assert(rest1.drop_first() =~= v + seq!['}']);
            if exists|n: nat| v == dec_str(n) {
                let n = choose|n: nat| v == dec_str(n);
                assert(!is_digit_char('}'));
                lemma_scan_value_dec(n, seq!['}']);
            } else {
                let s = choose|s: Seq<char>| v == json_string_lit(s);
                lemma_scan_value_lit(s, seq!['}']);
            }
            assert(scan_value(rest1.drop_first()) == Some((v, seq!['}'])));
            assert(parse_members(t) == Some(seq![(k, v)]));
            assert(seq![(k, v)] =~= entries);
        } else {
            let m = json_members(entries.drop_first()) + seq!['}'];
            let rest2 = seq![','] + m;
            let rest1 = seq![':'] + (v + rest2);
            assert(t[0] == '"');
            assert(t.len() != 1);
            assert(t.drop_first() =~= k + (seq!['"'] + rest1));
            lemma_scan_quoted_escape(k, rest1);
            assert(scan_quoted(t.drop_first()) == Some((k, rest1)));
            assert(rest1[0] == ':');
            assert(rest1.drop_first() =~= v + rest2);
            if exists|n: nat| v == dec_str(n) {
                let n = choose|n: nat| v == dec_str(n);
                assert(!is_digit_char(','));
                lemma_scan_value_dec(n, rest2);
            } else {
                let s = choose|s: Seq<char>| v == json_string_lit(s);
                lemma_scan_value_lit(s, rest2);
            }
            assert(scan_value(rest1.drop_first()) == Some((v, rest2)));
            assert(rest2.len() >= 2);
            assert(rest2[0] == ',');
            assert(rest2.drop_first() =~= m);
            assert(m.len() < t.len());
            assert(wf_entries(entries.drop_first())) by {
                assert forall|j: int| 0 <= j < entries.drop_first().len() implies all_plain(
                    (#[trigger] entries.drop_first()[j]).0,
                ) && wf_rendered_value(entries.drop_first()[j].1) by {
                    assert(entries.drop_first()[j] == entries[j + 1]);
                }
            }
            lemma_parse_members_render(entries.drop_first());
            assert(parse_members(t) == Some(seq![(k, v)] + entries.drop_first()));
            assert(seq![(k, v)] + entries.drop_first() =~= entries);
        }
    }
}

/// Rendering loses nothing: parsing the JSON text of a well-formed payload
/// yields exactly the payload's entries — the round trip from entries to
/// object text and back is the identity.
pub proof fn lemma_object_round_trip(entries: Seq<(Seq<char>, Seq<char>)>)
    requires
        wf_entries(entries),
    ensures
        parse_object(json_object_text(entries)) == Some(entries),
{
    let t = json_object_text(entries);
    assert(t[0] == '{');
    assert(t.drop_first() =~= json_members(entries) + seq!['}']);
    lemma_parse_members_render(entries);
}

/// The success payload comes back whole from its serialized body.
pub proof fn lemma_score_body_round_trip()
    ensures
        parse_object(score_body_text()) == Some(score_entries()),
{
    reveal_strlit("user1");
    reveal_strlit("user2");
    reveal_strlit("user3");
    reveal_strlit("user4");
    reveal_strlit("user5");
    reveal_strlit("user6");
    reveal_strlit("user7");
    reveal_strlit("user8");
    reveal_strlit("user9");
    reveal_strlit("user10");
    let e = score_entries();
    assert(wf_entries(e)) by {
        assert forall|j: int| 0 <= j < e.len() implies all_plain((#[trigger] e[j]).0)
            && wf_rendered_value(e[j].1) by {
            assert(all_plain("user1"@));
            assert(all_plain("user2"@));
            assert(all_plain("user3"@));
            assert(all_plain("user4"@));
            assert(all_plain("user5"@));
            assert(all_plain("user6"@));
            assert(all_plain("user7"@));
            assert(all_plain("user8"@));
            assert(all_plain("user9"@));
            assert(all_plain("user10"@));
            assert(e[0].1 == dec_str(10));
            assert(e[1].1 == dec_str(20));
            assert(e[2].1 == dec_str(30));
            assert(e[3].1 == dec_str(40));
            assert(e[4].1 == dec_str(50));
            assert(e[5].1 == dec_str(60));
            assert(e[6].1 == dec_str(70));
            assert(e[7].1 == dec_str(80));
            assert(e[8].1 == dec_str(90));
            assert(e[9].1 == dec_str(100));
        }
    }
    lemma_object_round_trip(e);
}

/// The error payload comes back whole from its serialized body.
pub proof fn lemma_error_body_round_trip()
    ensures
        parse_object(error_body_text()) == Some(error_entries()),
{
    reveal_strlit("status");
    reveal_strlit("error");
    reveal_strlit("message");
    reveal_strlit("allowed");
    let e = error_entries();
    assert(wf_entries(e)) by {
        assert forall|j: int| 0 <= j < e.len() implies all_plain((#[trigger] e[j]).0)
            && wf_rendered_value(e[j].1) by {
            assert(all_plain("status"@));
            assert(all_plain("error"@));
            assert(all_plain("message"@));
            assert(all_plain("allowed"@));
            assert(e[0].1 == json_string_lit("405"@));
            assert(e[1].1 == json_string_lit("Method Not Allowed"@));
            assert(e[2].1 == json_string_lit(
                "POST requests are not supported at this endpoint. Please use GET."@,
            ));
            assert(e[3].1 == json_string_lit("[\"GET\"]"@));
        }
    }
    lemma_object_round_trip(e);
}

} // verus!
