//! JSON text of the values written into a Zenoh configuration, as serde_json
//! renders them.

use vstd::prelude::*;

verus! {

/// The lower-case hexadecimal digit of `n` (0 to 15).
pub open spec fn hex_digit(n: int) -> char {
    if n < 10 {
        (('0' as int) + n) as char
    } else {
        (('a' as int) + n - 10) as char
    }
}

/// How serde_json writes one character inside a JSON string: quote and
/// backslash behind a backslash, the short escapes `\b \t \n \f \r`, other
/// control characters below U+0020 as `\u00XX`, everything else as it is.
pub open spec fn json_escape_char(c: char) -> Seq<char> {
    if c == '"' {
        seq!['\\', '"']
    } else if c == '\\' {
        seq!['\\', '\\']
    } else if c == '\u{8}' {
        seq!['\\', 'b']
    } else if c == '\t' {
        seq!['\\', 't']
    } else if c == '\n' {
        seq!['\\', 'n']
    } else if c == '\u{c}' {
        seq!['\\', 'f']
    } else if c == '\r' {
        seq!['\\', 'r']
    } else if (c as u32) < 0x20 {
        seq!['\\', 'u', '0', '0', hex_digit((c as int) / 16), hex_digit((c as int) % 16)]
    } else {
        seq![c]
    }
}

/// The characters of `s`, each written as `json_escape_char` writes it.
pub open spec fn json_escape(s: Seq<char>) -> Seq<char>
    decreases s.len(),
{
    if s.len() == 0 {
        Seq::empty()
    } else {
        json_escape(s.drop_last()) + json_escape_char(s.last())
    }
}

/// The compact JSON text that serde_json renders for the string `s`: `s`
/// escaped, between double quotes.
pub open spec fn json_text_of_string(s: Seq<char>) -> Seq<char> {
    seq!['"'] + json_escape(s) + seq!['"']
}

/// Whether `s` holds no character that JSON escapes: no double quote, no
/// backslash and no control character below U+0020.
pub open spec fn json_plain(s: Seq<char>) -> bool {
    forall|i: int| 0 <= i < s.len() ==> {
        let c = #[trigger] s[i];
        c != '"' && c != '\\' && (c as u32) >= 0x20
    }
}

/// `items` rendered one after another, separated by commas.
pub open spec fn json_comma_list(items: Seq<Seq<char>>) -> Seq<char>
    decreases items.len(),
{
    if items.len() == 0 {
        Seq::empty()
    } else if items.len() == 1 {
        json_text_of_string(items[0])
    } else {
        json_comma_list(items.drop_last()) + seq![','] + json_text_of_string(items.last())
    }
}

/// The compact JSON text of an array of strings: `[`, the strings rendered
/// and separated by commas, `]`.
pub open spec fn json_text_of_string_array(items: Seq<Seq<char>>) -> Seq<char> {
    seq!['['] + json_comma_list(items) + seq![']']
}

/// The compact JSON text of a boolean.
pub open spec fn json_text_of_bool(b: bool) -> Seq<char> {
    if b {
        seq!['t', 'r', 'u', 'e']
    } else {
        seq!['f', 'a', 'l', 's', 'e']
    }
}

/// The characters of each string of a vector.
pub open spec fn strings_view(v: Seq<String>) -> Seq<Seq<char>> {
    v.map_values(|s: String| s@)
}

/// Renders a string as JSON with serde_json (`Value::String` displayed):
/// the compact formatter writes a double quote, each character as its escape
/// table says (`json_escape_char`), and a double quote.
#[verifier::external_body]
pub(crate) fn json_string(s: &str) -> (r: String)
    ensures
        r@ == json_text_of_string(s@),
{
    serde_json::Value::String(s.to_string()).to_string()
}

/// Renders a list of strings as a JSON array with serde_json
/// (`Value::from(Vec<String>)` displayed): the compact formatter writes `[`,
/// each element as it renders a lone string, commas between them, and `]`.
#[verifier::external_body]
pub(crate) fn json_string_array(items: &Vec<String>) -> (r: String)
    ensures
        r@ == json_text_of_string_array(strings_view(items@)),
{
    serde_json::Value::from(items.clone()).to_string()
}

/// Renders a boolean as JSON with serde_json (`Value::Bool` displayed),
/// which writes `true` or `false`.
#[verifier::external_body]
pub(crate) fn json_bool(b: bool) -> (r: String)
    ensures
        r@ == json_text_of_bool(b),
{
    serde_json::Value::Bool(b).to_string()
}

/// A string with nothing to escape is written as it is, between double
/// quotes.
pub proof fn lemma_plain_string_text(s: Seq<char>)
    requires
        json_plain(s),
    ensures
        json_text_of_string(s) == seq!['"'] + s + seq!['"'],
    decreases s.len(),
{
    lemma_plain_escape(s);
}

/// Escaping leaves a string with nothing to escape as it is.
proof fn lemma_plain_escape(s: Seq<char>)
    requires
        json_plain(s),
    ensures
        json_escape(s) == s,
    decreases s.len(),
{
    if s.len() > 0 {
        let earlier = s.drop_last();
        assert(json_plain(earlier)) by {
            assert forall|i: int| 0 <= i < earlier.len() implies {
                let c = #[trigger] earlier[i];
                c != '"' && c != '\\' && (c as u32) >= 0x20
            } by {
                assert(earlier[i] == s[i]);
            }
        }
        lemma_plain_escape(earlier);
        let c = s[s.len() - 1];
        assert(c != '"' && c != '\\' && (c as u32) >= 0x20);
        assert(json_escape_char(c) == seq![c]);
        assert(s =~= earlier.push(c));
        assert(earlier + seq![c] =~= earlier.push(c));
    }
}

} // verus!
