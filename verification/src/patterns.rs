//! Calls into the regular-expression, JSON and Base64 crates, with what
//! this library states of them.
use vstd::prelude::*;

verus! {

/// What `Regex::new(pattern)` then `replace_all(text, replacement)` gives,
/// or `None` where the pattern does not compile.
pub uninterp spec fn regex_replace_all_result(pattern: Seq<char>, text: Seq<char>, replacement: Seq<char>) -> Option<Seq<char>>;

/// The first match of `pattern` in `text` (leftmost-first), as the text
/// before it, its capture groups (group 0 is the whole match; an unmatched
/// group is `None`) and the text after it; `None` where the pattern does
/// not compile or does not match.
pub uninterp spec fn regex_first_match(pattern: Seq<char>, text: Seq<char>)
    -> Option<(Seq<char>, Seq<Option<Seq<char>>>, Seq<char>)>;

/// Group 1 of every successive non-overlapping match of `pattern` in
/// `text` (`None` for a match without it); empty where the pattern does not
/// compile.
pub uninterp spec fn regex_all_group1(pattern: Seq<char>, text: Seq<char>) -> Seq<Option<Seq<char>>>;

/// The JSON text of an object with the entries `pairs`, in which each value
/// is the JSON that its text parses as, or the string itself where it does
/// not parse.
pub uninterp spec fn json_object_text(pairs: Seq<(Seq<char>, Seq<char>)>) -> Seq<char>;

/// Whether `text` parses as a JSON value.
pub uninterp spec fn json_parses(text: Seq<char>) -> bool;

/// The character of the standard Base64 alphabet for the six bits `v`.
pub open spec fn base64_digit(v: int) -> char {
    if v < 26 {
        ('A' as int + v) as char
    } else if v < 52 {
        ('a' as int + (v - 26)) as char
    } else if v < 62 {
        ('0' as int + (v - 52)) as char
    } else if v == 62 {
        '+'
    } else {
        '/'
    }
}

/// The standard Base64 encoding (RFC 4648, with `=` padding) of `bytes`:
/// each group of three bytes becomes four characters of six bits each; a
/// last group of one or two bytes is padded.
pub open spec fn base64_standard(bytes: Seq<u8>) -> Seq<char>
    decreases bytes.len(),
{
    if bytes.len() == 0 {
        Seq::empty()
    } else if bytes.len() == 1 {
        let x = bytes[0] as int;
        seq![base64_digit(x / 4), base64_digit((x % 4) * 16), '=', '=']
    } else if bytes.len() == 2 {
        let x = bytes[0] as int;
        let y = bytes[1] as int;
        seq![base64_digit(x / 4), base64_digit((x % 4) * 16 + y / 16), base64_digit((y % 16) * 4), '=']
    } else {
        let x = bytes[0] as int;
        let y = bytes[1] as int;
        let z = bytes[2] as int;
        seq![base64_digit(x / 4), base64_digit((x % 4) * 16 + y / 16), base64_digit((y % 16) * 4 + z / 64), base64_digit(z % 64)]
            + base64_standard(bytes.subrange(3, bytes.len() as int))
    }
}

pub open spec fn opt_string_view(o: Option<String>) -> Option<Seq<char>> {
    match o {
        Some(s) => Some(s@),
        None => None,
    }
}

/// `regex::Regex::new(pattern)` and `Regex::replace_all(text, replacement)`:
/// every match of the pattern in `text` replaced by `replacement`, in which
/// `$1`, `$2` stand for capture groups.  `None` where the pattern does not
/// compile.
#[verifier::external_body]
pub(crate) fn regex_replace_all(pattern: &str, text: &str, replacement: &str) -> (r: Option<String>)
    ensures
        opt_string_view(r) == regex_replace_all_result(pattern@, text@, replacement@),
{
    match regex::Regex::new(pattern) {
        Ok(re) => Some(re.replace_all(text, replacement).to_string()),
        Err(_) => None,
    }
}

/// A match of a regular expression: the text before it, its groups, and
/// the text after it.
pub struct RegexMatch {
    pub before: String,
    pub groups: Vec<Option<String>>,
    pub after: String,
}

pub open spec fn regex_match_view(m: RegexMatch) -> (Seq<char>, Seq<Option<Seq<char>>>, Seq<char>) {
    (m.before@, m.groups@.map_values(|g: Option<String>| opt_string_view(g)), m.after@)
}

/// `regex::Regex::new(pattern)` and `Regex::captures(text)`: the first
/// match, split into what precedes it, its capture groups, and what follows
/// it.  `None` where the pattern does not compile or nothing matches.
#[verifier::external_body]
pub(crate) fn regex_captures(pattern: &str, text: &str) -> (r: Option<RegexMatch>)
    ensures
        match r {
            Some(m) => regex_first_match(pattern@, text@) == Some(regex_match_view(m)),
            None => regex_first_match(pattern@, text@) is None,
        },
{
    let re = regex::Regex::new(pattern).ok()?;
    let caps = re.captures(text)?;
    let whole = caps.get(0)?;
    Some(RegexMatch {
        before: text[..whole.start()].to_string(),
        groups: caps.iter().map(|g| g.map(|m| m.as_str().to_string())).collect(),
        after: text[whole.end()..].to_string(),
    })
}

/// `regex::Regex::new(pattern)` and `Regex::captures_iter(text)`: group 1
/// of each match, in order.  Empty where the pattern does not compile.
#[verifier::external_body]
pub(crate) fn regex_group1_all(pattern: &str, text: &str) -> (r: Vec<Option<String>>)
    ensures
        r@.map_values(|g: Option<String>| opt_string_view(g)) == regex_all_group1(pattern@, text@),
{
    match regex::Regex::new(pattern) {
        Ok(re) => re.captures_iter(text).map(|c| c.get(1).map(|m| m.as_str().to_string())).collect(),
        Err(_) => Vec::new(),
    }
}

/// `serde_json::from_str` of each value (a `String` value where it fails),
/// collected into a `serde_json::Map` in order, then `serde_json::to_string`
/// of the object.
#[verifier::external_body]
pub(crate) fn json_object_string(pairs: &Vec<(String, String)>) -> (r: String)
    ensures
        r@ == json_object_text(pairs@.map_values(|p: (String, String)| (p.0@, p.1@))),
{
    let obj: serde_json::Map<String, serde_json::Value> = pairs
        .iter()
        .map(|(k, v)| (k.clone(), serde_json::from_str(v).unwrap_or_else(|_| serde_json::Value::String(v.clone()))))
        .collect();
    serde_json::to_string(&serde_json::Value::Object(obj)).unwrap_or_default()
}

/// `serde_json::from_str::<serde_json::Value>(text).is_ok()`.
#[verifier::external_body]
pub(crate) fn json_is_valid(text: &str) -> (b: bool)
    ensures
        b == json_parses(text@),
{
    serde_json::from_str::<serde_json::Value>(text).is_ok()
}

/// `base64::engine::general_purpose::STANDARD.encode` of the bytes of `s`.
/// Claimed: the standard padded Base64 text of the UTF-8 bytes, as
/// `base64_standard` states it.
#[verifier::external_body]
fn base64_encode_str(s: &str) -> (r: String)
    ensures
        r@ == base64_standard(vstd::utf8::encode_utf8(s@)),
{
    base64::Engine::encode(&base64::engine::general_purpose::STANDARD, s.as_bytes())
}

/// The `base64_encode` filter: the standard Base64 encoding of the UTF-8
/// bytes of `s`.
pub fn filter_base64_encode(s: &str) -> (r: String)
    ensures
        r@ == base64_standard(vstd::utf8::encode_utf8(s@)),
{
    base64_encode_str(s)
}

} // verus!
