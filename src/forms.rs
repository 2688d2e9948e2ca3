//! Request forms and their field checks.
use vstd::prelude::*;

verus! {

/// A refresh request: the refresh token the client holds.
pub struct Token {
    pub refresh_token: String,
}

/// A field that failed its check, by code.
pub struct ValidationError {
    pub code: String,
}

/// Whether `c` has the Unicode White_Space property, which both `str::trim` and the
/// `regex` crate's `\s` go by.
pub open spec fn is_white_space(c: char) -> bool {
    let v = c as u32;
    (0x9 <= v && v <= 0xd) || v == 0x20 || v == 0x85 || v == 0xa0 || v == 0x1680 || (0x2000 <= v
        && v <= 0x200a) || v == 0x2028 || v == 0x2029 || v == 0x202f || v == 0x205f || v == 0x3000
}

/// `s` with every maximal run of whitespace replaced by one space.
pub open spec fn spaces_collapsed(s: Seq<char>) -> Seq<char>
    decreases s.len(),
{
    if s.len() == 0 {
        seq![]
    } else if is_white_space(s[0]) && s.len() > 1 && is_white_space(s[1]) {
        spaces_collapsed(s.drop_first())
    } else if is_white_space(s[0]) {
        seq![' '] + spaces_collapsed(s.drop_first())
    } else {
        seq![s[0]] + spaces_collapsed(s.drop_first())
    }
}

/// `s` without its leading whitespace.
pub open spec fn trim_start(s: Seq<char>) -> Seq<char>
    decreases s.len(),
{
    if s.len() > 0 && is_white_space(s[0]) {
        trim_start(s.drop_first())
    } else {
        s
    }
}

/// `s` without its trailing whitespace.
pub open spec fn trim_end(s: Seq<char>) -> Seq<char>
    decreases s.len(),
{
    if s.len() > 0 && is_white_space(s.last()) {
        trim_end(s.drop_last())
    } else {
        s
    }
}

/// `s` without leading and trailing whitespace.
pub open spec fn trimmed(s: Seq<char>) -> Seq<char> {
    trim_end(trim_start(s))
}

/// The characters a full name may not hold: digits and listed punctuation.
pub open spec fn name_forbidden(c: char) -> bool {
    ('0' <= c && c <= '9') || c == '±' || c == '!' || c == '@' || c == '£' || c == '$' || c == '%'
        || c == '^' || c == '&' || c == '*' || c == '_' || c == '+' || c == '§' || c == '¡' || c
        == '€' || c == '#' || c == '¢' || c == '¶' || c == '•' || c == 'ª' || c == 'º' || c == '«'
        || c == '\\' || c == '/' || c == '<' || c == '>' || c == '?' || c == ':' || c == ';' || c
        == '\'' || c == '|' || c == '=' || c == '.' || c == ','
}

/// Whether `s` is 3 to 20 characters, none of them forbidden in a name.
pub open spec fn is_full_name(s: Seq<char>) -> bool {
    3 <= s.len() <= 20 && forall|i: int| 0 <= i < s.len() ==> !name_forbidden(#[trigger] s[i])
}

/// Relies on `regex::Regex::replace_all` with the pattern `\s+` and the replacement `" "`:
/// each maximal run of whitespace is one leftmost, greedy match.
#[verifier::external_body]
fn collapse_spaces(s: &str) -> (r: String)
    ensures
        r@ == spaces_collapsed(s@),
{
    regex::Regex::new(r"\s+").unwrap().replace_all(s, " ").into_owned()
}

/// Relies on `str::trim`: it removes leading and trailing White_Space characters.
#[verifier::external_body]
fn trim(s: &str) -> (r: String)
    ensures
        r@ == trimmed(s@),
{
    s.trim().to_string()
}

/// Relies on `regex::Regex::is_match` with the pattern
/// `^[^±!@£$%^&*_+§¡€#¢§¶•ªº«\\/<>?:;'|=.,0123456789]{3,20}$`: anchored at both ends, a
/// negated class matches any one character outside the set (a line break included), and
/// the repetition counts characters.
#[verifier::external_body]
fn matches_full_name(s: &str) -> (r: bool)
    ensures
        r == is_full_name(s@),
{
    regex::Regex::new(r"^[^±!@£$%^&*_+§¡€#¢§¶•ªº«\\/<>?:;'|=.,0123456789]{3,20}$").unwrap().is_match(s)
}

/// Accepts a full name that, once its whitespace runs are collapsed and its ends trimmed,
/// is 3 to 20 characters of no digit or listed punctuation; else `invalid_full_name`.
pub fn validate_full_name(name: &str) -> (r: Result<(), ValidationError>)
    ensures
        r is Ok == is_full_name(trimmed(spaces_collapsed(name@))),
        r matches Err(e) ==> e.code@ == "invalid_full_name"@,
{
    let cleaned = collapse_spaces(name);
    let trimmed_name = trim(cleaned.as_str());
    if matches_full_name(trimmed_name.as_str()) {
        Ok(())
    } else {
        Err(ValidationError { code: "invalid_full_name".to_owned() })
    }
}

} // verus!
