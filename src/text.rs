use vstd::prelude::*;

verus! {

/// `needle` occurs in `text` as a run of consecutive characters.
pub open spec fn contains(text: Seq<char>, needle: Seq<char>) -> bool {
    exists|i: int|
        0 <= i <= text.len() - needle.len() && #[trigger] text.subrange(i, i + needle.len()) == needle
}

/// The characters that carry a meaning of their own in a regular expression.
pub open spec fn is_meta(c: char) -> bool {
    c == '\\' || c == '.' || c == '+' || c == '*' || c == '?' || c == '(' || c == ')' || c == '|'
        || c == '[' || c == ']' || c == '{' || c == '}' || c == '^' || c == '$' || c == '#'
        || c == '&' || c == '-' || c == '~'
}

/// A short search string in which no character has a meaning of its own in a regular
/// expression, so that as a pattern it matches exactly its own text.
pub open spec fn plain_literal(s: Seq<char>) -> bool {
    s.len() <= 1000 && forall|i: int| 0 <= i < s.len() ==> !is_meta(#[trigger] s[i])
}

pub open spec fn dot_all_flag() -> Seq<char> {
    seq!['(', '?', 's', ')']
}

/// A plain literal behind the flag that lets `.` match a line break.
pub open spec fn dot_all_literal(pattern: Seq<char>) -> bool {
    pattern.len() >= 4 && pattern.take(4) == dot_all_flag() && plain_literal(pattern.skip(4))
}

/// Whether the regular expression `pattern` matches somewhere in `text`.
pub uninterp spec fn regex_finds(pattern: Seq<char>, text: Seq<char>) -> bool;

/// Relies on regex::Regex::new and regex::Regex::is_match: the answer depends on the pattern
/// and the text alone. After the `(?s)` flag group, a pattern of at most 1000 characters,
/// none of them in regex_syntax::is_meta_character, is a plain literal: it compiles, far below
/// the default NFA size limit of 10 MiB, and matches exactly where its text occurs. `None`
/// when the pattern does not compile.
#[verifier::external_body]
fn regex_is_match(pattern: &str, text: &str) -> (r: Option<bool>)
    ensures
        r matches Some(found) ==> found == regex_finds(pattern@, text@),
        dot_all_literal(pattern@) ==> r == Some(contains(text@, pattern@.skip(4))),
{
    match regex::Regex::new(pattern) {
        Ok(re) => Some(re.is_match(text)),
        Err(_) => None,
    }
}

/// Whether `search_string` occurs anywhere in `text`, across line breaks.
pub fn search_substring(text: &str, search_string: &str) -> (r: bool)
    requires
        plain_literal(search_string@),
    ensures
        r == contains(text@, search_string@),
{
    let mut pattern = "(?s)".to_owned();
    pattern.append(search_string);
    proof {
        reveal_strlit("(?s)");
        assert(pattern@.take(4) =~= dot_all_flag());
        assert(pattern@.skip(4) =~= search_string@);
    }
    match regex_is_match(pattern.as_str(), text) {
        Some(found) => found,
        None => false,
    }
}

/// A URL that does not parse, or that an endpoint cannot be joined to.
#[derive(Clone, Copy, Debug, PartialEq, Eq, Structural)]
pub enum UrlError {
    Invalid,
}

/// The text of `endpoint` resolved against the absolute URL `base`, if both parse.
pub uninterp spec fn url_joined(base: Seq<char>, endpoint: Seq<char>) -> Option<Seq<char>>;

/// The path of the absolute URL `url`, if it parses.
pub uninterp spec fn url_path(url: Seq<char>) -> Option<Seq<char>>;

/// Relies on reqwest::Url (the url crate's `Url`): `Url::parse` of the base, `Url::join` of the
/// endpoint and the text of the result; the outcome depends on the two strings alone.
#[verifier::external_body]
fn join_url(base: &str, endpoint: &str) -> (r: Option<String>)
    ensures
        match r {
            Some(u) => url_joined(base@, endpoint@) == Some(u@),
            None => url_joined(base@, endpoint@) is None,
        },
{
    match reqwest::Url::parse(base) {
        Ok(b) => match b.join(endpoint) {
            Ok(u) => Some(u.to_string()),
            Err(_) => None,
        },
        Err(_) => None,
    }
}

/// Relies on reqwest::Url (the url crate's `Url`): `Url::parse` and `Url::path`; the outcome
/// depends on the string alone.
#[verifier::external_body]
fn parse_url_path(url: &str) -> (r: Option<String>)
    ensures
        match r {
            Some(p) => url_path(url@) == Some(p@),
            None => url_path(url@) is None,
        },
{
    match reqwest::Url::parse(url) {
        Ok(u) => Some(u.path().to_string()),
        Err(_) => None,
    }
}

/// Resolves `endpoint`, relative or absolute, against the absolute URL `base_url`.
pub fn concatenate_url(base_url: &str, endpoint: &str) -> (r: Result<String, UrlError>)
    ensures
        match r {
            Ok(u) => url_joined(base_url@, endpoint@) == Some(u@),
            Err(_) => url_joined(base_url@, endpoint@) is None,
        },
{
    match join_url(base_url, endpoint) {
        Some(u) => Ok(u),
        None => Err(UrlError::Invalid),
    }
}

/// The path of an absolute URL (`http://host/job/MyJob/1` gives `/job/MyJob/1`).
pub fn extract_path(url: &str) -> (r: Result<String, UrlError>)
    ensures
        match r {
            Ok(p) => url_path(url@) == Some(p@),
            Err(_) => url_path(url@) is None,
        },
{
    match parse_url_path(url) {
        Some(p) => Ok(p),
        None => Err(UrlError::Invalid),
    }
}

} // verus!
