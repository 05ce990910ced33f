use vstd::prelude::*;
use vstd::string::StrSliceExecFns;
use crate::errors::UrlError;

verus! {

/// An alias must have between 2 and 12 characters, inclusive.
pub open spec fn alias_len_ok(a: Seq<char>) -> bool {
    2 <= a.len() <= 12
}

/// An alias must not begin with the path-separator character.
pub open spec fn alias_format_ok(a: Seq<char>) -> bool {
    a.len() > 0 ==> a[0] != '/'
}

/// A well-formed alias: length in range and no leading separator.
pub open spec fn alias_ok(a: Seq<char>) -> bool {
    alias_len_ok(a) && alias_format_ok(a)
}

/// Whether a string is a syntactically valid absolute URL, as the `url`
/// parser used by the validator crate decides it. The predicate depends on
/// the characters of the string alone.
pub uninterp spec fn url_syntax_ok(s: Seq<char>) -> bool;

/// Relies on validator's `ValidateUrl` for `str`, which returns whether
/// `url::Url::parse` accepts the string; the answer is a function of the
/// string's characters alone.
#[verifier::external_body]
fn check_url_syntax(s: &str) -> (r: bool)
    ensures
        r == url_syntax_ok(s@),
{
    validator::ValidateUrl::validate_url(&s)
}

/// Whether a candidate alias obeys the length and format rules.
pub fn alias_valid(a: &String) -> (r: bool)
    ensures
        r == alias_ok(a@),
{
    let n: usize = a.as_str().unicode_len();
    if n < 2 || n > 12 {
        return false;
    }
    let first = a.as_str().get_char(0);
    first != '/'
}

/// Validates a candidate registration, short-circuiting in order: the
/// destination must parse as a URL, then the alias must obey the length
/// rule, then the format rule. Rejections are reported as `InvalidInput`.
pub fn validate_registration(url: &String, short_url: &String) -> (r: Result<(), UrlError>)
    ensures
        r is Ok <==> url_syntax_ok(url@) && alias_ok(short_url@),
        r is Err ==> r == Err::<(), UrlError>(UrlError::InvalidInput),
{
    if !check_url_syntax(url.as_str()) {
        return Err(UrlError::InvalidInput);
    }
    if !alias_valid(short_url) {
        return Err(UrlError::InvalidInput);
    }
    Ok(())
}

} // verus!
