//! Trusted boundary to the regular-expression engine and to the UTF-8 test.
//! Everything else in the crate is verified against the names and contracts
//! declared here.

use vstd::prelude::*;

verus! {

/// What `regex::bytes::Regex::new` decides for a pattern: true exactly when
/// the bytes are valid UTF-8 whose text compiles as a regular expression.
pub uninterp spec fn regex_ok(pattern: Seq<u8>) -> bool;

/// What `regex::bytes::Regex::replace_all` returns: `text` with every
/// non-overlapping match of `pattern` replaced by `rep` (with `$n` capture
/// references expanded), a function of the three arguments alone.
pub uninterp spec fn regex_replaced(pattern: Seq<u8>, rep: Seq<u8>, text: Seq<u8>) -> Seq<u8>;

/// Relies on `regex::bytes::Regex::new`, whose success depends on the pattern
/// alone, and on `regex::bytes::Regex::replace_all`, which replaces every
/// non-overlapping match of the compiled pattern in `text` by `rep` with `$n`
/// capture references expanded.
#[verifier::external_body]
pub(crate) fn regex_replace_all(pattern: &Vec<u8>, rep: &Vec<u8>, text: &Vec<u8>) -> (r: Option<
    Vec<u8>,
>)
    ensures
        r is Some <==> regex_ok(pattern@),
        r is Some ==> r.unwrap()@ == regex_replaced(pattern@, rep@, text@),
{
    let p = match core::str::from_utf8(pattern) {
        Ok(p) => p,
        Err(_) => return None,
    };
    match regex::bytes::Regex::new(p) {
        Ok(re) => Some(re.replace_all(text, rep.as_slice()).into_owned()),
        Err(_) => None,
    }
}

/// What `core::str::from_utf8` decides: whether the bytes are valid UTF-8
/// text, a function of the bytes alone.
pub uninterp spec fn utf8_ok(b: Seq<u8>) -> bool;

/// Relies on `core::str::from_utf8`: it returns `Ok` exactly when the bytes
/// are valid UTF-8.
#[verifier::external_body]
pub(crate) fn is_text(b: &Vec<u8>) -> (r: bool)
    ensures
        r == utf8_ok(b@),
{
    core::str::from_utf8(b).is_ok()
}

} // verus!
