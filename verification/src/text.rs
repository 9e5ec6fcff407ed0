use vstd::prelude::*;

verus! {

/// `str::starts_with` with a string pattern: whether `prefix` is a leading part of `text`.
#[verifier::external_body]
pub(crate) fn starts_with(text: &str, prefix: &str) -> (yes: bool)
    ensures
        yes == prefix@.is_prefix_of(text@),
{
    text.starts_with(prefix)
}

/// `str::strip_prefix` with a string pattern: the part of `text` after `prefix`, where `text`
/// begins with it, and nothing where it does not.
#[verifier::external_body]
pub(crate) fn strip_prefix<'a>(text: &'a str, prefix: &str) -> (rest: Option<&'a str>)
    ensures
        rest is Some <==> prefix@.is_prefix_of(text@),
        rest is Some ==> text@ == prefix@ + rest.unwrap()@,
{
    text.strip_prefix(prefix)
}

} // verus!
