//! The address of the storage service, as the client wants it.

use vstd::prelude::*;

verus! {

/// `text` with every leading occurrence of `prefix` taken off. An empty
/// prefix takes nothing off.
pub open spec fn strip_leading(text: Seq<char>, prefix: Seq<char>) -> Seq<char>
    decreases text.len(),
{
    if prefix.len() > 0 && prefix.is_prefix_of(text) {
        strip_leading(text.skip(prefix.len() as int), prefix)
    } else {
        text
    }
}

/// `str::trim_start_matches` with a string as the pattern: the rest of the
/// text after all leading occurrences of the pattern.
#[verifier::external_body]
fn trim_leading<'a>(text: &'a str, prefix: &str) -> (rest: &'a str)
    ensures
        rest@ == strip_leading(text@, prefix@),
{
    text.trim_start_matches(prefix)
}

/// The host part of an endpoint: the endpoint without a leading `https://`
/// and, after that, without a leading `http://`. The client always talks
/// HTTPS, whatever scheme the endpoint named.
pub fn clean_endpoint(endpoint: &str) -> (host: &str)
    ensures
        host@ == strip_leading(strip_leading(endpoint@, "https://"@), "http://"@),
{
    trim_leading(trim_leading(endpoint, "https://"), "http://")
}

} // verus!
