//! The address at which the summarising service is asked.

use crate::github::{strip_suffixes, trim_end_matches};
use crate::text::{append, chars_of, string_of};
use vstd::prelude::*;

verus! {

/// The address of the messages endpoint below a base address: the base
/// without the slashes at its end, then `/v1/messages`. Without a base
/// address the service's own is taken.
pub open spec fn endpoint_of(base_url: Option<Seq<char>>) -> Seq<char> {
    let base = match base_url {
        Some(address) => address,
        None => "https://api.anthropic.com"@,
    };
    strip_suffixes(base, "/"@) + "/v1/messages"@
}

/// The address of the messages endpoint.
pub fn api_url(base_url: Option<&str>) -> (url: String)
    ensures
        url@ == endpoint_of(base_url.deep_view()),
{
    let base = match base_url {
        Some(address) => chars_of(address),
        None => chars_of("https://api.anthropic.com"),
    };
    let mut out = trim_end_matches(&base, &chars_of("/"));
    append(&mut out, &chars_of("/v1/messages"));
    string_of(&out)
}

} // verus!
