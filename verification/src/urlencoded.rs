//! Url query strings.
use vstd::prelude::*;

verus! {

/// The url-encoded form of named texts, in order, as `serde_urlencoded` writes it, or `None`
/// when it reports an error (deterministic in the pairs).
pub uninterp spec fn urlencoded_pairs(pairs: Seq<(Seq<char>, Seq<char>)>) -> Option<Seq<char>>;

/// The model of a list of named texts.
pub open spec fn pairs_view(pairs: Seq<(&str, &str)>) -> Seq<(Seq<char>, Seq<char>)> {
    pairs.map_values(|p: (&str, &str)| (p.0@, p.1@))
}

/// Encode named texts as a url query.
/// Trusted: `serde_urlencoded::to_string` on a list of (name, text) pairs; its result is
/// named `urlencoded_pairs`.
#[verifier::external_body]
pub(crate) fn encode_pairs(pairs: &[(&str, &str)]) -> (r: Option<String>)
    ensures
        match r {
            Some(q) => urlencoded_pairs(pairs_view(pairs@)) == Some(q@),
            None => urlencoded_pairs(pairs_view(pairs@)) is None,
        },
{
    serde_urlencoded::to_string(pairs).ok()
}

} // verus!
