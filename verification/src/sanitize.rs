//! Stripping markup from the texts the feed returns.

use vstd::prelude::*;

verus! {

/// The plain text the tag-stripping pass leaves of `raw`: the text content
/// of the HTML fragment `raw`, serialised again, with no element kept.
pub uninterp spec fn sanitized(raw: Seq<char>) -> Seq<char>;

/// `ammonia::Builder::clean` on the builder that `ammonia::Builder::empty`
/// makes, which allows no tag, with the cleaned document serialised by
/// `ammonia::Document::to_string`. The result depends on the input text
/// alone; the contract only gives it a name.
#[verifier::external_body]
pub(crate) fn strip_tags(raw: &str) -> (clean: String)
    ensures
        clean@ == sanitized(raw@),
{
    ammonia::Builder::empty().clean(raw).to_string()
}

} // verus!
