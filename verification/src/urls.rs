//! Candidate request URLs for a book's configuration metadata.
//!
//! A fetch tries an ordered, non-empty list of fully formed URLs. In legacy
//! mode the list is the single public endpoint, built from the identifier
//! alone. Otherwise the authenticated metadata endpoint (identifier in the
//! path, credential as a query parameter) comes strictly first, followed by
//! the public endpoint as a fallback.

use vstd::prelude::*;
use vstd::string::StringExecFns;
use crate::textspec::contains_seq;

verus! {

/// The public endpoint for an identifier. The credential never enters it.
pub open spec fn public_url_spec(slug: Seq<char>) -> Seq<char> {
    "https://leanpub.com/"@ + slug + ".json"@
}

/// The authenticated metadata endpoint: identifier as a path segment,
/// credential as the `api_key` query parameter.
pub open spec fn auth_url_spec(slug: Seq<char>, api_key: Seq<char>) -> Seq<char> {
    "https://leanpub.com/"@ + slug + "/book_metadata.json?api_key="@ + api_key
}

/// The ordered candidate list: the public URL alone in legacy mode, else the
/// authenticated URL strictly before the public fallback.
pub open spec fn candidates_spec(slug: Seq<char>, api_key: Seq<char>, legacy: bool) -> Seq<
    Seq<char>,
> {
    if legacy {
        seq![public_url_spec(slug)]
    } else {
        seq![auth_url_spec(slug, api_key), public_url_spec(slug)]
    }
}

/// Builds the public endpoint URL for an identifier.
pub fn public_url(slug: &str) -> (r: String)
    ensures
        r@ == public_url_spec(slug@),
{
    let mut s: String = "https://leanpub.com/".to_owned();
    s.append(slug);
    s.append(".json");
    s
}

/// Builds the authenticated metadata endpoint URL for an identifier and a
/// credential.
pub fn auth_url(slug: &str, api_key: &str) -> (r: String)
    ensures
        r@ == auth_url_spec(slug@, api_key@),
{
    let mut s: String = "https://leanpub.com/".to_owned();
    s.append(slug);
    s.append("/book_metadata.json?api_key=");
    s.append(api_key);
    s
}

/// Builds the full ordered candidate list for one invocation.
pub fn build_candidates(slug: &str, api_key: &str, legacy: bool) -> (r: Vec<String>)
    ensures
        r.deep_view() == candidates_spec(slug@, api_key@, legacy),
        r@.len() > 0,
{
    let mut v: Vec<String> = Vec::new();
    if legacy {
        v.push(public_url(slug));
    } else {
        v.push(auth_url(slug, api_key));
        v.push(public_url(slug));
    }
    proof {
        assert(v.deep_view() =~= candidates_spec(slug@, api_key@, legacy));
    }
    v
}

/// A legacy invocation attempts exactly one URL, the public endpoint, and the
/// candidate list is independent of the credential: the credential never
/// enters the single URL that is attempted.
pub proof fn lemma_legacy_candidates_credential_free(
    slug: Seq<char>,
    key1: Seq<char>,
    key2: Seq<char>,
)
    ensures
        candidates_spec(slug, key1, true).len() == 1,
        candidates_spec(slug, key1, true)[0] == public_url_spec(slug),
        candidates_spec(slug, key1, true) == candidates_spec(slug, key2, true),
{
    assert(candidates_spec(slug, key1, true) =~= candidates_spec(slug, key2, true));
}

/// No URL of a legacy invocation contains the credential value. The
/// credential never enters the construction (see
/// `lemma_legacy_candidates_credential_free`); the precondition only rules
/// out an identifier that happens to spell the credential into the public
/// URL on its own.
pub proof fn lemma_legacy_urls_free_of_credential(slug: Seq<char>, key: Seq<char>)
    requires
        !contains_seq(public_url_spec(slug), key),
    ensures
        forall|i: int|
            0 <= i < candidates_spec(slug, key, true).len() ==> !contains_seq(
                candidates_spec(slug, key, true)[i],
                key,
            ),
{
}

/// In a non-legacy invocation the authenticated URL stands strictly before
/// the public fallback URL in the candidate list.
pub proof fn lemma_auth_before_public(slug: Seq<char>, api_key: Seq<char>)
    ensures
        candidates_spec(slug, api_key, false).len() == 2,
        candidates_spec(slug, api_key, false)[0] == auth_url_spec(slug, api_key),
        candidates_spec(slug, api_key, false)[1] == public_url_spec(slug),
{
}

/// The fallback candidate substitutes the same, unchanged identifier into the
/// public URL template: it equals the single legacy candidate for that
/// identifier.
pub proof fn lemma_fallback_same_identifier(slug: Seq<char>, api_key: Seq<char>)
    ensures
        candidates_spec(slug, api_key, false)[1] == public_url_spec(slug),
        candidates_spec(slug, api_key, false)[1] == candidates_spec(slug, api_key, true)[0],
{
}

} // verus!
