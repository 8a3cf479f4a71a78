//! The parts of a URI that a magnet link is read from.

use vstd::prelude::*;

verus! {

/// What the URI parser found in a text: the scheme, whether a query
/// component is there at all, and the query's key/value pairs, decoded, in
/// the order and number in which the query holds them.
#[derive(Debug, PartialEq, Eq)]
pub struct UriParts {
    pub scheme: String,
    pub has_query: bool,
    pub pairs: Vec<(String, String)>,
}

/// [`UriParts`] with its texts as character sequences.
pub struct UriPartsView {
    pub scheme: Seq<char>,
    pub has_query: bool,
    pub pairs: Seq<(Seq<char>, Seq<char>)>,
}

impl View for UriParts {
    type V = UriPartsView;

    open spec fn view(&self) -> UriPartsView {
        UriPartsView {
            scheme: self.scheme@,
            has_query: self.has_query,
            pairs: self.pairs.deep_view(),
        }
    }
}

/// What `url::Url::parse` makes of the text `input`: its error, or the parts
/// of the URL that it built. Nothing is stated of this value but that the
/// text determines it.
pub uninterp spec fn uri_parts(input: Seq<char>) -> Result<UriPartsView, url::ParseError>;

/// Parses `input` with `url::Url::parse` and, where that gives a URL, reads
/// its scheme with `Url::scheme`, whether it has a query with `Url::query`,
/// and the decoded pairs of the query with `Url::query_pairs`.
///
/// Not proved: that the outcome is `uri_parts` of the text, which is to say
/// that the same text always gives the same outcome.
#[verifier::external_body]
pub(crate) fn split_uri(input: &str) -> (r: Result<UriParts, url::ParseError>)
    ensures
        match r {
            Ok(parts) => uri_parts(input@) == Ok::<UriPartsView, url::ParseError>(parts@),
            Err(cause) => uri_parts(input@) == Err::<UriPartsView, url::ParseError>(cause),
        },
{
    match url::Url::parse(input) {
        Ok(found) => Ok(
            UriParts {
                scheme: found.scheme().to_owned(),
                has_query: found.query().is_some(),
                pairs: found.query_pairs().into_owned().collect(),
            },
        ),
        Err(cause) => Err(cause),
    }
}

} // verus!
