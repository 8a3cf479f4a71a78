//! Magnet URIs and the resources they describe.

use vstd::prelude::*;
use crate::accumulator::{
    accumulate_all, decode, error_stays, extend_to, Accumulation, Grouping, Pair,
};
use crate::description::{
    all_described, decoded_resources_are_described, failed_pairs_have_a_first_fault, fault,
    is_first_fault, sound,
};
use crate::error::{Error, ErrorView};
use crate::parameter::Parameter;
use crate::resource::{Resource, ResourceView};
use crate::uri::{split_uri, uri_parts, UriParts, UriPartsView};

verus! {

/// The key/value pairs of a magnet URI, in the order of its query.
#[derive(Debug, PartialEq, Eq)]
pub struct MagnetUri {
    pairs: Vec<(String, String)>,
}

impl View for MagnetUri {
    type V = Seq<Pair>;

    closed spec fn view(&self) -> Seq<Pair> {
        self.pairs.deep_view()
    }
}

/// The pairs of a magnet URI with the parts `parts`: the scheme must be
/// `magnet` and a query must be there.
pub open spec fn magnet_pairs(parts: UriPartsView) -> Result<Seq<Pair>, ErrorView> {
    if parts.scheme != "magnet"@ {
        Err(ErrorView::InvalidScheme(parts.scheme))
    } else if !parts.has_query {
        Err(ErrorView::EmptyQuery)
    } else {
        Ok(parts.pairs)
    }
}

/// The outcome of [`MagnetUri::resources`] as a mathematical value.
pub open spec fn decoded(r: Result<Vec<Resource>, Error>) -> Result<Seq<ResourceView>, ErrorView> {
    match r {
        Ok(list) => Ok(list.deep_view()),
        Err(e) => Err(e@),
    }
}

/// The outcome of [`MagnetUri::parse`] as a mathematical value.
pub open spec fn parsed(r: Result<MagnetUri, Error>) -> Result<Seq<Pair>, ErrorView> {
    match r {
        Ok(uri) => Ok(uri@),
        Err(e) => Err(e@),
    }
}

impl MagnetUri {
    /// Reads `magnet` as a magnet URI.
    ///
    /// The text is handed to the URI parser. Its error is returned as
    /// [`Error::ParseError`]; what it found is judged by
    /// [`MagnetUri::from_parts`].
    pub fn parse(magnet: &str) -> (r: Result<MagnetUri, Error>)
        ensures
            parsed(r) == match uri_parts(magnet@) {
                Ok(parts) => magnet_pairs(parts),
                Err(cause) => Err(ErrorView::ParseError(cause)),
            },
            uri_parts(magnet@) matches Ok(parts) ==> parts.scheme != "magnet"@ ==> parsed(r)
                == Err::<Seq<Pair>, ErrorView>(ErrorView::InvalidScheme(parts.scheme)),
    {
        match split_uri(magnet) {
            Ok(parts) => MagnetUri::from_parts(parts),
            Err(cause) => Err(Error::ParseError(cause)),
        }
    }

    /// Accepts the parts of a URI as a magnet URI: fails with
    /// [`Error::InvalidScheme`] where the scheme is not `magnet`, else with
    /// [`Error::EmptyQuery`] where the URI has no query, and else keeps the
    /// pairs as they are. The keys are not looked at yet.
    pub fn from_parts(parts: UriParts) -> (r: Result<MagnetUri, Error>)
        ensures
            parsed(r) == magnet_pairs(parts@),
            parts@.scheme != "magnet"@ ==> parsed(r) == Err::<Seq<Pair>, ErrorView>(
                ErrorView::InvalidScheme(parts@.scheme),
            ),
    {
        let magnet = "magnet".to_owned();
        if parts.scheme != magnet {
            Err(Error::InvalidScheme(parts.scheme))
        } else if !parts.has_query {
            Err(Error::EmptyQuery)
        } else {
            Ok(MagnetUri { pairs: parts.pairs })
        }
    }

    /// The resources that this URI describes, in the order of their group
    /// numbers; one resource where the keys carry no group numbers, and none
    /// where there are no pairs. The first pair that cannot be read decides
    /// the error.
    pub fn resources(&self) -> (r: Result<Vec<Resource>, Error>)
        ensures
            decoded(r) == decode(self@),
            match r {
                Ok(list) => sound(self@) && list.deep_view() == all_described(self@),
                Err(e) => exists|i: int|
                    is_first_fault(self@, i) && fault(self@, i) == Some(e@),
            },
    {
        let mut list: Vec<Resource> = Vec::new();
        let mut grouping = Grouping::Unknown;
        let mut i: usize = 0;
        assert(self@.take(0) == Seq::<Pair>::empty());
        assert(list.deep_view() == Seq::<ResourceView>::empty());
        while i < self.pairs.len()
            invariant
                i <= self.pairs.len(),
                accumulate_all(self@.take(i as int)) == Ok::<Accumulation, ErrorView>(
                    Accumulation { grouping, resources: list.deep_view() },
                ),
            decreases self.pairs.len() - i,
        {
            let key = &self.pairs[i].0;
            let value = &self.pairs[i].1;
            proof {
                let read = self@.take(i + 1);
                assert(read.drop_last() == self@.take(i as int));
                assert(read.last() == (key@, value@));
                if accumulate_all(read) is Err {
                    error_stays(self@, i + 1);
                    failed_pairs_have_a_first_fault(self@);
                }
            }
            let parameter = match Parameter::parse(key.as_str()) {
                Ok(p) => p,
                Err(e) => {
                    return Err(e);
                },
            };
            grouping = match grouping.observe(parameter.group.is_some()) {
                Some(g) => g,
                None => {
                    return Err(Error::InconsistentGrouping);
                },
            };
            let index: usize = match parameter.group {
                Some(n) => n,
                None => 0,
            };
            extend_to(&mut list, index);
            let ghost before = list.deep_view();
            match list[index].apply(parameter.param_type, value.as_str()) {
                Ok(_) => {},
                Err(e) => {
                    return Err(e);
                },
            }
            assert(list.deep_view() =~= before.update(index as int, list[index as int]@));
            i = i + 1;
        }
        proof {
            assert(self@.take(i as int) == self@);
            decoded_resources_are_described(self@);
        }
        Ok(list)
    }
}

/// Two outcomes of [`MagnetUri::resources`] on one URI are the same.
pub proof fn resources_are_repeatable(
    uri: MagnetUri,
    first: Result<Vec<Resource>, Error>,
    second: Result<Vec<Resource>, Error>,
)
    requires
        decoded(first) == decode(uri@),
        decoded(second) == decode(uri@),
    ensures
        decoded(first) == decoded(second),
{
}

} // verus!
