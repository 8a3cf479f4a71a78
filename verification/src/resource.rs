//! One download target and what a magnet URI says of it.

use vstd::prelude::*;
use crate::decimal::{decimal_value, parse_decimal};
use crate::error::{Error, ErrorView};
use crate::parameter::{ParameterType, ParameterTypeView};
use crate::text::chars_of;

verus! {

/// What a magnet URI says of one download target. A resource holds at most
/// one name and one size, and any number of the other fields, in the order
/// in which the URI gave them.
#[derive(Clone, Debug, PartialEq, Eq)]
pub struct Resource {
    /// The name to show.
    pub name: Option<String>,
    /// The size in bytes.
    pub size: Option<usize>,
    /// URNs that hold a hash of the content.
    pub hashes: Vec<String>,
    /// Web addresses to fall back on.
    pub web_sources: Vec<String>,
    /// Peer-to-peer addresses.
    pub p2p_sources: Vec<String>,
    /// Search keywords.
    pub keywords: Vec<String>,
    /// Addresses of manifests.
    pub manifests: Vec<String>,
    /// Addresses of trackers.
    pub trackers: Vec<String>,
    /// Extensions, each with its name and its value.
    pub supplement: Vec<(String, String)>,
}

/// A [`Resource`] as a mathematical value.
pub struct ResourceView {
    pub name: Option<Seq<char>>,
    pub size: Option<nat>,
    pub hashes: Seq<Seq<char>>,
    pub web_sources: Seq<Seq<char>>,
    pub p2p_sources: Seq<Seq<char>>,
    pub keywords: Seq<Seq<char>>,
    pub manifests: Seq<Seq<char>>,
    pub trackers: Seq<Seq<char>>,
    pub supplement: Seq<(Seq<char>, Seq<char>)>,
}

impl ResourceView {
    /// The resource of which nothing is said.
    pub open spec fn empty() -> ResourceView {
        ResourceView {
            name: None,
            size: None,
            hashes: Seq::empty(),
            web_sources: Seq::empty(),
            p2p_sources: Seq::empty(),
            keywords: Seq::empty(),
            manifests: Seq::empty(),
            trackers: Seq::empty(),
            supplement: Seq::empty(),
        }
    }

    /// This resource after a parameter of type `param_type` with the value
    /// `value` was said of it: the name and the size are replaced, every
    /// other field gets the value at its end. A size that is no decimal
    /// number that fits `usize` is an error.
    pub open spec fn apply(self, param_type: ParameterTypeView, value: Seq<char>) -> Result<
        ResourceView,
        ErrorView,
    > {
        match param_type {
            ParameterTypeView::DisplayName => Ok(ResourceView { name: Some(value), ..self }),
            ParameterTypeView::Length => match decimal_value(value) {
                Some(n) => Ok(ResourceView { size: Some(n), ..self }),
                None => Err(ErrorView::InvalidLength(value)),
            },
            ParameterTypeView::ExactTopic => Ok(
                ResourceView { hashes: self.hashes.push(value), ..self },
            ),
            ParameterTypeView::AcceptableSource => Ok(
                ResourceView { web_sources: self.web_sources.push(value), ..self },
            ),
            ParameterTypeView::ExactSource => Ok(
                ResourceView { p2p_sources: self.p2p_sources.push(value), ..self },
            ),
            ParameterTypeView::KeywordTopic => Ok(
                ResourceView { keywords: self.keywords.push(value), ..self },
            ),
            ParameterTypeView::ManifestTopic => Ok(
                ResourceView { manifests: self.manifests.push(value), ..self },
            ),
            ParameterTypeView::Tracker => Ok(
                ResourceView { trackers: self.trackers.push(value), ..self },
            ),
            ParameterTypeView::Extension(name) => Ok(
                ResourceView { supplement: self.supplement.push((name, value)), ..self },
            ),
        }
    }
}

impl View for Resource {
    type V = ResourceView;

    open spec fn view(&self) -> ResourceView {
        ResourceView {
            name: self.name.deep_view(),
            size: match self.size {
                Some(n) => Some(n as nat),
                None => None,
            },
            hashes: self.hashes.deep_view(),
            web_sources: self.web_sources.deep_view(),
            p2p_sources: self.p2p_sources.deep_view(),
            keywords: self.keywords.deep_view(),
            manifests: self.manifests.deep_view(),
            trackers: self.trackers.deep_view(),
            supplement: self.supplement.deep_view(),
        }
    }
}

impl DeepView for Resource {
    type V = ResourceView;

    open spec fn deep_view(&self) -> ResourceView {
        self@
    }
}

impl Default for Resource {
    /// The resource of which nothing is said.
    fn default() -> (r: Resource)
        ensures
            r@ == ResourceView::empty(),
    {
        let r = Resource {
            name: None,
            size: None,
            hashes: Vec::new(),
            web_sources: Vec::new(),
            p2p_sources: Vec::new(),
            keywords: Vec::new(),
            manifests: Vec::new(),
            trackers: Vec::new(),
            supplement: Vec::new(),
        };
        assert(r@.hashes =~= Seq::empty());
        assert(r@.web_sources =~= Seq::empty());
        assert(r@.p2p_sources =~= Seq::empty());
        assert(r@.keywords =~= Seq::empty());
        assert(r@.manifests =~= Seq::empty());
        assert(r@.trackers =~= Seq::empty());
        assert(r@.supplement =~= Seq::empty());
        r
    }
}

/// Puts `value` at the end of `list`.
fn append(list: &mut Vec<String>, value: String)
    ensures
        final(list).deep_view() == old(list).deep_view().push(value@),
{
    list.push(value);
    assert(list.deep_view() =~= old(list).deep_view().push(value@));
}

impl Resource {
    /// Says of this resource what a parameter of type `param_type` with the
    /// value `value` says. On an error the resource is left as it was.
    pub fn apply(&mut self, param_type: ParameterType, value: &str) -> (r: Result<(), Error>)
        ensures
            match r {
                Ok(_) => old(self)@.apply(param_type@, value@) == Ok::<ResourceView, ErrorView>(
                    final(self)@,
                ),
                Err(e) => old(self)@.apply(param_type@, value@) == Err::<ResourceView, ErrorView>(
                    e@,
                ) && *final(self) == *old(self),
            },
    {
        match param_type {
            ParameterType::DisplayName => {
                self.name = Some(value.to_owned());
            },
            ParameterType::Length => {
                let digits = chars_of(value);
                assert(digits@.subrange(0, digits.len() as int) == value@);
                match parse_decimal(&digits, 0, digits.len()) {
                    Some(n) => {
                        self.size = Some(n);
                    },
                    None => {
                        return Err(Error::InvalidLength(value.to_owned()));
                    },
                }
            },
            ParameterType::ExactTopic => append(&mut self.hashes, value.to_owned()),
            ParameterType::AcceptableSource => append(&mut self.web_sources, value.to_owned()),
            ParameterType::ExactSource => append(&mut self.p2p_sources, value.to_owned()),
            ParameterType::KeywordTopic => append(&mut self.keywords, value.to_owned()),
            ParameterType::ManifestTopic => append(&mut self.manifests, value.to_owned()),
            ParameterType::Tracker => append(&mut self.trackers, value.to_owned()),
            ParameterType::Extension(name) => {
                self.supplement.push((name, value.to_owned()));
                assert(self.supplement.deep_view() =~= old(self).supplement.deep_view().push(
                    (name@, value@),
                ));
            },
        }
        Ok(())
    }
}

} // verus!
