//! The folding of key/value pairs into resources.
//!
//! The pairs are read in order. Each key is classified, held against the
//! grouping that the keys before it set, and its value is said of the
//! resource that the key speaks of. The first pair that cannot be read ends
//! the reading with its error.

use vstd::prelude::*;
use crate::error::ErrorView;
use crate::parameter::classify;
use crate::resource::{Resource, ResourceView};

verus! {

/// A key and its value, as character sequences.
pub type Pair = (Seq<char>, Seq<char>);

/// Whether the keys seen so far carry group numbers.
#[derive(Clone, Copy, Debug, PartialEq, Eq)]
pub enum Grouping {
    /// No key was seen yet.
    Unknown,
    /// Every key seen carries a group number.
    Grouped,
    /// No key seen carries a group number.
    Ungrouped,
}

impl Grouping {
    /// The state after one more key was seen, where `grouped` tells whether
    /// that key carries a group number; `None` where it disagrees with the
    /// keys seen before.
    pub open spec fn after(self, grouped: bool) -> Option<Grouping> {
        match self {
            Grouping::Unknown => Some(
                if grouped {
                    Grouping::Grouped
                } else {
                    Grouping::Ungrouped
                },
            ),
            Grouping::Grouped => if grouped {
                Some(Grouping::Grouped)
            } else {
                None
            },
            Grouping::Ungrouped => if grouped {
                None
            } else {
                Some(Grouping::Ungrouped)
            },
        }
    }

    /// Takes note of one more key, where `grouped` tells whether it carries a
    /// group number.
    pub fn observe(self, grouped: bool) -> (next: Option<Grouping>)
        ensures
            next == self.after(grouped),
    {
        match self {
            Grouping::Unknown => Some(
                if grouped {
                    Grouping::Grouped
                } else {
                    Grouping::Ungrouped
                },
            ),
            Grouping::Grouped => if grouped {
                Some(Grouping::Grouped)
            } else {
                None
            },
            Grouping::Ungrouped => if grouped {
                None
            } else {
                Some(Grouping::Ungrouped)
            },
        }
    }
}

/// What was gathered from the pairs read so far.
pub struct Accumulation {
    pub grouping: Grouping,
    pub resources: Seq<ResourceView>,
}

/// The resource that a key with the group `group` speaks of: the one that
/// the group numbers, and the first where the key has no group.
pub open spec fn resource_index(group: Option<nat>) -> int {
    match group {
        Some(n) => n as int,
        None => 0,
    }
}

/// `resources`, followed by as many empty resources as it takes to reach the
/// length `len`.
pub open spec fn padded(resources: Seq<ResourceView>, len: int) -> Seq<ResourceView> {
    Seq::new(
        if resources.len() >= len {
            resources.len()
        } else {
            len as nat
        },
        |i: int|
            if i < resources.len() {
                resources[i]
            } else {
                ResourceView::empty()
            },
    )
}

/// What is gathered after `acc` when `pair` is read: the key is classified,
/// held against the grouping of the keys before it, and the value is said of
/// the resource that the key speaks of, after the list was made long enough
/// to hold that resource.
pub open spec fn accumulate(acc: Accumulation, pair: Pair) -> Result<Accumulation, ErrorView> {
    match classify(pair.0) {
        Err(e) => Err(e),
        Ok(parameter) => match acc.grouping.after(parameter.group is Some) {
            None => Err(ErrorView::InconsistentGrouping),
            Some(grouping) => {
                let index: int = resource_index(parameter.group);
                let resources = padded(acc.resources, index + 1);
                match resources[index].apply(parameter.param_type, pair.1) {
                    Err(e) => Err(e),
                    Ok(resource) => Ok(
                        Accumulation { grouping, resources: resources.update(index, resource) },
                    ),
                }
            },
        },
    }
}

/// What is gathered when `pairs` are read from first to last, starting with
/// nothing; the error of the first pair that cannot be read.
pub open spec fn accumulate_all(pairs: Seq<Pair>) -> Result<Accumulation, ErrorView>
    decreases pairs.len(),
{
    if pairs.len() == 0 {
        Ok(Accumulation { grouping: Grouping::Unknown, resources: Seq::empty() })
    } else {
        match accumulate_all(pairs.drop_last()) {
            Err(e) => Err(e),
            Ok(acc) => accumulate(acc, pairs.last()),
        }
    }
}

/// The resources that `pairs` describe.
pub open spec fn decode(pairs: Seq<Pair>) -> Result<Seq<ResourceView>, ErrorView> {
    match accumulate_all(pairs) {
        Err(e) => Err(e),
        Ok(acc) => Ok(acc.resources),
    }
}

/// An error among some pairs is the error of every sequence that begins
/// with them.
pub proof fn error_stays(pairs: Seq<Pair>, n: int)
    requires
        0 <= n <= pairs.len(),
        accumulate_all(pairs.take(n)) is Err,
    ensures
        accumulate_all(pairs) == accumulate_all(pairs.take(n)),
    decreases pairs.len(),
{
    if n < pairs.len() {
        assert(pairs.drop_last().take(n) == pairs.take(n));
        error_stays(pairs.drop_last(), n);
    } else {
        assert(pairs.take(n) == pairs);
    }
}

/// Adds empty resources to `list` until it holds the index `index`.
pub(crate) fn extend_to(list: &mut Vec<Resource>, index: usize)
    ensures
        final(list).deep_view() == padded(old(list).deep_view(), index + 1),
        index < final(list).len(),
{
    assert(list.deep_view() =~= padded(old(list).deep_view(), list.len() as int));
    while list.len() <= index
        invariant
            list.len() >= old(list).len(),
            list.len() == old(list).len() || list.len() <= index + 1,
            list.deep_view() == padded(old(list).deep_view(), list.len() as int),
        decreases index + 1 - list.len(),
    {
        let ghost shorter = list.deep_view();
        list.push(Resource::default());
        assert(list.deep_view() =~= shorter.push(ResourceView::empty()));
        assert(list.deep_view() =~= padded(old(list).deep_view(), list.len() as int));
    }
    assert(list.deep_view() =~= padded(old(list).deep_view(), index + 1));
}

} // verus!
