//! What a sequence of pairs describes, stated pair by pair and field by
//! field, and the proofs that [`decode`] gives exactly that.

use vstd::prelude::*;
use crate::accumulator::{
    accumulate_all, decode, error_stays, padded, resource_index, Accumulation, Grouping, Pair,
};
use crate::decimal::decimal_value;
use crate::error::ErrorView;
use crate::parameter::{classify, ParameterTypeView, ParameterView};
use crate::resource::ResourceView;
use crate::text::{dot_index_unique, head};

verus! {

/// The key of `pair` carries a group number.
pub open spec fn grouped(pair: Pair) -> bool {
    classify(pair.0) matches Ok(p) && p.group is Some
}

/// The index of the resource that `pair` speaks of.
pub open spec fn index_of(pair: Pair) -> int {
    match classify(pair.0) {
        Ok(p) => resource_index(p.group),
        Err(_) => 0,
    }
}

/// Why the pair at `i` cannot be read when the pairs before it were read: its
/// key is not classified, or its key and the first key do not agree on
/// carrying a group number, or it gives a length that is no number.
pub open spec fn fault(pairs: Seq<Pair>, i: int) -> Option<ErrorView>
    recommends
        0 <= i < pairs.len(),
{
    match classify(pairs[i].0) {
        Err(e) => Some(e),
        Ok(p) => if (p.group is Some) != grouped(pairs[0]) {
            Some(ErrorView::InconsistentGrouping)
        } else if p.param_type is Length && decimal_value(pairs[i].1) is None {
            Some(ErrorView::InvalidLength(pairs[i].1))
        } else {
            None
        },
    }
}

/// The pair at `i` is the first of `pairs` that is at fault.
pub open spec fn is_first_fault(pairs: Seq<Pair>, i: int) -> bool {
    &&& 0 <= i < pairs.len()
    &&& fault(pairs, i) is Some
    &&& forall|j: int| 0 <= j < i ==> fault(pairs, j) is None
}

/// No pair of `pairs` is at fault.
pub open spec fn sound(pairs: Seq<Pair>) -> bool {
    forall|i: int| 0 <= i < pairs.len() ==> fault(pairs, i) is None
}

/// Picks the value of a pair that says something of type `param_type` of the
/// resource `index`.
pub open spec fn value_for(param_type: ParameterTypeView, index: int) -> spec_fn(Pair) -> Option<
    Seq<char>,
> {
    |pair: Pair|
        match classify(pair.0) {
            Ok(p) => if p.param_type == param_type && resource_index(p.group) == index {
                Some(pair.1)
            } else {
                None
            },
            Err(_) => None,
        }
}

/// Picks the name and the value of a pair that is an extension of the
/// resource `index`.
pub open spec fn extension_for(index: int) -> spec_fn(Pair) -> Option<(Seq<char>, Seq<char>)> {
    |pair: Pair|
        match classify(pair.0) {
            Ok(p) => match p.param_type {
                ParameterTypeView::Extension(name) => if resource_index(p.group) == index {
                    Some((name, pair.1))
                } else {
                    None
                },
                _ => None,
            },
            Err(_) => None,
        }
}

/// The values that `pairs` give for the type `param_type` of the resource
/// `index`, in the order of the pairs.
pub open spec fn values(pairs: Seq<Pair>, param_type: ParameterTypeView, index: int) -> Seq<
    Seq<char>,
> {
    pairs.filter_map(value_for(param_type, index))
}

/// The extensions that `pairs` give for the resource `index`, in the order of
/// the pairs.
pub open spec fn extensions(pairs: Seq<Pair>, index: int) -> Seq<(Seq<char>, Seq<char>)> {
    pairs.filter_map(extension_for(index))
}

/// The last of `items`, if there is any.
pub open spec fn last_of(items: Seq<Seq<char>>) -> Option<Seq<char>> {
    if items.len() == 0 {
        None
    } else {
        Some(items.last())
    }
}

/// What `pairs` say of the resource `index`: the last name and the last size
/// given for it, and every other value given for it, in the order of the
/// pairs.
pub open spec fn described(pairs: Seq<Pair>, index: int) -> ResourceView {
    ResourceView {
        name: last_of(values(pairs, ParameterTypeView::DisplayName, index)),
        size: match last_of(values(pairs, ParameterTypeView::Length, index)) {
            Some(text) => decimal_value(text),
            None => None,
        },
        hashes: values(pairs, ParameterTypeView::ExactTopic, index),
        web_sources: values(pairs, ParameterTypeView::AcceptableSource, index),
        p2p_sources: values(pairs, ParameterTypeView::ExactSource, index),
        keywords: values(pairs, ParameterTypeView::KeywordTopic, index),
        manifests: values(pairs, ParameterTypeView::ManifestTopic, index),
        trackers: values(pairs, ParameterTypeView::Tracker, index),
        supplement: extensions(pairs, index),
    }
}

/// How many resources `pairs` speak of: one more than the highest index that
/// a pair speaks of, and none where there is no pair.
pub open spec fn resource_count(pairs: Seq<Pair>) -> int
    decreases pairs.len(),
{
    if pairs.len() == 0 {
        0
    } else {
        let before: int = resource_count(pairs.drop_last());
        let here: int = index_of(pairs.last()) + 1;
        if before >= here {
            before
        } else {
            here
        }
    }
}

/// The resources that `pairs` describe, one for each index below
/// [`resource_count`].
pub open spec fn all_described(pairs: Seq<Pair>) -> Seq<ResourceView> {
    Seq::new(resource_count(pairs) as nat, |index: int| described(pairs, index))
}

/// The grouping after all of `pairs` were seen and agreed.
pub open spec fn grouping_of(pairs: Seq<Pair>) -> Grouping {
    if pairs.len() == 0 {
        Grouping::Unknown
    } else if grouped(pairs[0]) {
        Grouping::Grouped
    } else {
        Grouping::Ungrouped
    }
}

/// [`resource_count`] is above every index that a pair speaks of, and some
/// pair speaks of the index just below it.
pub proof fn resource_count_is_highest(pairs: Seq<Pair>)
    ensures
        resource_count(pairs) >= 0,
        pairs.len() == 0 <==> resource_count(pairs) == 0,
        forall|i: int| 0 <= i < pairs.len() ==> 0 <= index_of(#[trigger] pairs[i]) < resource_count(pairs),
        pairs.len() > 0 ==> exists|i: int|
            0 <= i < pairs.len() && index_of(#[trigger] pairs[i]) == resource_count(pairs) - 1,
    decreases pairs.len(),
{
    if pairs.len() > 0 {
        let before = pairs.drop_last();
        resource_count_is_highest(before);
        assert forall|i: int| 0 <= i < pairs.len() implies 0 <= index_of(#[trigger] pairs[i])
            < resource_count(pairs) by {
            if i < before.len() {
                assert(pairs[i] == before[i]);
            }
        }
        if resource_count(before) >= index_of(pairs.last()) + 1 {
            let i = choose|i: int|
                0 <= i < before.len() && index_of(#[trigger] before[i]) == resource_count(before)
                    - 1;
            assert(pairs[i] == before[i]);
        } else {
            assert(pairs[pairs.len() - 1] == pairs.last());
        }
    }
}

/// The key of `pair` is classified and speaks of the resource `index`.
pub open spec fn speaks_of(pair: Pair, index: int) -> bool {
    classify(pair.0) matches Ok(p) && resource_index(p.group) == index
}

/// The values after one more pair: those before it, and its own where it
/// gives one.
proof fn values_grow(pairs: Seq<Pair>, param_type: ParameterTypeView, index: int)
    requires
        pairs.len() > 0,
    ensures
        values(pairs, param_type, index) == match value_for(param_type, index)(pairs.last()) {
            Some(value) => values(pairs.drop_last(), param_type, index).push(value),
            None => values(pairs.drop_last(), param_type, index),
        },
{
    let pick = value_for(param_type, index);
    let before = pairs.drop_last().filter_map(pick);
    match pick(pairs.last()) {
        Some(value) => {
            assert(before + seq![value] =~= before.push(value));
        },
        None => {},
    }
}

/// The extensions after one more pair: those before it, and its own where it
/// is one.
proof fn extensions_grow(pairs: Seq<Pair>, index: int)
    requires
        pairs.len() > 0,
    ensures
        extensions(pairs, index) == match extension_for(index)(pairs.last()) {
            Some(extension) => extensions(pairs.drop_last(), index).push(extension),
            None => extensions(pairs.drop_last(), index),
        },
{
    let pick = extension_for(index);
    let before = pairs.drop_last().filter_map(pick);
    match pick(pairs.last()) {
        Some(extension) => {
            assert(before + seq![extension] =~= before.push(extension));
        },
        None => {},
    }
}

/// What is said of a resource after one more pair: the same where the pair
/// does not speak of it, and else what the pair's value makes of it.
proof fn described_grows(pairs: Seq<Pair>, index: int)
    requires
        pairs.len() > 0,
    ensures
        !speaks_of(pairs.last(), index) ==> described(pairs, index) == described(
            pairs.drop_last(),
            index,
        ),
        speaks_of(pairs.last(), index) ==> {
            let applied = described(pairs.drop_last(), index).apply(
                classify(pairs.last().0)->Ok_0.param_type,
                pairs.last().1,
            );
            applied is Ok ==> applied == Ok::<ResourceView, ErrorView>(described(pairs, index))
        },
{
    values_grow(pairs, ParameterTypeView::DisplayName, index);
    values_grow(pairs, ParameterTypeView::Length, index);
    values_grow(pairs, ParameterTypeView::ExactTopic, index);
    values_grow(pairs, ParameterTypeView::AcceptableSource, index);
    values_grow(pairs, ParameterTypeView::ExactSource, index);
    values_grow(pairs, ParameterTypeView::KeywordTopic, index);
    values_grow(pairs, ParameterTypeView::ManifestTopic, index);
    values_grow(pairs, ParameterTypeView::Tracker, index);
    extensions_grow(pairs, index);
}

/// Of a resource that no pair speaks of nothing is said.
pub proof fn unmentioned_resource_is_empty(pairs: Seq<Pair>, index: int)
    requires
        forall|i: int| 0 <= i < pairs.len() ==> !speaks_of(#[trigger] pairs[i], index),
    ensures
        described(pairs, index) == ResourceView::empty(),
    decreases pairs.len(),
{
    if pairs.len() > 0 {
        let before = pairs.drop_last();
        assert forall|i: int| 0 <= i < before.len() implies !speaks_of(
            #[trigger] before[i],
            index,
        ) by {
            assert(before[i] == pairs[i]);
        }
        unmentioned_resource_is_empty(before, index);
        assert(pairs.last() == pairs[pairs.len() - 1]);
        described_grows(pairs, index);
    }
}

/// The pairs before the last are sound where all are.
proof fn sound_before(pairs: Seq<Pair>, n: int)
    requires
        0 <= n <= pairs.len(),
        forall|i: int| 0 <= i < n ==> fault(pairs, i) is None,
    ensures
        sound(pairs.take(n)),
{
    let front = pairs.take(n);
    assert forall|i: int| 0 <= i < front.len() implies fault(front, i) is None by {
        assert(front[i] == pairs[i]);
        assert(front[0] == pairs[0]);
        assert(fault(pairs, i) is None);
    }
}

/// Reading sound pairs gathers what they describe.
proof fn sound_pairs_accumulate(pairs: Seq<Pair>)
    requires
        sound(pairs),
    ensures
        accumulate_all(pairs) == Ok::<Accumulation, ErrorView>(
            Accumulation { grouping: grouping_of(pairs), resources: all_described(pairs) },
        ),
    decreases pairs.len(),
{
    if pairs.len() == 0 {
        assert(all_described(pairs) =~= Seq::empty());
    } else {
        let before = pairs.drop_last();
        let last = pairs.last();
        sound_before(pairs, pairs.len() - 1);
        sound_pairs_accumulate(before);
        resource_count_is_highest(before);
        let acc = Accumulation { grouping: grouping_of(before), resources: all_described(before) };
        assert(fault(pairs, pairs.len() - 1) is None);
        let parameter = classify(last.0)->Ok_0;
        let index: int = resource_index(parameter.group);
        if before.len() > 0 {
            assert(before[0] == pairs[0]);
        }
        assert(acc.grouping.after(parameter.group is Some) == Some(grouping_of(pairs)));
        let resources = padded(acc.resources, index + 1);
        let applied = resources[index].apply(parameter.param_type, last.1);
        assert(resources[index] == described(before, index)) by {
            if index >= resource_count(before) {
                assert forall|i: int| 0 <= i < before.len() implies !speaks_of(
                    #[trigger] before[i],
                    index,
                ) by {
                    assert(index_of(before[i]) < resource_count(before));
                }
                unmentioned_resource_is_empty(before, index);
            }
        }
        described_grows(pairs, index);
        assert(applied is Ok);
        let result = resources.update(index, applied->Ok_0);
        assert(result =~= all_described(pairs)) by {
            assert forall|g: int| 0 <= g < result.len() implies result[g] == described(
                pairs,
                g,
            ) by {
                if g != index {
                    described_grows(pairs, g);
                    if g >= resource_count(before) {
                        assert forall|i: int| 0 <= i < before.len() implies !speaks_of(
                            #[trigger] before[i],
                            g,
                        ) by {
                            assert(index_of(before[i]) < resource_count(before));
                        }
                        unmentioned_resource_is_empty(before, g);
                    }
                }
            }
        }
    }
}

/// Pairs of which none is at fault describe one resource for each index up
/// to the highest that a pair speaks of, each made of what the pairs say of
/// it.
pub proof fn sound_pairs_decode(pairs: Seq<Pair>)
    requires
        sound(pairs),
    ensures
        decode(pairs) == Ok::<Seq<ResourceView>, ErrorView>(all_described(pairs)),
{
    sound_pairs_accumulate(pairs);
}

/// The first pair at fault decides the error.
pub proof fn first_fault_decides(pairs: Seq<Pair>, i: int)
    requires
        is_first_fault(pairs, i),
    ensures
        decode(pairs) == Err::<Seq<ResourceView>, ErrorView>(fault(pairs, i)->Some_0),
{
    let before = pairs.take(i);
    let read = pairs.take(i + 1);
    sound_before(pairs, i);
    sound_pairs_accumulate(before);
    assert(read.drop_last() == before);
    assert(read.last() == pairs[i]);
    if i > 0 {
        assert(before[0] == pairs[0]);
    }
    assert(accumulate_all(read) == Err::<Accumulation, ErrorView>(fault(pairs, i)->Some_0));
    error_stays(pairs, i + 1);
}

/// At or before a pair at fault stands the first pair at fault.
proof fn first_fault(pairs: Seq<Pair>, i: int) -> (first: int)
    requires
        0 <= i < pairs.len(),
        fault(pairs, i) is Some,
    ensures
        first <= i,
        is_first_fault(pairs, first),
    decreases i,
{
    if exists|j: int| 0 <= j < i && fault(pairs, j) is Some {
        let j = choose|j: int| 0 <= j < i && fault(pairs, j) is Some;
        first_fault(pairs, j)
    } else {
        i
    }
}

/// Pairs that describe resources are sound, and the resources are what the
/// pairs say of each index: the list has no gaps, and it ends with the
/// highest index that a pair speaks of.
pub proof fn decoded_resources_are_described(pairs: Seq<Pair>)
    requires
        decode(pairs) is Ok,
    ensures
        sound(pairs),
        decode(pairs) == Ok::<Seq<ResourceView>, ErrorView>(all_described(pairs)),
{
    if !sound(pairs) {
        let i: int = choose|i: int| 0 <= i < pairs.len() && fault(pairs, i) is Some;
        let first: int = first_fault(pairs, i);
        first_fault_decides(pairs, first);
    }
    sound_pairs_decode(pairs);
}

/// Pairs that describe no resources hold a first pair at fault, and its
/// fault is their error.
pub proof fn failed_pairs_have_a_first_fault(pairs: Seq<Pair>)
    requires
        decode(pairs) is Err,
    ensures
        exists|i: int|
            is_first_fault(pairs, i) && decode(pairs) == Err::<Seq<ResourceView>, ErrorView>(
                fault(pairs, i)->Some_0,
            ),
{
    if sound(pairs) {
        sound_pairs_decode(pairs);
    }
    let i: int = choose|i: int| 0 <= i < pairs.len() && fault(pairs, i) is Some;
    let first: int = first_fault(pairs, i);
    first_fault_decides(pairs, first);
}

/// Where every key is classified and every length is a number, keys of
/// which one carries a group number and another does not are rejected as
/// inconsistent, in whatever order they come.
pub proof fn mixed_grouping_is_rejected(pairs: Seq<Pair>, i: int, j: int)
    requires
        0 <= i < pairs.len(),
        0 <= j < pairs.len(),
        grouped(pairs[i]) != grouped(pairs[j]),
        forall|k: int| 0 <= k < pairs.len() ==> classify(#[trigger] pairs[k].0) is Ok,
        forall|k: int|
            0 <= k < pairs.len() && classify(#[trigger] pairs[k].0)->Ok_0.param_type is Length
                ==> decimal_value(pairs[k].1) is Some,
    ensures
        decode(pairs) == Err::<Seq<ResourceView>, ErrorView>(ErrorView::InconsistentGrouping),
{
    let odd: int = if grouped(pairs[i]) != grouped(pairs[0]) {
        i
    } else {
        j
    };
    assert(classify(pairs[odd].0) is Ok);
    let first: int = first_fault(pairs, odd);
    assert(classify(pairs[first].0) is Ok);
    first_fault_decides(pairs, first);
}

/// The key made of `x.` and a name without a dot is classified as the
/// extension of that name, and a single pair with that key describes one
/// resource, which holds the name and the value as its only extension and
/// nothing else.
pub proof fn extension_is_kept(name: Seq<char>, value: Seq<char>)
    requires
        forall|i: int| 0 <= i < name.len() ==> name[i] != '.',
    ensures
        classify("x."@ + name) == Ok::<ParameterView, ErrorView>(
            ParameterView { param_type: ParameterTypeView::Extension(name), group: None },
        ),
        decode(seq![("x."@ + name, value)]) == Ok::<Seq<ResourceView>, ErrorView>(
            seq![ResourceView { supplement: seq![(name, value)], ..ResourceView::empty() }],
        ),
{
    reveal_strlit("x.");
    reveal_strlit("x");
    let key = "x."@ + name;
    dot_index_unique(key, 1);
    assert(head(key) =~= "x"@);
    assert(key.skip(2) =~= name);
    dot_index_unique(name, name.len() as int);
    assert(head(name) =~= name);
    let pairs = seq![(key, value)];
    assert(pairs.drop_last() =~= Seq::<Pair>::empty());
    assert(pairs.last() == (key, value));
    assert(accumulate_all(pairs.drop_last()) == Ok::<Accumulation, ErrorView>(
        Accumulation { grouping: Grouping::Unknown, resources: Seq::empty() },
    ));
    let resources = padded(Seq::<ResourceView>::empty(), 1);
    assert(resources[0] == ResourceView::empty());
    assert(Seq::<(Seq<char>, Seq<char>)>::empty().push((name, value)) =~= seq![(name, value)]);
    assert(resources.update(
        0,
        ResourceView { supplement: seq![(name, value)], ..ResourceView::empty() },
    ) =~= seq![ResourceView { supplement: seq![(name, value)], ..ResourceView::empty() }]);
}

} // verus!
