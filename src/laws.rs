//! Properties that relate the library's functions over all inputs.
use vstd::prelude::*;
use crate::dump::{DumpObject, MetadataEntry, NodeObject};
use crate::resolve::{
    default_sink_key, default_sink_name, is_node_named, node_named, resolution, sink_in_entries,
    sink_in_object, volume_range_of, ResolveErrorView, SinkView,
};
use crate::volume::{
    changed_level, payload_for, Action, VolumeRange, VolumeStateView,
};

verus! {

proof fn lemma_insert_front<A>(objs: Seq<A>, i: int, x: A)
    requires
        0 < i <= objs.len(),
    ensures
        objs.insert(i, x)[0] == objs[0],
        objs.insert(i, x).drop_first() == objs.drop_first().insert(i - 1, x),
{
    assert(objs.insert(i, x).drop_first() =~= objs.drop_first().insert(i - 1, x));
}

proof fn lemma_insert_sink_name(objs: Seq<DumpObject>, i: int, v: serde_json::Value)
    requires
        0 <= i <= objs.len(),
    ensures
        default_sink_name(objs.insert(i, DumpObject::Unrecognized(v))) == default_sink_name(objs),
    decreases i,
{
    let x = DumpObject::Unrecognized(v);
    if i == 0 {
        assert(objs.insert(0, x).drop_first() =~= objs);
    } else {
        lemma_insert_front(objs, i, x);
        lemma_insert_sink_name(objs.drop_first(), i - 1, v);
    }
}

proof fn lemma_insert_node(objs: Seq<DumpObject>, i: int, v: serde_json::Value, name: Seq<char>)
    requires
        0 <= i <= objs.len(),
    ensures
        node_named(objs.insert(i, DumpObject::Unrecognized(v)), name) == node_named(objs, name),
    decreases i,
{
    let x = DumpObject::Unrecognized(v);
    if i == 0 {
        assert(objs.insert(0, x).drop_first() =~= objs);
    } else {
        lemma_insert_front(objs, i, x);
        lemma_insert_node(objs.drop_first(), i - 1, v, name);
    }
}

/// An object of an unrecognized shape, wherever it stands in a dump, changes
/// nothing about what resolving the dump gives.
pub proof fn law_unrecognized_objects_ignored(
    objs: Seq<DumpObject>,
    i: int,
    v: serde_json::Value,
)
    requires
        0 <= i <= objs.len(),
    ensures
        resolution(objs.insert(i, DumpObject::Unrecognized(v))) == resolution(objs),
{
    lemma_insert_sink_name(objs, i, v);
    if let Some(name) = default_sink_name(objs) {
        lemma_insert_node(objs, i, v, name);
    }
}

/// An object that names no default sink and is no node named `name`.
pub open spec fn unrelated(o: DumpObject, name: Seq<char>) -> bool {
    sink_in_object(o) is None && !is_node_named(o, name)
}

/// A dump with one object naming the default sink (at `m`) and one node of
/// that name (at `j`) resolves to that node, whatever the other objects are,
/// so long as they name no sink and are no node of that name.
pub proof fn law_single_sink_found(objs: Seq<DumpObject>, m: int, j: int, node: NodeObject)
    requires
        0 <= m < objs.len(),
        0 <= j < objs.len(),
        objs[j] == DumpObject::Node(node),
        forall|k: int|
            0 <= k < objs.len() && k != m && k != j ==> unrelated(#[trigger] objs[k], node.name@),
        sink_in_object(objs[m]) == Some(node.name@),
        node.typ@ == crate::resolve::node_type(),
    ensures
        default_sink_name(objs) == Some(node.name@),
        node_named(objs, node.name@) == Some(node),
        resolution(objs) matches Ok(sink) ==> sink.node_id == node.id,
    decreases objs.len(),
{
    assert(m != j);
    if m > 0 && j > 0 {
        assert forall|k: int|
            0 <= k < objs.drop_first().len() && k != m - 1 && k != j - 1 implies unrelated(
            #[trigger] objs.drop_first()[k],
            node.name@,
        ) by {
            assert(objs.drop_first()[k] == objs[k + 1]);
        }
        law_single_sink_found(objs.drop_first(), m - 1, j - 1, node);
    } else if m == 0 {
        assert forall|k: int| 0 <= k < objs.drop_first().len() && k != j - 1 implies unrelated(
            #[trigger] objs.drop_first()[k],
            node.name@,
        ) by {
            assert(objs.drop_first()[k] == objs[k + 1]);
        }
        lemma_nodes_after(objs.drop_first(), j - 1, node);
    } else {
        assert forall|k: int| 0 <= k < objs.drop_first().len() && k != m - 1 implies unrelated(
            #[trigger] objs.drop_first()[k],
            node.name@,
        ) by {
            assert(objs.drop_first()[k] == objs[k + 1]);
        }
        lemma_sink_after(objs.drop_first(), m - 1, node.name@);
    }
}

proof fn lemma_nodes_after(objs: Seq<DumpObject>, j: int, node: NodeObject)
    requires
        0 <= j < objs.len(),
        objs[j] == DumpObject::Node(node),
        forall|k: int| 0 <= k < objs.len() && k != j ==> unrelated(#[trigger] objs[k], node.name@),
        node.typ@ == crate::resolve::node_type(),
    ensures
        node_named(objs, node.name@) == Some(node),
    decreases objs.len(),
{
    if j > 0 {
        assert forall|k: int| 0 <= k < objs.drop_first().len() && k != j - 1 implies unrelated(
            #[trigger] objs.drop_first()[k],
            node.name@,
        ) by {
            assert(objs.drop_first()[k] == objs[k + 1]);
        }
        lemma_nodes_after(objs.drop_first(), j - 1, node);
    }
}

proof fn lemma_sink_after(objs: Seq<DumpObject>, m: int, name: Seq<char>)
    requires
        0 <= m < objs.len(),
        forall|k: int| 0 <= k < objs.len() && k != m ==> unrelated(#[trigger] objs[k], name),
        sink_in_object(objs[m]) == Some(name),
    ensures
        default_sink_name(objs) == Some(name),
    decreases objs.len(),
{
    if m > 0 {
        assert forall|k: int| 0 <= k < objs.drop_first().len() && k != m - 1 implies unrelated(
            #[trigger] objs.drop_first()[k],
            name,
        ) by {
            assert(objs.drop_first()[k] == objs[k + 1]);
        }
        lemma_sink_after(objs.drop_first(), m - 1, name);
    }
}

/// Whether an object is a metadata object with an entry keyed by the
/// default-sink key.
pub open spec fn names_default_sink(o: DumpObject) -> bool {
    match o {
        DumpObject::Metadata(md) => exists|j: int|
            0 <= j < md.metadata@.len() && #[trigger] md.metadata@[j].key@ == default_sink_key(),
        _ => false,
    }
}

proof fn lemma_no_key_in_entries(es: Seq<MetadataEntry>)
    requires
        forall|j: int| 0 <= j < es.len() ==> #[trigger] es[j].key@ != default_sink_key(),
    ensures
        sink_in_entries(es) is None,
    decreases es.len(),
{
    if es.len() > 0 {
        assert forall|j: int| 0 <= j < es.drop_first().len() implies #[trigger] es.drop_first()[
            j
        ].key@ != default_sink_key() by {
            assert(es.drop_first()[j] == es[j + 1]);
        }
        lemma_no_key_in_entries(es.drop_first());
    }
}

/// A dump in which no metadata entry is keyed `default.audio.sink` fails to
/// resolve with `NoDefaultSink`.
pub proof fn law_no_default_sink(objs: Seq<DumpObject>)
    requires
        forall|i: int| 0 <= i < objs.len() ==> !names_default_sink(#[trigger] objs[i]),
    ensures
        resolution(objs) == Err::<SinkView, ResolveErrorView>(ResolveErrorView::NoDefaultSink),
    decreases objs.len(),
{
    if objs.len() > 0 {
        if let DumpObject::Metadata(md) = objs[0] {
            assert(!names_default_sink(objs[0]));
            lemma_no_key_in_entries(md.metadata@);
        }
        assert(sink_in_object(objs[0]) is None);
        assert forall|i: int| 0 <= i < objs.drop_first().len() implies !names_default_sink(
            #[trigger] objs.drop_first()[i],
        ) by {
            assert(objs.drop_first()[i] == objs[i + 1]);
        }
        law_no_default_sink(objs.drop_first());
    }
}

/// A sink whose volume range has `min == max` fails to resolve with
/// `InvalidVolumeRange`.
pub proof fn law_flat_range_rejected(
    objs: Seq<DumpObject>,
    name: Seq<char>,
    node: NodeObject,
    range: VolumeRange,
)
    requires
        default_sink_name(objs) == Some(name),
        node_named(objs, name) == Some(node),
        volume_range_of(node.prop_info@) == Some(range),
        range.min == range.max,
    ensures
        resolution(objs) == Err::<SinkView, ResolveErrorView>(
            ResolveErrorView::InvalidVolumeRange(range.min, range.max),
        ),
{
}

/// A change by a positive percentage never lowers a channel within the range,
/// and a change by a negative one never raises it.
pub proof fn law_change_monotonic(range: VolumeRange, state: VolumeStateView, p: i64)
    requires
        range.min <= range.max,
        forall|i: int|
            0 <= i < state.channel_volumes.len() ==> range.min <= #[trigger] state.channel_volumes[i]
                <= range.max,
    ensures
        payload_for(range, state, Action::ChangeBy(p)).channel_volumes matches Some(v) && v.len()
            == state.channel_volumes.len() && forall|i: int|
            0 <= i < v.len() ==> (p > 0 ==> v[i] >= state.channel_volumes[i]) && (p < 0 ==> v[i]
                <= state.channel_volumes[i]),
{
    let v = payload_for(range, state, Action::ChangeBy(p)).channel_volumes.unwrap();
    assert forall|i: int| 0 <= i < v.len() implies (p > 0 ==> v[i] >= state.channel_volumes[i])
        && (p < 0 ==> v[i] <= state.channel_volumes[i]) by {
        lemma_increment_sign(p as int, range);
    }
}

proof fn lemma_increment_sign(p: int, range: VolumeRange)
    requires
        range.min <= range.max,
    ensures
        p > 0 ==> crate::volume::increment(p, range) >= 0,
        p < 0 ==> crate::volume::increment(p, range) <= 0,
{
    let span = range.max - range.min;
    if p > 0 {
        assert(p * span >= 0) by (nonlinear_arith)
            requires
                p > 0,
                span >= 0,
        ;
    } else if p < 0 {
        assert(p * span <= 0) by (nonlinear_arith)
            requires
                p < 0,
                span >= 0,
        ;
    }
}

/// A change up from the maximum stays at the maximum, and a change down from
/// the minimum stays at the minimum.
pub proof fn law_change_clamps_at_bounds(range: VolumeRange, p: i64)
    requires
        range.min <= range.max,
    ensures
        p > 0 ==> changed_level(range.max as int, p as int, range) == range.max,
        p < 0 ==> changed_level(range.min as int, p as int, range) == range.min,
{
    lemma_increment_sign(p as int, range);
}

/// Toggling mute twice gives back the mute state one started from.
pub proof fn law_toggle_twice(range: VolumeRange, state: VolumeStateView)
    ensures
        payload_for(
            range,
            VolumeStateView { mute: payload_for(range, state, Action::MuteToggle).mute, ..state },
            Action::MuteToggle,
        ).mute == state.mute,
{
}

/// Muting sets neither a volume nor channel volumes, so neither is encoded.
pub proof fn law_mute_on_sets_no_volume(range: VolumeRange, state: VolumeStateView)
    ensures
        payload_for(range, state, Action::MuteOn).volume is None,
        payload_for(range, state, Action::MuteOn).channel_volumes is None,
{
}

} // verus!
