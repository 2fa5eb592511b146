//! Finding the default sink's node, range and live state in a dump.
use vstd::prelude::*;
use crate::dump::{DumpObject, MetadataEntry, NodeObject, Prop, PropInfo};
use crate::text::text_is;
use crate::volume::{VolumeRange, VolumeState, VolumeStateView};

verus! {

/// The interface type of a metadata object.
pub open spec fn metadata_type() -> Seq<char> {
    "PipeWire:Interface:Metadata"@
}

/// The interface type of a node.
pub open spec fn node_type() -> Seq<char> {
    "PipeWire:Interface:Node"@
}

/// The metadata key that names the default sink.
pub open spec fn default_sink_key() -> Seq<char> {
    "default.audio.sink"@
}

/// The id of the range descriptor of channel volumes.
pub open spec fn channel_volumes_id() -> Seq<char> {
    "channelVolumes"@
}

/// The sink name of the first entry keyed by the default-sink key.
pub open spec fn sink_in_entries(es: Seq<MetadataEntry>) -> Option<Seq<char>>
    decreases es.len(),
{
    if es.len() == 0 {
        None
    } else if es[0].key@ == default_sink_key() {
        Some(es[0].value_name@)
    } else {
        sink_in_entries(es.drop_first())
    }
}

/// The sink name that one object contributes, if any.
pub open spec fn sink_in_object(o: DumpObject) -> Option<Seq<char>> {
    match o {
        DumpObject::Metadata(md) => if md.typ@ == metadata_type() {
            sink_in_entries(md.metadata@)
        } else {
            None
        },
        _ => None,
    }
}

/// The default sink's name: the first one over the metadata objects, in order.
pub open spec fn default_sink_name(objs: Seq<DumpObject>) -> Option<Seq<char>>
    decreases objs.len(),
{
    if objs.len() == 0 {
        None
    } else if sink_in_object(objs[0]) is Some {
        sink_in_object(objs[0])
    } else {
        default_sink_name(objs.drop_first())
    }
}

/// Whether `o` is a node named `name`.
pub open spec fn is_node_named(o: DumpObject, name: Seq<char>) -> bool {
    match o {
        DumpObject::Node(n) => n.typ@ == node_type() && n.name@ == name,
        _ => false,
    }
}

/// The first node named `name`.
pub open spec fn node_named(objs: Seq<DumpObject>, name: Seq<char>) -> Option<NodeObject>
    decreases objs.len(),
{
    if objs.len() == 0 {
        None
    } else if is_node_named(objs[0], name) {
        match objs[0] {
            DumpObject::Node(n) => Some(n),
            _ => None,
        }
    } else {
        node_named(objs.drop_first(), name)
    }
}

/// The range of the first descriptor with the channel-volumes id.
pub open spec fn volume_range_of(infos: Seq<PropInfo>) -> Option<VolumeRange>
    decreases infos.len(),
{
    if infos.len() == 0 {
        None
    } else {
        match infos[0] {
            PropInfo::Volume { id, range } => if id@ == channel_volumes_id() {
                Some(range)
            } else {
                volume_range_of(infos.drop_first())
            },
            _ => volume_range_of(infos.drop_first()),
        }
    }
}

/// The first volume state among a node's live properties.
pub open spec fn volume_state_of(props: Seq<Prop>) -> Option<VolumeStateView>
    decreases props.len(),
{
    if props.len() == 0 {
        None
    } else {
        match props[0] {
            Prop::Volume(s) => Some(s@),
            _ => volume_state_of(props.drop_first()),
        }
    }
}

/// Why a dump names no usable sink.
#[derive(Debug)]
pub enum ResolveError {
    NoDefaultSink,
    /// No node carries the default sink's name.
    SinkNodeNotFound(String),
    /// The node (by id) has no range descriptor for its channel volumes.
    NoVolumeRange(i64),
    /// The range `(min, max)` has no positive span.
    InvalidVolumeRange(i64, i64),
    /// The node (by id) has no live volume state.
    NoVolumeState(i64),
    NoChannels,
}

pub enum ResolveErrorView {
    NoDefaultSink,
    SinkNodeNotFound(Seq<char>),
    NoVolumeRange(i64),
    InvalidVolumeRange(i64, i64),
    NoVolumeState(i64),
    NoChannels,
}

impl View for ResolveError {
    type V = ResolveErrorView;

    open spec fn view(&self) -> ResolveErrorView {
        match self {
            ResolveError::NoDefaultSink => ResolveErrorView::NoDefaultSink,
            ResolveError::SinkNodeNotFound(n) => ResolveErrorView::SinkNodeNotFound(n@),
            ResolveError::NoVolumeRange(id) => ResolveErrorView::NoVolumeRange(*id),
            ResolveError::InvalidVolumeRange(lo, hi) => ResolveErrorView::InvalidVolumeRange(
                *lo,
                *hi,
            ),
            ResolveError::NoVolumeState(id) => ResolveErrorView::NoVolumeState(*id),
            ResolveError::NoChannels => ResolveErrorView::NoChannels,
        }
    }
}

/// The default sink as found in a dump.
pub struct Sink {
    pub node_id: i64,
    pub name: String,
    pub range: VolumeRange,
    pub state: VolumeState,
}

pub struct SinkView {
    pub node_id: i64,
    pub name: Seq<char>,
    pub range: VolumeRange,
    pub state: VolumeStateView,
}

impl View for Sink {
    type V = SinkView;

    open spec fn view(&self) -> SinkView {
        SinkView { node_id: self.node_id, name: self.name@, range: self.range, state: self.state@ }
    }
}

impl Sink {
    /// A found sink has a range of positive span and at least one channel.
    pub open spec fn wf(&self) -> bool {
        self.range.min < self.range.max && self.state.channel_volumes@.len() > 0
    }
}

/// What resolving a dump gives: the steps in order, the first failure winning.
pub open spec fn resolution(objs: Seq<DumpObject>) -> Result<SinkView, ResolveErrorView> {
    match default_sink_name(objs) {
        None => Err(ResolveErrorView::NoDefaultSink),
        Some(name) => match node_named(objs, name) {
            None => Err(ResolveErrorView::SinkNodeNotFound(name)),
            Some(node) => match volume_range_of(node.prop_info@) {
                None => Err(ResolveErrorView::NoVolumeRange(node.id)),
                Some(range) => if range.max - range.min <= 0 {
                    Err(ResolveErrorView::InvalidVolumeRange(range.min, range.max))
                } else {
                    match volume_state_of(node.props@) {
                        None => Err(ResolveErrorView::NoVolumeState(node.id)),
                        Some(state) => if state.channel_volumes.len() == 0 {
                            Err(ResolveErrorView::NoChannels)
                        } else {
                            Ok(SinkView { node_id: node.id, name: node.name@, range, state })
                        },
                    }
                },
            },
        },
    }
}

proof fn lemma_suffix_step<A>(s: Seq<A>, i: int)
    requires
        0 <= i < s.len(),
    ensures
        s.subrange(i, s.len() as int).drop_first() == s.subrange(i + 1, s.len() as int),
        s.subrange(i, s.len() as int)[0] == s[i],
{
    assert(s.subrange(i, s.len() as int).drop_first() =~= s.subrange(i + 1, s.len() as int));
}

proof fn lemma_whole<A>(s: Seq<A>)
    ensures
        s.subrange(0, s.len() as int) == s,
{
    assert(s.subrange(0, s.len() as int) =~= s);
}

fn find_sink_in_entries(es: &Vec<MetadataEntry>) -> (r: Option<&String>)
    ensures
        match r {
            Some(n) => sink_in_entries(es@) == Some(n@),
            None => sink_in_entries(es@) is None,
        },
{
    let mut i: usize = 0;
    proof {
        lemma_whole(es@);
    }
    while i < es.len()
        invariant
            i <= es@.len(),
            sink_in_entries(es@) == sink_in_entries(es@.subrange(i as int, es@.len() as int)),
        decreases es@.len() - i,
    {
        proof {
            lemma_suffix_step(es@, i as int);
        }
        if text_is(&es[i].key, "default.audio.sink") {
            return Some(&es[i].value_name);
        }
        i = i + 1;
    }
    None
}

/// The name of the default sink: the first entry keyed `default.audio.sink`
/// over the metadata objects, in order.
pub fn find_default_sink(objs: &Vec<DumpObject>) -> (r: Option<&String>)
    ensures
        match r {
            Some(n) => default_sink_name(objs@) == Some(n@),
            None => default_sink_name(objs@) is None,
        },
{
    let mut i: usize = 0;
    proof {
        lemma_whole(objs@);
    }
    while i < objs.len()
        invariant
            i <= objs@.len(),
            default_sink_name(objs@) == default_sink_name(
                objs@.subrange(i as int, objs@.len() as int),
            ),
        decreases objs@.len() - i,
    {
        proof {
            lemma_suffix_step(objs@, i as int);
        }
        match &objs[i] {
            DumpObject::Metadata(md) => {
                if text_is(&md.typ, "PipeWire:Interface:Metadata") {
                    match find_sink_in_entries(&md.metadata) {
                        Some(n) => {
                            return Some(n);
                        },
                        None => {},
                    }
                }
            },
            _ => {},
        }
        i = i + 1;
    }
    None
}

/// The first node named `name`.
pub fn find_node<'a>(objs: &'a Vec<DumpObject>, name: &String) -> (r: Option<&'a NodeObject>)
    ensures
        match r {
            Some(n) => node_named(objs@, name@) == Some(*n),
            None => node_named(objs@, name@) is None,
        },
{
    let mut i: usize = 0;
    proof {
        lemma_whole(objs@);
    }
    while i < objs.len()
        invariant
            i <= objs@.len(),
            node_named(objs@, name@) == node_named(
                objs@.subrange(i as int, objs@.len() as int),
                name@,
            ),
        decreases objs@.len() - i,
    {
        proof {
            lemma_suffix_step(objs@, i as int);
        }
        match &objs[i] {
            DumpObject::Node(n) => {
                if text_is(&n.typ, "PipeWire:Interface:Node") && n.name.eq(name) {
                    return Some(n);
                }
            },
            _ => {},
        }
        i = i + 1;
    }
    None
}

/// The range of the first descriptor with the channel-volumes id.
pub fn find_volume_range(infos: &Vec<PropInfo>) -> (r: Option<VolumeRange>)
    ensures
        r == volume_range_of(infos@),
{
    let mut i: usize = 0;
    proof {
        lemma_whole(infos@);
    }
    while i < infos.len()
        invariant
            i <= infos@.len(),
            volume_range_of(infos@) == volume_range_of(
                infos@.subrange(i as int, infos@.len() as int),
            ),
        decreases infos@.len() - i,
    {
        proof {
            lemma_suffix_step(infos@, i as int);
        }
        match &infos[i] {
            PropInfo::Volume { id, range } => {
                if text_is(id, "channelVolumes") {
                    return Some(*range);
                }
            },
            _ => {},
        }
        i = i + 1;
    }
    None
}

/// The first volume state among a node's live properties.
pub fn find_volume_state(props: &Vec<Prop>) -> (r: Option<&VolumeState>)
    ensures
        match r {
            Some(s) => volume_state_of(props@) == Some(s@),
            None => volume_state_of(props@) is None,
        },
{
    let mut i: usize = 0;
    proof {
        lemma_whole(props@);
    }
    while i < props.len()
        invariant
            i <= props@.len(),
            volume_state_of(props@) == volume_state_of(
                props@.subrange(i as int, props@.len() as int),
            ),
        decreases props@.len() - i,
    {
        proof {
            lemma_suffix_step(props@, i as int);
        }
        match &props[i] {
            Prop::Volume(s) => {
                return Some(s);
            },
            _ => {},
        }
        i = i + 1;
    }
    None
}

/// Finds the default sink's node, its volume range and its live volume state.
pub fn resolve(objs: &Vec<DumpObject>) -> (r: Result<Sink, ResolveError>)
    ensures
        match r {
            Ok(sink) => resolution(objs@) == Ok::<SinkView, ResolveErrorView>(sink@) && sink.wf(),
            Err(e) => resolution(objs@) == Err::<SinkView, ResolveErrorView>(e@),
        },
{
    let name = match find_default_sink(objs) {
        Some(n) => n,
        None => {
            return Err(ResolveError::NoDefaultSink);
        },
    };
    let node = match find_node(objs, name) {
        Some(n) => n,
        None => {
            return Err(ResolveError::SinkNodeNotFound(name.clone()));
        },
    };
    let range = match find_volume_range(&node.prop_info) {
        Some(r) => r,
        None => {
            return Err(ResolveError::NoVolumeRange(node.id));
        },
    };
    if range.max <= range.min {
        return Err(ResolveError::InvalidVolumeRange(range.min, range.max));
    }
    let state = match find_volume_state(&node.props) {
        Some(s) => s,
        None => {
            return Err(ResolveError::NoVolumeState(node.id));
        },
    };
    if state.channel_volumes.len() == 0 {
        return Err(ResolveError::NoChannels);
    }
    Ok(Sink { node_id: node.id, name: node.name.clone(), range, state: state.duplicate() })
}

} // verus!
