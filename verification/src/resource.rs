//! The in-memory resource graph: a `Resource` owns ordered `Knob`s, each
//! knob owns ordered `KnobLayer`s, and each layer owns ordered
//! `BasicNode`s.  Edges between nodes are name-based weak references,
//! resolved only by string equality when constraints are generated.
//!
//! Cost, quality, and the budget are carried as their decimal text, the
//! form in which they appear in the emitted LP document; the model
//! builder never computes with them.

use vstd::prelude::*;

verus! {

/// A leaf alternative: one selectable implementation point.  `edges`
/// holds the names of the basic nodes this node depends on.
pub struct BasicNode {
    pub name: String,
    pub cost: String,
    pub quality: String,
    pub edges: Vec<String>,
}

/// A grouping of alternative nodes within a knob.
pub struct KnobLayer {
    pub basic_nodes: Vec<BasicNode>,
}

/// A mutually-exclusive selection point, split into ordered layers.
pub struct Knob {
    pub knob_name: String,
    pub layers: Vec<KnobLayer>,
}

/// The whole configurable unit: an ordered sequence of knobs.
pub struct Resource {
    pub knobs: Vec<Knob>,
}

/// Mathematical view of a `BasicNode`: every text as a `Seq<char>`.
pub struct BasicNodeView {
    pub name: Seq<char>,
    pub cost: Seq<char>,
    pub quality: Seq<char>,
    pub edges: Seq<Seq<char>>,
}

/// Mathematical view of a `KnobLayer`.
pub struct KnobLayerView {
    pub basic_nodes: Seq<BasicNodeView>,
}

/// Mathematical view of a `Knob`.
pub struct KnobView {
    pub knob_name: Seq<char>,
    pub layers: Seq<KnobLayerView>,
}

/// Mathematical view of a `Resource`.
pub struct ResourceView {
    pub knobs: Seq<KnobView>,
}

/// The views of a sequence of strings.
pub open spec fn texts_of(ss: Seq<String>) -> Seq<Seq<char>> {
    ss.map_values(|s: String| s@)
}

impl View for BasicNode {
    type V = BasicNodeView;

    open spec fn view(&self) -> BasicNodeView {
        BasicNodeView {
            name: self.name@,
            cost: self.cost@,
            quality: self.quality@,
            edges: texts_of(self.edges@),
        }
    }
}

impl View for KnobLayer {
    type V = KnobLayerView;

    open spec fn view(&self) -> KnobLayerView {
        KnobLayerView { basic_nodes: self.basic_nodes@.map_values(|n: BasicNode| n@) }
    }
}

impl View for Knob {
    type V = KnobView;

    open spec fn view(&self) -> KnobView {
        KnobView {
            knob_name: self.knob_name@,
            layers: self.layers@.map_values(|l: KnobLayer| l@),
        }
    }
}

impl View for Resource {
    type V = ResourceView;

    open spec fn view(&self) -> ResourceView {
        ResourceView { knobs: self.knobs@.map_values(|k: Knob| k@) }
    }
}

/// All basic nodes of a sequence of layers, flattened in layer order.
pub open spec fn layers_nodes(layers: Seq<KnobLayerView>) -> Seq<BasicNodeView>
    decreases layers.len(),
{
    if layers.len() == 0 {
        Seq::empty()
    } else {
        layers_nodes(layers.drop_last()) + layers.last().basic_nodes
    }
}

/// All basic nodes of one knob, flattened across its layers.
pub open spec fn knob_nodes(k: KnobView) -> Seq<BasicNodeView> {
    layers_nodes(k.layers)
}

/// All basic nodes of a sequence of knobs, flattened in knob order.
pub open spec fn knobs_nodes(knobs: Seq<KnobView>) -> Seq<BasicNodeView>
    decreases knobs.len(),
{
    if knobs.len() == 0 {
        Seq::empty()
    } else {
        knobs_nodes(knobs.drop_last()) + knob_nodes(knobs.last())
    }
}

/// The traversal order of the whole resource: knobs in order, within
/// each knob its layers in order, within each layer its nodes in order.
pub open spec fn flat_nodes(r: ResourceView) -> Seq<BasicNodeView> {
    knobs_nodes(r.knobs)
}

/// The number of basic nodes across a sequence of layers.
pub open spec fn layers_node_count(layers: Seq<KnobLayerView>) -> nat
    decreases layers.len(),
{
    if layers.len() == 0 {
        0
    } else {
        layers_node_count(layers.drop_last()) + layers.last().basic_nodes.len()
    }
}

/// The number of basic nodes across a sequence of knobs.
pub open spec fn knobs_node_count(knobs: Seq<KnobView>) -> nat
    decreases knobs.len(),
{
    if knobs.len() == 0 {
        0
    } else {
        knobs_node_count(knobs.drop_last()) + layers_node_count(knobs.last().layers)
    }
}

/// The total number of basic nodes in a resource.
pub open spec fn node_count(r: ResourceView) -> nat {
    knobs_node_count(r.knobs)
}

/// Taking one more layer extends the flattened node sequence by exactly
/// that layer's nodes.
pub proof fn lemma_layers_nodes_take_step(layers: Seq<KnobLayerView>, j: int)
    requires
        0 <= j < layers.len(),
    ensures
        layers_nodes(layers.take(j + 1)) == layers_nodes(layers.take(j)) + layers[j].basic_nodes,
{
    assert(layers.take(j + 1).drop_last() =~= layers.take(j));
    assert(layers.take(j + 1).last() == layers[j]);
}

/// Taking one more knob extends the flattened node sequence by exactly
/// that knob's nodes.
pub proof fn lemma_knobs_nodes_take_step(knobs: Seq<KnobView>, i: int)
    requires
        0 <= i < knobs.len(),
    ensures
        knobs_nodes(knobs.take(i + 1)) == knobs_nodes(knobs.take(i)) + knob_nodes(knobs[i]),
{
    assert(knobs.take(i + 1).drop_last() =~= knobs.take(i));
    assert(knobs.take(i + 1).last() == knobs[i]);
}

/// The flattened node sequence of a layer sequence has exactly as many
/// entries as the layers hold nodes.
pub proof fn lemma_layers_nodes_len(layers: Seq<KnobLayerView>)
    ensures
        layers_nodes(layers).len() == layers_node_count(layers),
    decreases layers.len(),
{
    if layers.len() > 0 {
        lemma_layers_nodes_len(layers.drop_last());
    }
}

/// The traversal order visits every basic node of the resource exactly
/// once: its length is the total node count.
pub proof fn lemma_flat_nodes_len(knobs: Seq<KnobView>)
    ensures
        knobs_nodes(knobs).len() == knobs_node_count(knobs),
    decreases knobs.len(),
{
    if knobs.len() > 0 {
        lemma_flat_nodes_len(knobs.drop_last());
        lemma_layers_nodes_len(knobs.last().layers);
    }
}

} // verus!
