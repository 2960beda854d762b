//! The model builder: a pure transformation from a resource graph and a
//! budget to the text of a 0/1 integer linear program.
//!
//! The document has four sections in fixed order: a `Maximize` objective
//! summing each node's quality, a `Subject To` section with the budget
//! constraint, one selection constraint per knob, and one dependency
//! constraint per (node, edge) pair, a `Binary` section declaring every
//! node's variable, and a terminating `End` marker.  `model_text` below
//! is the mathematical statement of the whole document; `build_model`
//! is proved to return exactly that text.

use vstd::prelude::*;

use crate::resource::{
    texts_of, flat_nodes, knob_nodes, knobs_nodes, layers_nodes, node_count,
    lemma_flat_nodes_len, lemma_knobs_nodes_take_step, lemma_layers_nodes_take_step,
    BasicNode, BasicNodeView, Knob, KnobLayer, KnobView, Resource, ResourceView,
};

verus! {

/// Which text a basic node contributes to a section: its quality and
/// name (objective), its cost and name (budget constraint), or its name
/// alone (selection constraints and binary declarations).
#[derive(Clone, Copy)]
pub enum TermKind {
    Quality,
    Cost,
    Name,
}

/// The term one basic node contributes to a section of the given kind.
pub open spec fn term_of(kind: TermKind, n: BasicNodeView) -> Seq<char> {
    match kind {
        TermKind::Quality => n.quality + " "@ + n.name,
        TermKind::Cost => n.cost + " "@ + n.name,
        TermKind::Name => n.name,
    }
}

/// The terms a sequence of basic nodes contributes, in order.
pub open spec fn section_terms(kind: TermKind, nodes: Seq<BasicNodeView>) -> Seq<Seq<char>> {
    nodes.map_values(|n: BasicNodeView| term_of(kind, n))
}

/// `parts` joined with `sep` between consecutive parts.
pub open spec fn join(parts: Seq<Seq<char>>, sep: Seq<char>) -> Seq<char>
    decreases parts.len(),
{
    if parts.len() == 0 {
        Seq::empty()
    } else if parts.len() == 1 {
        parts[0]
    } else {
        join(parts.drop_last(), sep) + sep + parts.last()
    }
}

/// The selection constraint of one knob: its node names, flattened
/// across all layers, summed and forced to equal one.
pub open spec fn knob_line(k: KnobView) -> Seq<char> {
    k.knob_name + ".Select: "@ + join(section_terms(TermKind::Name, knob_nodes(k)), " + "@)
        + " = 1"@
}

/// The selection constraints of a sequence of knobs, in order.
pub open spec fn knob_lines(knobs: Seq<KnobView>) -> Seq<Seq<char>> {
    knobs.map_values(|k: KnobView| knob_line(k))
}

/// The dependency constraint for one (edge, node) pair: the dependent
/// `node` may be selected only if its prerequisite `edge` is.
pub open spec fn edge_line(edge: Seq<char>, node: Seq<char>) -> Seq<char> {
    edge + "."@ + node + ": "@ + node + " - "@ + edge + " <= 0"@
}

/// The dependency constraints one node contributes: one line per
/// declared edge, in declaration order, naming that node as the sink.
pub open spec fn node_edge_lines(n: BasicNodeView) -> Seq<Seq<char>> {
    n.edges.map_values(|e: Seq<char>| edge_line(e, n.name))
}

/// The dependency constraints of a sequence of nodes, in order.
pub open spec fn edge_lines(nodes: Seq<BasicNodeView>) -> Seq<Seq<char>>
    decreases nodes.len(),
{
    if nodes.len() == 0 {
        Seq::empty()
    } else {
        edge_lines(nodes.drop_last()) + node_edge_lines(nodes.last())
    }
}

/// The complete LP document for a resource and a budget.
pub open spec fn model_text(r: ResourceView, budget: Seq<char>) -> Seq<char> {
    "Maximize\n\t"@ + join(section_terms(TermKind::Quality, flat_nodes(r)), " + "@)
        + "\nSubject To\n\tcost: "@ + join(section_terms(TermKind::Cost, flat_nodes(r)), " + "@)
        + " <= "@ + budget + "\n\t"@ + join(knob_lines(r.knobs), "\n\t"@) + "\n\t"@
        + join(edge_lines(flat_nodes(r)), "\n\t"@) + "\nBinary\n\t"@
        + join(section_terms(TermKind::Name, flat_nodes(r)), " "@) + "\nEnd"@
}

/// The number of dependency edges declared across a sequence of nodes.
pub open spec fn edge_count(nodes: Seq<BasicNodeView>) -> nat
    decreases nodes.len(),
{
    if nodes.len() == 0 {
        0
    } else {
        edge_count(nodes.drop_last()) + nodes.last().edges.len()
    }
}

/// A resource with zero knobs yields the contentless but still
/// well-formed document: an empty objective, an empty budget sum, no
/// selection lines, no edge lines, and an empty binary section.
pub proof fn lemma_empty_resource_model(r: ResourceView, budget: Seq<char>)
    requires
        r.knobs.len() == 0,
    ensures
        model_text(r, budget) == "Maximize\n\t\nSubject To\n\tcost:  <= "@ + budget
            + "\n\t\n\t\nBinary\n\t\nEnd"@,
{
    reveal_strlit("Maximize\n\t");
    reveal_strlit("\nSubject To\n\tcost: ");
    reveal_strlit(" <= ");
    reveal_strlit("\n\t");
    reveal_strlit("\nBinary\n\t");
    reveal_strlit("\nEnd");
    reveal_strlit("Maximize\n\t\nSubject To\n\tcost:  <= ");
    reveal_strlit("\n\t\n\t\nBinary\n\t\nEnd");
    assert(flat_nodes(r) =~= Seq::<BasicNodeView>::empty());
    assert(section_terms(TermKind::Quality, flat_nodes(r)).len() == 0);
    assert(section_terms(TermKind::Cost, flat_nodes(r)).len() == 0);
    assert(section_terms(TermKind::Name, flat_nodes(r)).len() == 0);
    assert(knob_lines(r.knobs).len() == 0);
    assert(model_text(r, budget) =~= "Maximize\n\t\nSubject To\n\tcost:  <= "@ + budget
        + "\n\t\n\t\nBinary\n\t\nEnd"@);
}

/// The objective has exactly one term per basic node of the resource,
/// whatever the knob and layer structure.
pub proof fn lemma_objective_term_count(r: ResourceView)
    ensures
        section_terms(TermKind::Quality, flat_nodes(r)).len() == node_count(r),
{
    lemma_flat_nodes_len(r.knobs);
}

/// Each knob's selection line lists exactly the names of that knob's
/// nodes — flattened across its layers, each exactly once, in order —
/// and its right-hand side is always `1`.
pub proof fn lemma_knob_selection_line(knobs: Seq<KnobView>, i: int)
    requires
        0 <= i < knobs.len(),
    ensures
        knob_lines(knobs)[i] == knobs[i].knob_name + ".Select: "@ + join(
            section_terms(TermKind::Name, knob_nodes(knobs[i])),
            " + "@,
        ) + " = 1"@,
        section_terms(TermKind::Name, knob_nodes(knobs[i])).len() == knob_nodes(knobs[i]).len(),
        forall|j: int|
            0 <= j < knob_nodes(knobs[i]).len() ==> section_terms(
                TermKind::Name,
                knob_nodes(knobs[i]),
            )[j] == knob_nodes(knobs[i])[j].name,
        knob_lines(knobs)[i].skip(knob_lines(knobs)[i].len() - 4) == " = 1"@,
{
    reveal_strlit(" = 1");
    let line = knob_lines(knobs)[i];
    assert(line == knob_line(knobs[i]));
    assert(line.skip(line.len() - 4) =~= " = 1"@);
}

/// A node with `k` declared edges contributes exactly `k` dependency
/// constraint lines, the `j`-th for its `j`-th edge, each naming the
/// node itself as the dependent sink term.
pub proof fn lemma_node_edge_lines(n: BasicNodeView)
    ensures
        node_edge_lines(n).len() == n.edges.len(),
        forall|j: int|
            0 <= j < n.edges.len() ==> node_edge_lines(n)[j] == edge_line(n.edges[j], n.name),
{
}

/// The document holds exactly one dependency line per (node, edge)
/// pair: no deduplication and no combination of edges.
pub proof fn lemma_edge_line_count(nodes: Seq<BasicNodeView>)
    ensures
        edge_lines(nodes).len() == edge_count(nodes),
    decreases nodes.len(),
{
    if nodes.len() > 0 {
        lemma_edge_line_count(nodes.drop_last());
        lemma_node_edge_lines(nodes.last());
    }
}

/// Determinism: the document is a function of the graph and budget
/// alone, so two `build_model` invocations on identical inputs yield
/// byte-identical text.
pub proof fn lemma_model_deterministic(
    r1: ResourceView,
    b1: Seq<char>,
    r2: ResourceView,
    b2: Seq<char>,
)
    requires
        r1 == r2,
        b1 == b2,
    ensures
        model_text(r1, b1) == model_text(r2, b2),
{
}

/// Taking one more element of any sequence appends exactly that element.
proof fn lemma_take_succ<A>(s: Seq<A>, i: int)
    requires
        0 <= i < s.len(),
    ensures
        s.take(i + 1) == s.take(i).push(s[i]),
{
    assert(s.take(i + 1) =~= s.take(i).push(s[i]));
}

proof fn lemma_texts_of_push(ss: Seq<String>, s: String)
    ensures
        texts_of(ss.push(s)) == texts_of(ss).push(s@),
{
    assert(texts_of(ss.push(s)) =~= texts_of(ss).push(s@));
}

proof fn lemma_section_terms_push(kind: TermKind, nodes: Seq<BasicNodeView>, n: BasicNodeView)
    ensures
        section_terms(kind, nodes.push(n)) == section_terms(kind, nodes).push(term_of(kind, n)),
{
    assert(section_terms(kind, nodes.push(n)) =~= section_terms(kind, nodes).push(
        term_of(kind, n),
    ));
}

proof fn lemma_section_terms_add(kind: TermKind, a: Seq<BasicNodeView>, b: Seq<BasicNodeView>)
    ensures
        section_terms(kind, a + b) == section_terms(kind, a) + section_terms(kind, b),
{
    assert(section_terms(kind, a + b) =~= section_terms(kind, a) + section_terms(kind, b));
}

proof fn lemma_edge_lines_add(a: Seq<BasicNodeView>, b: Seq<BasicNodeView>)
    ensures
        edge_lines(a + b) == edge_lines(a) + edge_lines(b),
    decreases b.len(),
{
    if b.len() == 0 {
        assert(a + b =~= a);
        assert(edge_lines(a) + edge_lines(b) =~= edge_lines(a));
    } else {
        lemma_edge_lines_add(a, b.drop_last());
        assert((a + b).drop_last() =~= a + b.drop_last());
        assert((a + b).last() == b.last());
        assert(
            (edge_lines(a) + edge_lines(b.drop_last())) + node_edge_lines(b.last())
            =~= edge_lines(a) + (edge_lines(b.drop_last()) + node_edge_lines(b.last()))
        );
    }
}

/// One step of joining: appending the next part adds a separator first,
/// except before the very first part.
proof fn lemma_join_step(parts: Seq<Seq<char>>, sep: Seq<char>, i: int)
    requires
        0 <= i < parts.len(),
    ensures
        join(parts.take(i + 1), sep) == if i == 0 {
            parts[0]
        } else {
            join(parts.take(i), sep) + sep + parts[i]
        },
{
    let p = parts.take(i + 1);
    if i == 0 {
        assert(p.len() == 1);
        assert(p[0] == parts[0]);
    } else {
        assert(p.drop_last() =~= parts.take(i));
        assert(p.last() == parts[i]);
    }
}

/// The term for one node, in executable form.
fn node_term(kind: TermKind, n: &BasicNode) -> (t: String)
    ensures
        t@ == term_of(kind, n@),
{
    let mut t = String::new();
    match kind {
        TermKind::Quality => {
            t.append(n.quality.as_str());
            t.append(" ");
            t.append(n.name.as_str());
        },
        TermKind::Cost => {
            t.append(n.cost.as_str());
            t.append(" ");
            t.append(n.name.as_str());
        },
        TermKind::Name => {
            t.append(n.name.as_str());
        },
    }
    proof {
        assert(t@ =~= term_of(kind, n@));
    }
    t
}

/// Appends the terms of one layer's nodes, in order.
fn push_layer_terms(kind: TermKind, layer: &KnobLayer, out: &mut Vec<String>)
    ensures
        texts_of(final(out)@) == texts_of(old(out)@) + section_terms(kind, layer@.basic_nodes),
{
    let ghost nodes = layer@.basic_nodes;
    let mut i: usize = 0;
    while i < layer.basic_nodes.len()
        invariant
            i <= layer.basic_nodes.len(),
            layer.basic_nodes@.len() == nodes.len(),
            nodes == layer@.basic_nodes,
            texts_of(out@) == texts_of(old(out)@) + section_terms(kind, nodes.take(i as int)),
        decreases layer.basic_nodes.len() - i,
    {
        let t = node_term(kind, &layer.basic_nodes[i]);
        proof {
            assert(nodes[i as int] == layer.basic_nodes@[i as int]@);
            lemma_take_succ(nodes, i as int);
            lemma_section_terms_push(kind, nodes.take(i as int), nodes[i as int]);
            lemma_texts_of_push(out@, t);
            assert(
                (texts_of(old(out)@) + section_terms(kind, nodes.take(i as int))).push(t@)
                =~= texts_of(old(out)@) + section_terms(kind, nodes.take(i as int)).push(t@)
            );
        }
        out.push(t);
        i = i + 1;
    }
    proof {
        assert(nodes.take(layer.basic_nodes@.len() as int) =~= nodes);
    }
}

/// Appends the terms of one knob's nodes, flattened across its layers.
fn push_knob_terms(kind: TermKind, knob: &Knob, out: &mut Vec<String>)
    ensures
        texts_of(final(out)@) == texts_of(old(out)@) + section_terms(kind, knob_nodes(knob@)),
{
    let ghost layers = knob@.layers;
    let mut j: usize = 0;
    while j < knob.layers.len()
        invariant
            j <= knob.layers.len(),
            knob.layers@.len() == layers.len(),
            layers == knob@.layers,
            texts_of(out@) == texts_of(old(out)@) + section_terms(
                kind,
                layers_nodes(layers.take(j as int)),
            ),
        decreases knob.layers.len() - j,
    {
        push_layer_terms(kind, &knob.layers[j], out);
        proof {
            assert(layers[j as int] == knob.layers@[j as int]@);
            lemma_layers_nodes_take_step(layers, j as int);
            lemma_section_terms_add(
                kind,
                layers_nodes(layers.take(j as int)),
                layers[j as int].basic_nodes,
            );
            assert(
                (texts_of(old(out)@) + section_terms(kind, layers_nodes(layers.take(j as int))))
                    + section_terms(kind, layers[j as int].basic_nodes)
                =~= texts_of(old(out)@) + (section_terms(kind, layers_nodes(layers.take(j as int)))
                    + section_terms(kind, layers[j as int].basic_nodes))
            );
        }
        j = j + 1;
    }
    proof {
        assert(layers.take(knob.layers@.len() as int) =~= layers);
    }
}

/// Collects the terms of every node of the resource, in traversal order.
fn resource_terms(kind: TermKind, r: &Resource) -> (out: Vec<String>)
    ensures
        texts_of(out@) == section_terms(kind, flat_nodes(r@)),
{
    let ghost knobs = r@.knobs;
    let mut out: Vec<String> = Vec::new();
    let mut i: usize = 0;
    while i < r.knobs.len()
        invariant
            i <= r.knobs.len(),
            r.knobs@.len() == knobs.len(),
            knobs == r@.knobs,
            texts_of(out@) == section_terms(kind, knobs_nodes(knobs.take(i as int))),
        decreases r.knobs.len() - i,
    {
        push_knob_terms(kind, &r.knobs[i], &mut out);
        proof {
            assert(knobs[i as int] == r.knobs@[i as int]@);
            lemma_knobs_nodes_take_step(knobs, i as int);
            lemma_section_terms_add(
                kind,
                knobs_nodes(knobs.take(i as int)),
                knob_nodes(knobs[i as int]),
            );
        }
        i = i + 1;
    }
    proof {
        assert(knobs.take(r.knobs@.len() as int) =~= knobs);
    }
    out
}

/// Joins the given parts with the separator between consecutive parts.
fn join_all(parts: &Vec<String>, sep: &str) -> (out: String)
    ensures
        out@ == join(texts_of(parts@), sep@),
{
    let mut out = String::new();
    let mut i: usize = 0;
    while i < parts.len()
        invariant
            i <= parts.len(),
            out@ == join(texts_of(parts@).take(i as int), sep@),
        decreases parts.len() - i,
    {
        if i > 0 {
            out.append(sep);
        }
        out.append(parts[i].as_str());
        proof {
            lemma_join_step(texts_of(parts@), sep@, i as int);
        }
        i = i + 1;
    }
    proof {
        assert(texts_of(parts@).take(parts@.len() as int) =~= texts_of(parts@));
    }
    out
}

/// The dependency constraint line for one (edge, node) pair, in
/// executable form.
fn edge_constraint_line(edge: &String, node_name: &String) -> (line: String)
    ensures
        line@ == edge_line(edge@, node_name@),
{
    let mut line = String::new();
    line.append(edge.as_str());
    line.append(".");
    line.append(node_name.as_str());
    line.append(": ");
    line.append(node_name.as_str());
    line.append(" - ");
    line.append(edge.as_str());
    line.append(" <= 0");
    proof {
        assert(line@ =~= edge_line(edge@, node_name@));
    }
    line
}

/// Appends one node's dependency constraint lines, one per edge.
fn push_node_edge_lines(node: &BasicNode, out: &mut Vec<String>)
    ensures
        texts_of(final(out)@) == texts_of(old(out)@) + node_edge_lines(node@),
{
    let ghost edges = node@.edges;
    let mut i: usize = 0;
    while i < node.edges.len()
        invariant
            i <= node.edges.len(),
            node.edges@.len() == edges.len(),
            edges == node@.edges,
            texts_of(out@) == texts_of(old(out)@) + edges.take(i as int).map_values(
                |e: Seq<char>| edge_line(e, node@.name),
            ),
        decreases node.edges.len() - i,
    {
        let line = edge_constraint_line(&node.edges[i], &node.name);
        proof {
            assert(edges[i as int] == node.edges@[i as int]@);
            lemma_take_succ(edges, i as int);
            assert(
                edges.take(i as int + 1).map_values(|e: Seq<char>| edge_line(e, node@.name))
                =~= edges.take(i as int).map_values(
                    |e: Seq<char>| edge_line(e, node@.name),
                ).push(edge_line(edges[i as int], node@.name))
            );
            lemma_texts_of_push(out@, line);
            assert(
                (texts_of(old(out)@) + edges.take(i as int).map_values(
                    |e: Seq<char>| edge_line(e, node@.name),
                )).push(line@)
                =~= texts_of(old(out)@) + edges.take(i as int).map_values(
                    |e: Seq<char>| edge_line(e, node@.name),
                ).push(line@)
            );
        }
        out.push(line);
        i = i + 1;
    }
    proof {
        assert(edges.take(node.edges@.len() as int) =~= edges);
        assert(edges.map_values(|e: Seq<char>| edge_line(e, node@.name))
            == node_edge_lines(node@));
    }
}

/// Appends the dependency constraint lines of one layer's nodes.
fn push_layer_edge_lines(layer: &KnobLayer, out: &mut Vec<String>)
    ensures
        texts_of(final(out)@) == texts_of(old(out)@) + edge_lines(layer@.basic_nodes),
{
    let ghost nodes = layer@.basic_nodes;
    let mut i: usize = 0;
    while i < layer.basic_nodes.len()
        invariant
            i <= layer.basic_nodes.len(),
            layer.basic_nodes@.len() == nodes.len(),
            nodes == layer@.basic_nodes,
            texts_of(out@) == texts_of(old(out)@) + edge_lines(nodes.take(i as int)),
        decreases layer.basic_nodes.len() - i,
    {
        push_node_edge_lines(&layer.basic_nodes[i], out);
        proof {
            assert(nodes[i as int] == layer.basic_nodes@[i as int]@);
            lemma_take_succ(nodes, i as int);
            lemma_edge_lines_add(
                nodes.take(i as int),
                seq![nodes[i as int]],
            );
            assert(nodes.take(i as int) + seq![nodes[i as int]] =~= nodes.take(i as int + 1));
            assert(seq![nodes[i as int]].drop_last() =~= Seq::<BasicNodeView>::empty());
            assert(edge_lines(Seq::<BasicNodeView>::empty()) == Seq::<Seq<char>>::empty());
            assert(seq![nodes[i as int]].last() == nodes[i as int]);
            assert(edge_lines(seq![nodes[i as int]])
                =~= node_edge_lines(nodes[i as int]));
            assert(
                (texts_of(old(out)@) + edge_lines(nodes.take(i as int)))
                    + node_edge_lines(nodes[i as int])
                =~= texts_of(old(out)@) + (edge_lines(nodes.take(i as int))
                    + node_edge_lines(nodes[i as int]))
            );
        }
        i = i + 1;
    }
    proof {
        assert(nodes.take(layer.basic_nodes@.len() as int) =~= nodes);
    }
}

/// Appends the dependency constraint lines of one knob's nodes.
fn push_knob_edge_lines(knob: &Knob, out: &mut Vec<String>)
    ensures
        texts_of(final(out)@) == texts_of(old(out)@) + edge_lines(knob_nodes(knob@)),
{
    let ghost layers = knob@.layers;
    let mut j: usize = 0;
    while j < knob.layers.len()
        invariant
            j <= knob.layers.len(),
            knob.layers@.len() == layers.len(),
            layers == knob@.layers,
            texts_of(out@) == texts_of(old(out)@) + edge_lines(layers_nodes(layers.take(j as int))),
        decreases knob.layers.len() - j,
    {
        push_layer_edge_lines(&knob.layers[j], out);
        proof {
            assert(layers[j as int] == knob.layers@[j as int]@);
            lemma_layers_nodes_take_step(layers, j as int);
            lemma_edge_lines_add(
                layers_nodes(layers.take(j as int)),
                layers[j as int].basic_nodes,
            );
            assert(
                (texts_of(old(out)@) + edge_lines(layers_nodes(layers.take(j as int))))
                    + edge_lines(layers[j as int].basic_nodes)
                =~= texts_of(old(out)@) + (edge_lines(layers_nodes(layers.take(j as int)))
                    + edge_lines(layers[j as int].basic_nodes))
            );
        }
        j = j + 1;
    }
    proof {
        assert(layers.take(knob.layers@.len() as int) =~= layers);
    }
}

/// Collects every dependency constraint line of the resource, in
/// traversal order.
fn resource_edge_lines(r: &Resource) -> (out: Vec<String>)
    ensures
        texts_of(out@) == edge_lines(flat_nodes(r@)),
{
    let ghost knobs = r@.knobs;
    let mut out: Vec<String> = Vec::new();
    let mut i: usize = 0;
    while i < r.knobs.len()
        invariant
            i <= r.knobs.len(),
            r.knobs@.len() == knobs.len(),
            knobs == r@.knobs,
            texts_of(out@) == edge_lines(knobs_nodes(knobs.take(i as int))),
        decreases r.knobs.len() - i,
    {
        push_knob_edge_lines(&r.knobs[i], &mut out);
        proof {
            assert(knobs[i as int] == r.knobs@[i as int]@);
            lemma_knobs_nodes_take_step(knobs, i as int);
            lemma_edge_lines_add(
                knobs_nodes(knobs.take(i as int)),
                knob_nodes(knobs[i as int]),
            );
        }
        i = i + 1;
    }
    proof {
        assert(knobs.take(r.knobs@.len() as int) =~= knobs);
    }
    out
}

/// The selection constraint line of one knob, in executable form.
fn knob_constraint_line(knob: &Knob) -> (line: String)
    ensures
        line@ == knob_line(knob@),
{
    let mut names: Vec<String> = Vec::new();
    push_knob_terms(TermKind::Name, knob, &mut names);
    proof {
        assert(texts_of(names@) =~= section_terms(TermKind::Name, knob_nodes(knob@)));
    }
    let joined = join_all(&names, " + ");
    let mut line = String::new();
    line.append(knob.knob_name.as_str());
    line.append(".Select: ");
    line.append(joined.as_str());
    line.append(" = 1");
    proof {
        assert(line@ =~= knob_line(knob@));
    }
    line
}

/// Collects the selection constraint lines of all knobs, in order.
fn resource_knob_lines(r: &Resource) -> (out: Vec<String>)
    ensures
        texts_of(out@) == knob_lines(r@.knobs),
{
    let ghost knobs = r@.knobs;
    let mut out: Vec<String> = Vec::new();
    let mut i: usize = 0;
    while i < r.knobs.len()
        invariant
            i <= r.knobs.len(),
            r.knobs@.len() == knobs.len(),
            knobs == r@.knobs,
            texts_of(out@) == knob_lines(knobs.take(i as int)),
        decreases r.knobs.len() - i,
    {
        let line = knob_constraint_line(&r.knobs[i]);
        proof {
            assert(knobs[i as int] == r.knobs@[i as int]@);
            lemma_take_succ(knobs, i as int);
            lemma_texts_of_push(out@, line);
            assert(knob_lines(knobs.take(i as int + 1))
                =~= knob_lines(knobs.take(i as int)).push(knob_line(knobs[i as int])));
        }
        out.push(line);
        i = i + 1;
    }
    proof {
        assert(knobs.take(r.knobs@.len() as int) =~= knobs);
    }
    out
}

/// Builds the complete LP document for the resource under the given
/// budget.  The text is fully determined by the input: it is exactly
/// `model_text(resource@, budget@)`, so the builder never fails, and two
/// calls on identical inputs return byte-identical text.
pub fn build_model(resource: Resource, budget: &str) -> (text: String)
    ensures
        text@ == model_text(resource@, budget@),
{
    let objective_terms = resource_terms(TermKind::Quality, &resource);
    let objective = join_all(&objective_terms, " + ");
    let cost_terms = resource_terms(TermKind::Cost, &resource);
    let cost_sum = join_all(&cost_terms, " + ");
    let knob_constraint_lines = resource_knob_lines(&resource);
    let knob_block = join_all(&knob_constraint_lines, "\n\t");
    let edge_constraint_lines = resource_edge_lines(&resource);
    let edge_block = join_all(&edge_constraint_lines, "\n\t");
    let binary_terms = resource_terms(TermKind::Name, &resource);
    let binaries = join_all(&binary_terms, " ");

    let mut text = String::new();
    text.append("Maximize\n\t");
    text.append(objective.as_str());
    text.append("\nSubject To\n\tcost: ");
    text.append(cost_sum.as_str());
    text.append(" <= ");
    text.append(budget);
    text.append("\n\t");
    text.append(knob_block.as_str());
    text.append("\n\t");
    text.append(edge_block.as_str());
    text.append("\nBinary\n\t");
    text.append(binaries.as_str());
    text.append("\nEnd");
    proof {
        assert(text@ =~= model_text(resource@, budget@));
    }
    text
}

} // verus!
