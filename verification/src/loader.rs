//! The graph loader: consumes a graph definition (nodes, edges, boundary
//! aliases, literal startup values) and computes the script that applies
//! it — node creation, wiring, the synthetic exterior injection node, one
//! injection sequence per literal value, and the start requests — while
//! building the [`Subgraph`] descriptor that is stored on success.
//!
//! Path resolution is a request/response round trip with an outside
//! collaborator: the script records each request, and the caller supplies
//! the answers through `resolved_paths`, one per literal value, in
//! declaration order.

use vstd::prelude::*;
use vstd::string::*;
use crate::agent::Portal;
use crate::ops::{calls, ops_view, push_calls, steps_view, EngineOp, OpModel, Step, StepModel};
use crate::policy::{connect_ops, connect_ports};
use crate::subgraph::{Subgraph, SubgraphModel};
use crate::text::{
    camel_of,
    last_dash_segment,
    last_dash_segment_of,
    split_input,
    split_input_spec,
    to_camel_case,
    ParseError,
};

verus! {

/// A node declaration: a name and the component it instantiates.
pub struct NodeDef {
    pub name: String,
    pub sort: String,
}

/// Mathematical content of a [`NodeDef`].
pub ghost struct NodeModel {
    pub name: Seq<char>,
    pub sort: Seq<char>,
}

impl View for NodeDef {
    type V = NodeModel;

    open spec fn view(&self) -> NodeModel {
        NodeModel { name: self.name@, sort: self.sort@ }
    }
}

/// An edge declaration: the six-part description of one wire, where an
/// empty selection means the endpoint is scalar.
pub struct EdgeDef {
    pub o_name: String,
    pub o_port: String,
    pub o_selection: String,
    pub i_name: String,
    pub i_port: String,
    pub i_selection: String,
}

/// Mathematical content of an [`EdgeDef`].
pub ghost struct EdgeModel {
    pub o_name: Seq<char>,
    pub o_port: Seq<char>,
    pub o_selection: Seq<char>,
    pub i_name: Seq<char>,
    pub i_port: Seq<char>,
    pub i_selection: Seq<char>,
}

impl View for EdgeDef {
    type V = EdgeModel;

    open spec fn view(&self) -> EdgeModel {
        EdgeModel {
            o_name: self.o_name@,
            o_port: self.o_port@,
            o_selection: self.o_selection@,
            i_name: self.i_name@,
            i_port: self.i_port@,
            i_selection: self.i_selection@,
        }
    }
}

/// A boundary alias declaration: the externally visible `name` and the
/// concrete `(comp, port)` behind it.
pub struct ExtDef {
    pub name: String,
    pub comp: String,
    pub port: String,
}

/// Mathematical content of an [`ExtDef`].
pub ghost struct ExtModel {
    pub name: Seq<char>,
    pub comp: Seq<char>,
    pub port: Seq<char>,
}

impl View for ExtDef {
    type V = ExtModel;

    open spec fn view(&self) -> ExtModel {
        ExtModel { name: self.name@, comp: self.comp@, port: self.port@ }
    }
}

/// A literal startup value declaration: its target endpoint and the
/// literal text `edge:value[~action]`.
pub struct IipDef {
    pub comp: String,
    pub port: String,
    pub selection: String,
    pub iip: String,
}

/// Mathematical content of an [`IipDef`].
pub ghost struct IipModel {
    pub comp: Seq<char>,
    pub port: Seq<char>,
    pub selection: Seq<char>,
    pub iip: Seq<char>,
}

impl View for IipDef {
    type V = IipModel;

    open spec fn view(&self) -> IipModel {
        IipModel {
            comp: self.comp@,
            port: self.port@,
            selection: self.selection@,
            iip: self.iip@,
        }
    }
}

/// A whole graph definition.
pub struct GraphDef {
    pub nodes: Vec<NodeDef>,
    pub edges: Vec<EdgeDef>,
    pub external_inputs: Vec<ExtDef>,
    pub external_outputs: Vec<ExtDef>,
    pub iips: Vec<IipDef>,
}

/// Mathematical content of a [`GraphDef`].
pub ghost struct GraphModel {
    pub nodes: Seq<NodeModel>,
    pub edges: Seq<EdgeModel>,
    pub external_inputs: Seq<ExtModel>,
    pub external_outputs: Seq<ExtModel>,
    pub iips: Seq<IipModel>,
}

impl View for GraphDef {
    type V = GraphModel;

    open spec fn view(&self) -> GraphModel {
        GraphModel {
            nodes: self.nodes@.map_values(|n: NodeDef| n@),
            edges: self.edges@.map_values(|e: EdgeDef| e@),
            external_inputs: self.external_inputs@.map_values(|e: ExtDef| e@),
            external_outputs: self.external_outputs@.map_values(|e: ExtDef| e@),
            iips: self.iips@.map_values(|i: IipDef| i@),
        }
    }
}

/// One node-creation call per declared node, in declaration order.
pub open spec fn node_steps(nodes: Seq<NodeModel>) -> Seq<StepModel> {
    nodes.map_values(
        |n: NodeModel| StepModel::Call { op: OpModel::AddNode { name: n.name, sort: n.sort } },
    )
}

/// The wiring calls of one declared edge.
pub open spec fn edge_steps_one(e: EdgeModel) -> Seq<StepModel> {
    calls(connect_ops(e.o_name, e.o_port, e.o_selection, e.i_name, e.i_port, e.i_selection))
}

/// The wiring calls of the declared edges, in declaration order.
pub open spec fn edge_steps(edges: Seq<EdgeModel>) -> Seq<StepModel>
    decreases edges.len(),
{
    if edges.len() == 0 {
        Seq::empty()
    } else {
        edge_steps(edges.drop_last()) + edge_steps_one(edges.last())
    }
}

/// The alias map declared by a list of boundary declarations; a later
/// declaration of the same alias wins.
pub open spec fn ext_map(exts: Seq<ExtModel>) -> Map<Seq<char>, (Seq<char>, Seq<char>)>
    decreases exts.len(),
{
    if exts.len() == 0 {
        Map::empty()
    } else {
        ext_map(exts.drop_last()).insert(
            exts.last().name,
            (exts.last().comp, exts.last().port),
        )
    }
}

/// An IIP whose literal text lacks the `:` separator.
pub open spec fn iip_bad(iip: IipModel) -> bool {
    split_input_spec(iip.iip) is None
}

/// The index of the first malformed IIP; the number of IIPs when every
/// one is well formed.
pub open spec fn fail_point(iips: Seq<IipModel>) -> int
    decreases iips.len(),
{
    if iips.len() == 0 {
        0
    } else if iip_bad(iips[0]) {
        0
    } else {
        1 + fail_point(iips.skip(1))
    }
}

/// The injection sequence of one well-formed IIP, given the resolved
/// location of its edge: ask for the path, wire the exterior node's slot
/// to the target (scalar or indexed, per the IIP's selection), emit the
/// generated path, the camel-cased final hyphen-separated segment of the
/// edge name and the literal text, await the finalized message, and
/// deliver it tagged with the action when one was given.
pub open spec fn iip_steps(iip: IipModel, path: Seq<char>) -> Seq<StepModel> {
    match split_input_spec(iip.iip) {
        None => Seq::empty(),
        Some(t) => seq![(StepModel::ResolvePath { edge: t.0 })] + calls(
            connect_ops("exterior"@, "s"@, Seq::empty(), iip.comp, iip.port, iip.selection),
        ) + seq![
            (StepModel::EmitIipPath { path: path + "/src/edge.capnp"@ }),
            (StepModel::EmitIipEdge { text: camel_of(last_dash_segment(t.0)) }),
            (StepModel::EmitIipInput { text: t.1 }),
            StepModel::AwaitIip,
            (StepModel::DeliverIip { action: t.2 }),
        ],
    }
}

/// The injection sequences of the first `n` IIPs, in declaration order.
pub open spec fn iips_steps_upto(iips: Seq<IipModel>, paths: Seq<Seq<char>>, n: int) -> Seq<
    StepModel,
>
    decreases n,
{
    if n <= 0 {
        Seq::empty()
    } else {
        iips_steps_upto(iips, paths, n - 1) + iip_steps(iips[n - 1], paths[n - 1])
    }
}

/// One start request per declared node, in declaration order; the engine
/// starts a node only when it declares no input ports.
pub open spec fn start_steps(nodes: Seq<NodeModel>) -> Seq<StepModel> {
    nodes.map_values(|n: NodeModel| StepModel::Call { op: OpModel::StartIfNeeded { name: n.name } })
}

/// The subgraph descriptor a successful load records.
pub open spec fn loaded_subgraph(g: GraphModel) -> SubgraphModel {
    SubgraphModel {
        nodes: g.nodes.map_values(|n: NodeModel| n.name),
        ext_in: ext_map(g.external_inputs),
        ext_out: ext_map(g.external_outputs),
    }
}

/// A load succeeds exactly when every IIP literal is well formed.
pub open spec fn load_ok(g: GraphModel) -> bool {
    fail_point(g.iips) == g.iips.len()
}

/// The whole load script: create the nodes, wire the edges, register the
/// exterior injection node, run the injection sequences up to the first
/// malformed IIP, and — when none is malformed — request a start for
/// every node. Boundary aliases produce no steps; they only populate the
/// subgraph descriptor.
pub open spec fn load_steps(g: GraphModel, paths: Seq<Seq<char>>) -> Seq<StepModel> {
    node_steps(g.nodes) + edge_steps(g.edges) + seq![(StepModel::Call { op: OpModel::AddExterior })]
        + iips_steps_upto(g.iips, paths, fail_point(g.iips)) + (if load_ok(g) {
        start_steps(g.nodes)
    } else {
        Seq::empty()
    })
}

/// View of the supplied path answers.
pub open spec fn paths_view(paths: Seq<String>) -> Seq<Seq<char>> {
    paths.map_values(|p: String| p@)
}

proof fn lemma_fail_point(iips: Seq<IipModel>, i: int)
    requires
        0 <= i <= iips.len(),
        forall|j: int| 0 <= j < i ==> !iip_bad(iips[j]),
        i < iips.len() ==> iip_bad(iips[i]),
    ensures
        fail_point(iips) == i,
    decreases iips.len(),
{
    if iips.len() > 0 && !iip_bad(iips[0]) {
        lemma_fail_point(iips.skip(1), i - 1);
        assert(forall|j: int| 0 <= j < i - 1 ==> iips.skip(1)[j] == iips[j + 1]);
    }
}

/// What a load produced: the script to perform, and the first error when
/// one aborted it. The steps before the error still stand — an aborted
/// load is not rolled back.
pub struct LoadOutcome {
    pub steps: Vec<Step>,
    pub error: Option<ParseError>,
}

/// Loads a graph definition under `name`: computes the load script,
/// builds the subgraph descriptor and, on success, stores it in the
/// portal's table. On the first malformed IIP the script ends where the
/// load aborted, and the table is left unchanged.
pub fn add_graph(
    portal: &mut Portal,
    name: &str,
    graph: &GraphDef,
    resolved_paths: &Vec<String>,
) -> (r: LoadOutcome)
    requires
        old(portal).wf(),
        resolved_paths@.len() == graph@.iips.len(),
    ensures
        final(portal).wf(),
        steps_view(r.steps@) == load_steps(graph@, paths_view(resolved_paths@)),
        (r.error is None) == load_ok(graph@),
        match r.error {
            None => final(portal).model() == old(portal).model().insert(
                name@,
                loaded_subgraph(graph@),
            ),
            Some(e) => e == ParseError::BadIipSyntax && final(portal).model() == old(
                portal,
            ).model(),
        },
{
    let ghost g = graph@;
    let ghost pathsv = paths_view(resolved_paths@);
    let mut steps: Vec<Step> = Vec::new();
    let mut subnet = Subgraph::new();

    let n_nodes = graph.nodes.len();
    let mut i: usize = 0;
    proof {
        assert(steps_view(steps@) =~= node_steps(g.nodes.take(0)));
        assert(subnet@.nodes =~= g.nodes.take(0).map_values(|n: NodeModel| n.name));
    }
    while i < n_nodes
        invariant
            i <= n_nodes,
            n_nodes == graph.nodes@.len(),
            g == graph@,
            subnet.wf(),
            subnet@.nodes == g.nodes.take(i as int).map_values(|n: NodeModel| n.name),
            subnet@.ext_in == Map::<Seq<char>, (Seq<char>, Seq<char>)>::empty(),
            subnet@.ext_out == Map::<Seq<char>, (Seq<char>, Seq<char>)>::empty(),
            steps_view(steps@) == node_steps(g.nodes.take(i as int)),
        decreases n_nodes - i,
    {
        let nd = &graph.nodes[i];
        subnet.record_node(nd.name.clone());
        let ghost vb = steps@;
        steps.push(
            Step::Call {
                op: EngineOp::AddNode { name: nd.name.clone(), sort: nd.sort.clone() },
            },
        );
        proof {
            assert(g.nodes[i as int] == graph.nodes@[i as int]@);
            let ghost elem = (StepModel::Call {
                op: OpModel::AddNode { name: g.nodes[i as int].name, sort: g.nodes[i as int].sort },
            });
            assert(subnet@.nodes =~= g.nodes.take(i as int + 1).map_values(
                |n: NodeModel| n.name,
            ));
            assert(steps_view(steps@) =~= steps_view(vb).push(elem));
            assert(node_steps(g.nodes.take(i as int + 1)) =~= node_steps(
                g.nodes.take(i as int),
            ).push(elem));
            assert(steps_view(steps@) =~= node_steps(g.nodes.take(i as int + 1)));
        }
        i += 1;
    }
    proof {
        assert(g.nodes.take(n_nodes as int) =~= g.nodes);
    }

    let n_edges = graph.edges.len();
    let mut j: usize = 0;
    while j < n_edges
        invariant
            j <= n_edges,
            n_edges == graph.edges@.len(),
            g == graph@,
            subnet.wf(),
            subnet@.nodes == g.nodes.map_values(|n: NodeModel| n.name),
            subnet@.ext_in == Map::<Seq<char>, (Seq<char>, Seq<char>)>::empty(),
            subnet@.ext_out == Map::<Seq<char>, (Seq<char>, Seq<char>)>::empty(),
            steps_view(steps@) == node_steps(g.nodes) + edge_steps(g.edges.take(j as int)),
        decreases n_edges - j,
    {
        let e = &graph.edges[j];
        let ops = connect_ports(
            e.o_name.as_str(),
            e.o_port.as_str(),
            e.o_selection.as_str(),
            e.i_name.as_str(),
            e.i_port.as_str(),
            e.i_selection.as_str(),
        );
        push_calls(&mut steps, ops);
        proof {
            assert(g.edges[j as int] == graph.edges@[j as int]@);
            assert(g.edges.take(j as int + 1).drop_last() =~= g.edges.take(j as int));
            assert(g.edges.take(j as int + 1).last() == g.edges[j as int]);
            assert(steps_view(steps@) =~= node_steps(g.nodes) + edge_steps(
                g.edges.take(j as int + 1),
            ));
        }
        j += 1;
    }
    proof {
        assert(g.edges.take(n_edges as int) =~= g.edges);
    }

    let n_ein = graph.external_inputs.len();
    let mut m: usize = 0;
    while m < n_ein
        invariant
            m <= n_ein,
            n_ein == graph.external_inputs@.len(),
            g == graph@,
            subnet.wf(),
            subnet@.nodes == g.nodes.map_values(|n: NodeModel| n.name),
            subnet@.ext_in == ext_map(g.external_inputs.take(m as int)),
            subnet@.ext_out == Map::<Seq<char>, (Seq<char>, Seq<char>)>::empty(),
            steps_view(steps@) == node_steps(g.nodes) + edge_steps(g.edges),
        decreases n_ein - m,
    {
        let x = &graph.external_inputs[m];
        subnet.insert_ext_in(x.name.clone(), x.comp.clone(), x.port.clone());
        proof {
            assert(g.external_inputs[m as int] == graph.external_inputs@[m as int]@);
            assert(g.external_inputs.take(m as int + 1).drop_last() =~= g.external_inputs.take(
                m as int,
            ));
            assert(g.external_inputs.take(m as int + 1).last() == g.external_inputs[m as int]);
        }
        m += 1;
    }
    proof {
        assert(g.external_inputs.take(n_ein as int) =~= g.external_inputs);
    }

    let n_eout = graph.external_outputs.len();
    let mut p: usize = 0;
    while p < n_eout
        invariant
            p <= n_eout,
            n_eout == graph.external_outputs@.len(),
            g == graph@,
            subnet.wf(),
            subnet@.nodes == g.nodes.map_values(|n: NodeModel| n.name),
            subnet@.ext_in == ext_map(g.external_inputs),
            subnet@.ext_out == ext_map(g.external_outputs.take(p as int)),
            steps_view(steps@) == node_steps(g.nodes) + edge_steps(g.edges),
        decreases n_eout - p,
    {
        let x = &graph.external_outputs[p];
        subnet.insert_ext_out(x.name.clone(), x.comp.clone(), x.port.clone());
        proof {
            assert(g.external_outputs[p as int] == graph.external_outputs@[p as int]@);
            assert(g.external_outputs.take(p as int + 1).drop_last() =~= g.external_outputs.take(
                p as int,
            ));
            assert(g.external_outputs.take(p as int + 1).last() == g.external_outputs[p as int]);
        }
        p += 1;
    }
    proof {
        assert(g.external_outputs.take(n_eout as int) =~= g.external_outputs);
    }

    steps.push(Step::Call { op: EngineOp::AddExterior });
    let ghost prelude = node_steps(g.nodes) + edge_steps(g.edges) + seq![
        (StepModel::Call { op: OpModel::AddExterior }),
    ];
    proof {
        assert(steps_view(steps@) =~= prelude);
    }

    let n_iips = graph.iips.len();
    let mut k: usize = 0;
    while k < n_iips
        invariant
            k <= n_iips,
            n_iips == graph.iips@.len(),
            resolved_paths@.len() == graph.iips@.len(),
            g == graph@,
            pathsv == paths_view(resolved_paths@),
            prelude == node_steps(g.nodes) + edge_steps(g.edges) + seq![
                (StepModel::Call { op: OpModel::AddExterior }),
            ],
            subnet.wf(),
            subnet@ == loaded_subgraph(g),
            portal.wf(),
            portal.model() == old(portal).model(),
            forall|t: int| 0 <= t < k ==> !iip_bad(g.iips[t]),
            steps_view(steps@) == prelude + iips_steps_upto(g.iips, pathsv, k as int),
        decreases n_iips - k,
    {
        let iip = &graph.iips[k];
        proof {
            assert(g.iips[k as int] == graph.iips@[k as int]@);
        }
        match split_input(iip.iip.as_str()) {
            Err(e) => {
                proof {
                    lemma_fail_point(g.iips, k as int);
                }
                return LoadOutcome { steps, error: Some(e) };
            },
            Ok(parts) => {
                let (edge, value, action) = parts;
                let ghost split_model = (edge@, value@, crate::text::opt_view(action));
                let ghost v0 = steps@;
                steps.push(Step::ResolvePath { edge: edge.clone() });
                proof {
                    assert(steps_view(steps@) =~= steps_view(v0).push(
                        (StepModel::ResolvePath { edge: edge@ }),
                    ));
                }
                let ops = connect_ports(
                    "exterior",
                    "s",
                    "",
                    iip.comp.as_str(),
                    iip.port.as_str(),
                    iip.selection.as_str(),
                );
                let ghost opsv = ops@;
                push_calls(&mut steps, ops);
                let mut gen_path = resolved_paths[k].clone();
                gen_path.append("/src/edge.capnp");
                let seg = last_dash_segment_of(edge.as_str());
                let cam = to_camel_case(seg.as_str());
                let ghost v1 = steps@;
                steps.push(Step::EmitIipPath { path: gen_path });
                let ghost v2 = steps@;
                let ghost camv = cam@;
                steps.push(Step::EmitIipEdge { text: cam });
                let ghost v3 = steps@;
                let ghost valuev = value@;
                steps.push(Step::EmitIipInput { text: value });
                let ghost v4 = steps@;
                steps.push(Step::AwaitIip);
                let ghost v5 = steps@;
                steps.push(Step::DeliverIip { action });
                proof {
                    reveal_strlit("");
                    assert(""@ =~= Seq::<char>::empty());
                    assert(pathsv[k as int] == resolved_paths@[k as int]@);
                    let im = g.iips[k as int];
                    assert(split_input_spec(im.iip) == Some(split_model));
                    let pathv = pathsv[k as int];
                    assert(gen_path@ == pathv + "/src/edge.capnp"@);
                    assert(camv == camel_of(last_dash_segment(edge@)));
                    assert(ops_view(opsv) == connect_ops(
                        "exterior"@,
                        "s"@,
                        Seq::<char>::empty(),
                        im.comp,
                        im.port,
                        im.selection,
                    ));
                    assert(steps_view(v1) =~= steps_view(v0).push(
                        (StepModel::ResolvePath { edge: edge@ }),
                    ) + calls(ops_view(opsv)));
                    assert(steps_view(v2) =~= steps_view(v1).push(
                        (StepModel::EmitIipPath { path: pathv + "/src/edge.capnp"@ }),
                    ));
                    assert(steps_view(v3) =~= steps_view(v2).push(
                        (StepModel::EmitIipEdge { text: camv }),
                    ));
                    assert(steps_view(v4) =~= steps_view(v3).push(
                        (StepModel::EmitIipInput { text: valuev }),
                    ));
                    assert(steps_view(v5) =~= steps_view(v4).push(StepModel::AwaitIip));
                    assert(steps_view(steps@) =~= steps_view(v5).push(
                        (StepModel::DeliverIip { action: split_model.2 }),
                    ));
                    assert(steps_view(steps@) =~= prelude + iips_steps_upto(
                        g.iips,
                        pathsv,
                        k as int,
                    ) + iip_steps(im, pathv));
                    assert(steps_view(steps@) =~= prelude + iips_steps_upto(
                        g.iips,
                        pathsv,
                        k as int + 1,
                    ));
                }
            },
        }
        k += 1;
    }
    proof {
        lemma_fail_point(g.iips, n_iips as int);
    }

    let ghost prelude_iips = prelude + iips_steps_upto(g.iips, pathsv, n_iips as int);
    let mut t: usize = 0;
    while t < n_nodes
        invariant
            t <= n_nodes,
            n_nodes == graph.nodes@.len(),
            g == graph@,
            subnet.wf(),
            subnet@ == loaded_subgraph(g),
            portal.wf(),
            portal.model() == old(portal).model(),
            prelude_iips == prelude + iips_steps_upto(g.iips, pathsv, g.iips.len() as int),
            fail_point(g.iips) == g.iips.len(),
            prelude == node_steps(g.nodes) + edge_steps(g.edges) + seq![
                (StepModel::Call { op: OpModel::AddExterior }),
            ],
            pathsv == paths_view(resolved_paths@),
            steps_view(steps@) == prelude_iips + start_steps(g.nodes.take(t as int)),
        decreases n_nodes - t,
    {
        let nd = &graph.nodes[t];
        let ghost vb = steps@;
        steps.push(Step::Call { op: EngineOp::StartIfNeeded { name: nd.name.clone() } });
        proof {
            assert(g.nodes[t as int] == graph.nodes@[t as int]@);
            let ghost elem = (StepModel::Call {
                op: OpModel::StartIfNeeded { name: g.nodes[t as int].name },
            });
            assert(steps_view(steps@) =~= steps_view(vb).push(elem));
            assert(start_steps(g.nodes.take(t as int + 1)) =~= start_steps(
                g.nodes.take(t as int),
            ).push(elem));
            assert(steps_view(steps@) =~= prelude_iips + start_steps(g.nodes.take(t as int + 1)));
        }
        t += 1;
    }
    proof {
        assert(g.nodes.take(n_nodes as int) =~= g.nodes);
    }

    portal.insert_subgraph(name.to_owned(), subnet);
    LoadOutcome { steps, error: None }
}

/// Law: loading a graph under a name and then dispatching a removal of
/// that name leaves the subgraph table without the entry, the removal
/// asks the engine to remove exactly the nodes the load created, in load
/// order, and when the name was free before the load the table returns
/// to what it was.
pub proof fn lemma_add_then_remove(
    table: Map<Seq<char>, SubgraphModel>,
    name: Seq<char>,
    g: GraphModel,
)
    ensures
        !crate::agent::dispatch_table(
            table.insert(name, loaded_subgraph(g)),
            (crate::agent::ActionModel::Remove { name }),
        ).contains_key(name),
        crate::agent::dispatch_steps(
            table.insert(name, loaded_subgraph(g)),
            (crate::agent::ActionModel::Remove { name }),
        ) == g.nodes.map_values(
            |n: NodeModel| StepModel::Call { op: OpModel::RemoveNode { name: n.name } },
        ),
        !table.contains_key(name) ==> crate::agent::dispatch_table(
            table.insert(name, loaded_subgraph(g)),
            (crate::agent::ActionModel::Remove { name }),
        ) == table,
{
    let after_add = table.insert(name, loaded_subgraph(g));
    assert(after_add.contains_key(name));
    assert(after_add[name] == loaded_subgraph(g));
    assert(crate::agent::dispatch_steps(after_add, (crate::agent::ActionModel::Remove { name }))
        =~= g.nodes.map_values(
        |n: NodeModel| StepModel::Call { op: OpModel::RemoveNode { name: n.name } },
    ));
    if !table.contains_key(name) {
        assert(after_add.remove(name) =~= table);
    }
}

} // verus!
