//! The control agent: its state — the table of known subgraphs — and the
//! dispatch over the five administrative commands. Dispatch resolves
//! boundary aliases one level deep and computes the script of engine
//! calls, emissions and receives that carries the command out.

use vstd::prelude::*;
use crate::ops::{calls, ops_view, push_calls, steps_view, EngineOp, OpModel, Step, StepModel};
use crate::policy::{connect_ops, connect_ports};
use crate::subgraph::{Subgraph, SubgraphModel};
use crate::table::Table;

verus! {

/// The agent's state: the table of known subgraphs, keyed by name.
pub struct Portal {
    subnet: Table<Subgraph>,
}

impl Portal {
    /// The name-to-subgraph map this state denotes.
    pub closed spec fn model(&self) -> Map<Seq<char>, SubgraphModel> {
        self.subnet.model()
    }

    /// Subgraph names are unique.
    pub closed spec fn wf(&self) -> bool {
        self.subnet.wf()
    }

    /// A fresh agent state: no subgraphs known.
    pub fn new() -> (r: Portal)
        ensures
            r.wf(),
            r.model() == Map::<Seq<char>, SubgraphModel>::empty(),
    {
        Portal { subnet: Table::new() }
    }

    /// Stores a subgraph under its name, replacing any previous one.
    pub fn insert_subgraph(&mut self, name: String, subgraph: Subgraph)
        requires
            old(self).wf(),
        ensures
            final(self).wf(),
            final(self).model() == old(self).model().insert(name@, subgraph@),
    {
        self.subnet.insert(name, subgraph);
    }

    /// Removes and returns the subgraph stored under `name`, if any.
    pub fn remove_subgraph(&mut self, name: &str) -> (r: Option<Subgraph>)
        requires
            old(self).wf(),
        ensures
            final(self).wf(),
            match r {
                Some(sg) => old(self).model().contains_key(name@) && sg@ == old(self).model()[name@]
                    && final(self).model() == old(self).model().remove(name@),
                None => !old(self).model().contains_key(name@) && final(self).model() == old(
                    self,
                ).model(),
            },
    {
        self.subnet.remove(name)
    }

    /// The subgraph stored under `name`, if any.
    pub fn get_subgraph(&self, name: &str) -> (r: Option<&Subgraph>)
        ensures
            match r {
                Some(sg) => self.model().contains_key(name@) && sg@ == self.model()[name@],
                None => !self.model().contains_key(name@),
            },
    {
        self.subnet.get(name)
    }
}

/// Resolution of an input endpoint: when `name` is a known subgraph and
/// `port` one of its declared input aliases, the concrete pair behind the
/// alias; otherwise the pair unchanged. Exactly one level deep.
pub open spec fn resolve_in_spec(
    table: Map<Seq<char>, SubgraphModel>,
    name: Seq<char>,
    port: Seq<char>,
) -> (Seq<char>, Seq<char>) {
    if table.contains_key(name) && table[name].ext_in.contains_key(port) {
        table[name].ext_in[port]
    } else {
        (name, port)
    }
}

/// Resolution of an output endpoint, through the output aliases.
pub open spec fn resolve_out_spec(
    table: Map<Seq<char>, SubgraphModel>,
    name: Seq<char>,
    port: Seq<char>,
) -> (Seq<char>, Seq<char>) {
    if table.contains_key(name) && table[name].ext_out.contains_key(port) {
        table[name].ext_out[port]
    } else {
        (name, port)
    }
}

/// One administrative command.
#[derive(Debug, PartialEq, Eq)]
pub enum Action {
    /// Create a new node or subgraph instance called `name` of kind `comp`.
    Add { name: String, comp: String },
    /// Remove a node or, when `name` is a known subgraph, all its nodes.
    Remove { name: String },
    /// Wire an output port to an input port; an empty selection means the
    /// endpoint is scalar.
    Connect {
        o_name: String,
        o_port: String,
        o_selection: String,
        i_name: String,
        i_port: String,
        i_selection: String,
    },
    /// Bind slot `output` of the agent's own indexed output directly as a
    /// sender feeding the named destination port.
    ConnectSender { name: String, port: String, selection: String, output: String },
    /// Forward the paired in-flight payload to the named destination port.
    Send { comp: String, port: String, selection: String },
}

/// Mathematical content of an [`Action`].
pub ghost enum ActionModel {
    Add { name: Seq<char>, comp: Seq<char> },
    Remove { name: Seq<char> },
    Connect {
        o_name: Seq<char>,
        o_port: Seq<char>,
        o_selection: Seq<char>,
        i_name: Seq<char>,
        i_port: Seq<char>,
        i_selection: Seq<char>,
    },
    ConnectSender { name: Seq<char>, port: Seq<char>, selection: Seq<char>, output: Seq<char> },
    Send { comp: Seq<char>, port: Seq<char>, selection: Seq<char> },
}

impl View for Action {
    type V = ActionModel;

    open spec fn view(&self) -> ActionModel {
        match self {
            Action::Add { name, comp } => ActionModel::Add { name: name@, comp: comp@ },
            Action::Remove { name } => ActionModel::Remove { name: name@ },
            Action::Connect { o_name, o_port, o_selection, i_name, i_port, i_selection } => {
                ActionModel::Connect {
                    o_name: o_name@,
                    o_port: o_port@,
                    o_selection: o_selection@,
                    i_name: i_name@,
                    i_port: i_port@,
                    i_selection: i_selection@,
                }
            },
            Action::ConnectSender { name, port, selection, output } => {
                ActionModel::ConnectSender {
                    name: name@,
                    port: port@,
                    selection: selection@,
                    output: output@,
                }
            },
            Action::Send { comp, port, selection } => ActionModel::Send {
                comp: comp@,
                port: port@,
                selection: selection@,
            },
        }
    }
}

/// The engine calls of a removal: every node of the named subgraph when
/// one is known, else the bare name as a single concrete node.
pub open spec fn remove_steps(table: Map<Seq<char>, SubgraphModel>, name: Seq<char>) -> Seq<
    StepModel,
> {
    if table.contains_key(name) {
        table[name].nodes.map_values(
            |n: Seq<char>| StepModel::Call { op: OpModel::RemoveNode { name: n } },
        )
    } else {
        seq![(StepModel::Call { op: OpModel::RemoveNode { name } })]
    }
}

/// The script of one dispatched command, against a given subgraph table.
/// `Add` only emits the generated one-node graph description wrapping the
/// requested component; the load itself runs when the graph body arrives.
/// `Remove` removes the named subgraph's nodes, or the bare node. The two
/// connect commands and `Send` resolve their endpoints one level deep
/// first; `Send` awaits the paired payload before delivering it.
pub open spec fn dispatch_steps(table: Map<Seq<char>, SubgraphModel>, a: ActionModel) -> Seq<
    StepModel,
> {
    match a {
        ActionModel::Add { name, comp } => seq![
            (StepModel::AskGraph { path: comp, node_name: name, node_sort: comp }),
        ],
        ActionModel::Remove { name } => remove_steps(table, name),
        ActionModel::Connect { o_name, o_port, o_selection, i_name, i_port, i_selection } => {
            let o = resolve_out_spec(table, o_name, o_port);
            let i = resolve_in_spec(table, i_name, i_port);
            calls(connect_ops(o.0, o.1, o_selection, i.0, i.1, i_selection))
        },
        ActionModel::ConnectSender { name, port, selection, output } => {
            let d = resolve_out_spec(table, name, port);
            seq![
                (StepModel::Call { op: OpModel::BindSenderOutput { name: d.0, port: d.1, output } }),
            ]
        },
        ActionModel::Send { comp, port, selection } => {
            let d = resolve_in_spec(table, comp, port);
            seq![
                StepModel::AwaitPayload,
                (StepModel::Call {
                    op: OpModel::DeliverTo {
                        name: d.0,
                        port: d.1,
                        selection: if selection.len() == 0 {
                            None
                        } else {
                            Some(selection)
                        },
                    },
                }),
            ]
        },
    }
}

/// How one dispatched command changes the subgraph table: `Remove` of a
/// known subgraph drops its entry; every other command leaves the table
/// alone (a load, which inserts, runs separately when its graph arrives).
pub open spec fn dispatch_table(table: Map<Seq<char>, SubgraphModel>, a: ActionModel) -> Map<
    Seq<char>,
    SubgraphModel,
> {
    match a {
        ActionModel::Remove { name } => {
            if table.contains_key(name) {
                table.remove(name)
            } else {
                table
            }
        },
        _ => table,
    }
}

/// Dispatches one command: computes its script and applies its change to
/// the subgraph table.
pub fn handle_action(portal: &mut Portal, action: &Action) -> (steps: Vec<Step>)
    requires
        old(portal).wf(),
    ensures
        final(portal).wf(),
        steps_view(steps@) == dispatch_steps(old(portal).model(), action@),
        final(portal).model() == dispatch_table(old(portal).model(), action@),
{
    match action {
        Action::Add { name, comp } => {
            let steps = vec![
                Step::AskGraph {
                    path: comp.clone(),
                    node_name: name.clone(),
                    node_sort: comp.clone(),
                },
            ];
            proof {
                assert(steps_view(steps@) =~= dispatch_steps(old(portal).model(), action@));
            }
            steps
        },
        Action::Remove { name } => {
            match portal.remove_subgraph(name.as_str()) {
                Some(sg) => {
                    let ghost sgnodes = sg@.nodes;
                    let names = sg.node_names();
                    let n = names.len();
                    let mut steps: Vec<Step> = Vec::new();
                    let mut i: usize = 0;
                    proof {
                        assert(steps_view(steps@) =~= sgnodes.take(0).map_values(
                            |nm: Seq<char>| StepModel::Call { op: OpModel::RemoveNode { name: nm } },
                        ));
                    }
                    while i < n
                        invariant
                            i <= n,
                            n == names@.len(),
                            names@.map_values(|s: String| s@) == sgnodes,
                            steps_view(steps@) == sgnodes.take(i as int).map_values(
                                |nm: Seq<char>| StepModel::Call {
                                    op: OpModel::RemoveNode { name: nm },
                                },
                            ),
                        decreases n - i,
                    {
                        let ghost vb = steps@;
                        steps.push(
                            Step::Call { op: EngineOp::RemoveNode { name: names[i].clone() } },
                        );
                        proof {
                            assert(names@[i as int]@ == sgnodes[i as int]);
                            let ghost elem = (StepModel::Call {
                                op: OpModel::RemoveNode { name: sgnodes[i as int] },
                            });
                            assert(steps_view(steps@) =~= steps_view(vb).push(elem));
                            assert(sgnodes.take(i as int + 1).map_values(
                                |nm: Seq<char>| StepModel::Call {
                                    op: OpModel::RemoveNode { name: nm },
                                },
                            ) =~= sgnodes.take(i as int).map_values(
                                |nm: Seq<char>| StepModel::Call {
                                    op: OpModel::RemoveNode { name: nm },
                                },
                            ).push(elem));
                        }
                        i += 1;
                    }
                    proof {
                        assert(sgnodes.take(n as int) =~= sgnodes);
                    }
                    steps
                },
                None => {
                    let steps = vec![
                        Step::Call { op: EngineOp::RemoveNode { name: name.clone() } },
                    ];
                    proof {
                        assert(steps_view(steps@) =~= dispatch_steps(
                            old(portal).model(),
                            action@,
                        ));
                    }
                    steps
                },
            }
        },
        Action::Connect { o_name, o_port, o_selection, i_name, i_port, i_selection } => {
            let o = resolve_output(portal, o_name.as_str(), o_port.as_str());
            let i = resolve_input(portal, i_name.as_str(), i_port.as_str());
            let ops = connect_ports(
                o.0.as_str(),
                o.1.as_str(),
                o_selection.as_str(),
                i.0.as_str(),
                i.1.as_str(),
                i_selection.as_str(),
            );
            let ghost opsv = ops@;
            let mut steps: Vec<Step> = Vec::new();
            push_calls(&mut steps, ops);
            proof {
                assert(steps_view(steps@) =~= calls(ops_view(opsv)));
            }
            steps
        },
        Action::ConnectSender { name, port, selection: _, output } => {
            let d = resolve_output(portal, name.as_str(), port.as_str());
            let steps = vec![
                Step::Call {
                    op: EngineOp::BindSenderOutput { name: d.0, port: d.1, output: output.clone() },
                },
            ];
            proof {
                assert(steps_view(steps@) =~= dispatch_steps(old(portal).model(), action@));
            }
            steps
        },
        Action::Send { comp, port, selection } => {
            let d = resolve_input(portal, comp.as_str(), port.as_str());
            let sel = if selection.as_str().is_empty() {
                None
            } else {
                Some(selection.clone())
            };
            let steps = vec![
                Step::AwaitPayload,
                Step::Call { op: EngineOp::DeliverTo { name: d.0, port: d.1, selection: sel } },
            ];
            proof {
                assert(steps_view(steps@) =~= dispatch_steps(old(portal).model(), action@));
            }
            steps
        },
    }
}

/// Resolves an input endpoint through the subgraph table, one level deep.
pub fn resolve_input(portal: &Portal, name: &str, port: &str) -> (r: (String, String))
    ensures
        (r.0@, r.1@) == resolve_in_spec(portal.model(), name@, port@),
{
    match portal.get_subgraph(name) {
        Some(sg) => {
            match sg.lookup_ext_in(port) {
                Some(p) => p,
                None => (name.to_owned(), port.to_owned()),
            }
        },
        None => (name.to_owned(), port.to_owned()),
    }
}

/// Resolves an output endpoint through the subgraph table, one level deep.
pub fn resolve_output(portal: &Portal, name: &str, port: &str) -> (r: (String, String))
    ensures
        (r.0@, r.1@) == resolve_out_spec(portal.model(), name@, port@),
{
    match portal.get_subgraph(name) {
        Some(sg) => {
            match sg.lookup_ext_out(port) {
                Some(p) => p,
                None => (name.to_owned(), port.to_owned()),
            }
        },
        None => (name.to_owned(), port.to_owned()),
    }
}

} // verus!
