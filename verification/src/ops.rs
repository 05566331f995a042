//! The vocabulary the control agent speaks: calls into the Execution
//! Engine and the other steps of a command (outbound emissions, paired
//! receives, payload deliveries). The agent never performs these itself;
//! it computes scripts of them, and an interpreter outside this crate
//! carries each one out in order.

use vstd::prelude::*;
use crate::text::opt_view;

verus! {

/// One call into the Execution Engine.
#[derive(Debug, PartialEq, Eq)]
pub enum EngineOp {
    /// Create the node `name` as an instance of the component `sort`.
    AddNode { name: String, sort: String },
    /// Remove the node `name`.
    RemoveNode { name: String },
    /// Wire a scalar output to a scalar input.
    Connect { o_name: String, o_port: String, i_name: String, i_port: String },
    /// Wire slot `o_selection` of an indexed output to a scalar input.
    ConnectArray {
        o_name: String,
        o_port: String,
        o_selection: String,
        i_name: String,
        i_port: String,
    },
    /// Wire a scalar output to slot `i_selection` of an indexed input.
    ConnectToArray {
        o_name: String,
        o_port: String,
        i_name: String,
        i_port: String,
        i_selection: String,
    },
    /// Wire slot `o_selection` of an indexed output to slot `i_selection`
    /// of an indexed input.
    ConnectArrayToArray {
        o_name: String,
        o_port: String,
        o_selection: String,
        i_name: String,
        i_port: String,
        i_selection: String,
    },
    /// Pre-allocate slot `selection` of the indexed output `port`.
    AddOutputSelection { name: String, port: String, selection: String },
    /// Pre-allocate slot `selection` of the indexed input `port`; the
    /// engine accepts a repeated registration of the same slot.
    SoftAddInputSelection { name: String, port: String, selection: String },
    /// Register the synthetic pass-through node used to inject literal
    /// startup values; it has no component sort.
    AddExterior,
    /// Start the node `name` if it declares no input ports.
    StartIfNeeded { name: String },
    /// Bind slot `output` of the agent's own indexed output directly as a
    /// sender feeding `name.port`.
    BindSenderOutput { name: String, port: String, output: String },
    /// Deliver the in-flight payload to `name.port`, through the given
    /// slot when the port is indexed.
    DeliverTo { name: String, port: String, selection: Option<String> },
}

/// Mathematical content of an [`EngineOp`].
pub ghost enum OpModel {
    AddNode { name: Seq<char>, sort: Seq<char> },
    RemoveNode { name: Seq<char> },
    Connect { o_name: Seq<char>, o_port: Seq<char>, i_name: Seq<char>, i_port: Seq<char> },
    ConnectArray {
        o_name: Seq<char>,
        o_port: Seq<char>,
        o_selection: Seq<char>,
        i_name: Seq<char>,
        i_port: Seq<char>,
    },
    ConnectToArray {
        o_name: Seq<char>,
        o_port: Seq<char>,
        i_name: Seq<char>,
        i_port: Seq<char>,
        i_selection: Seq<char>,
    },
    ConnectArrayToArray {
        o_name: Seq<char>,
        o_port: Seq<char>,
        o_selection: Seq<char>,
        i_name: Seq<char>,
        i_port: Seq<char>,
        i_selection: Seq<char>,
    },
    AddOutputSelection { name: Seq<char>, port: Seq<char>, selection: Seq<char> },
    SoftAddInputSelection { name: Seq<char>, port: Seq<char>, selection: Seq<char> },
    AddExterior,
    StartIfNeeded { name: Seq<char> },
    BindSenderOutput { name: Seq<char>, port: Seq<char>, output: Seq<char> },
    DeliverTo { name: Seq<char>, port: Seq<char>, selection: Option<Seq<char>> },
}

impl View for EngineOp {
    type V = OpModel;

    open spec fn view(&self) -> OpModel {
        match self {
            EngineOp::AddNode { name, sort } => OpModel::AddNode { name: name@, sort: sort@ },
            EngineOp::RemoveNode { name } => OpModel::RemoveNode { name: name@ },
            EngineOp::Connect { o_name, o_port, i_name, i_port } => OpModel::Connect {
                o_name: o_name@,
                o_port: o_port@,
                i_name: i_name@,
                i_port: i_port@,
            },
            EngineOp::ConnectArray { o_name, o_port, o_selection, i_name, i_port } => {
                OpModel::ConnectArray {
                    o_name: o_name@,
                    o_port: o_port@,
                    o_selection: o_selection@,
                    i_name: i_name@,
                    i_port: i_port@,
                }
            },
            EngineOp::ConnectToArray { o_name, o_port, i_name, i_port, i_selection } => {
                OpModel::ConnectToArray {
                    o_name: o_name@,
                    o_port: o_port@,
                    i_name: i_name@,
                    i_port: i_port@,
                    i_selection: i_selection@,
                }
            },
            EngineOp::ConnectArrayToArray {
                o_name,
                o_port,
                o_selection,
                i_name,
                i_port,
                i_selection,
            } => OpModel::ConnectArrayToArray {
                o_name: o_name@,
                o_port: o_port@,
                o_selection: o_selection@,
                i_name: i_name@,
                i_port: i_port@,
                i_selection: i_selection@,
            },
            EngineOp::AddOutputSelection { name, port, selection } => {
                OpModel::AddOutputSelection { name: name@, port: port@, selection: selection@ }
            },
            EngineOp::SoftAddInputSelection { name, port, selection } => {
                OpModel::SoftAddInputSelection { name: name@, port: port@, selection: selection@ }
            },
            EngineOp::AddExterior => OpModel::AddExterior,
            EngineOp::StartIfNeeded { name } => OpModel::StartIfNeeded { name: name@ },
            EngineOp::BindSenderOutput { name, port, output } => {
                OpModel::BindSenderOutput { name: name@, port: port@, output: output@ }
            },
            EngineOp::DeliverTo { name, port, selection } => {
                OpModel::DeliverTo { name: name@, port: port@, selection: opt_view(*selection) }
            },
        }
    }
}

/// One step of a command: an engine call, an outbound emission, a paired
/// receive, or the delivery of a received payload.
#[derive(Debug, PartialEq, Eq)]
pub enum Step {
    /// Perform this Execution Engine call.
    Call { op: EngineOp },
    /// Emit a generated one-node graph description wrapping the component
    /// `node_sort`, to the collaborator that produces graph bodies.
    AskGraph { path: String, node_name: String, node_sort: String },
    /// Ask the path-resolution collaborator for the location of `edge`
    /// and await its answer before going on.
    ResolvePath { edge: String },
    /// Emit the generated path derived for the current literal value.
    EmitIipPath { path: String },
    /// Emit the generated camel-case identifier for the current literal value.
    EmitIipEdge { text: String },
    /// Emit the literal text of the current value.
    EmitIipInput { text: String },
    /// Await the finalized literal message coming back.
    AwaitIip,
    /// Deliver the awaited literal message through the exterior node's
    /// slot, first tagging it with `action` when one was given.
    DeliverIip { action: Option<String> },
    /// Await the payload message paired with the current command.
    AwaitPayload,
}

/// Mathematical content of a [`Step`].
pub ghost enum StepModel {
    Call { op: OpModel },
    AskGraph { path: Seq<char>, node_name: Seq<char>, node_sort: Seq<char> },
    ResolvePath { edge: Seq<char> },
    EmitIipPath { path: Seq<char> },
    EmitIipEdge { text: Seq<char> },
    EmitIipInput { text: Seq<char> },
    AwaitIip,
    DeliverIip { action: Option<Seq<char>> },
    AwaitPayload,
}

impl View for Step {
    type V = StepModel;

    open spec fn view(&self) -> StepModel {
        match self {
            Step::Call { op } => StepModel::Call { op: op@ },
            Step::AskGraph { path, node_name, node_sort } => StepModel::AskGraph {
                path: path@,
                node_name: node_name@,
                node_sort: node_sort@,
            },
            Step::ResolvePath { edge } => StepModel::ResolvePath { edge: edge@ },
            Step::EmitIipPath { path } => StepModel::EmitIipPath { path: path@ },
            Step::EmitIipEdge { text } => StepModel::EmitIipEdge { text: text@ },
            Step::EmitIipInput { text } => StepModel::EmitIipInput { text: text@ },
            Step::AwaitIip => StepModel::AwaitIip,
            Step::DeliverIip { action } => StepModel::DeliverIip { action: opt_view(*action) },
            Step::AwaitPayload => StepModel::AwaitPayload,
        }
    }
}

/// View of a script, step by step.
pub open spec fn steps_view(s: Seq<Step>) -> Seq<StepModel> {
    s.map_values(|x: Step| x@)
}

/// View of a sequence of engine calls.
pub open spec fn ops_view(s: Seq<EngineOp>) -> Seq<OpModel> {
    s.map_values(|x: EngineOp| x@)
}

/// Lifts engine calls to script steps.
pub open spec fn calls(s: Seq<OpModel>) -> Seq<StepModel> {
    s.map_values(|op: OpModel| StepModel::Call { op })
}

/// Appends a sequence of engine calls to a script, each as one step.
pub fn push_calls(steps: &mut Vec<Step>, ops: Vec<EngineOp>)
    ensures
        steps_view(final(steps)@) == steps_view(old(steps)@) + calls(ops_view(ops@)),
{
    let ghost all = ops@;
    let mut ops = ops;
    proof {
        assert(ops@ =~= all.skip(0));
        assert(calls(ops_view(all.take(0))) =~= Seq::<StepModel>::empty());
        assert(steps_view(steps@) =~= steps_view(old(steps)@) + calls(ops_view(all.take(0))));
    }
    while ops.len() > 0
        invariant
            ops@.len() <= all.len(),
            ops@ == all.skip(all.len() - ops@.len()),
            steps_view(steps@) == steps_view(old(steps)@) + calls(
                ops_view(all.take(all.len() - ops@.len())),
            ),
        decreases ops@.len(),
    {
        let ghost k = all.len() - ops@.len();
        let op = ops.remove(0);
        let ghost opv = op@;
        proof {
            assert(op == all[k as int]);
            assert(ops@ =~= all.skip(k as int + 1));
        }
        let ghost steps_before = steps@;
        steps.push(Step::Call { op });
        proof {
            assert(ops_view(all.take(k as int + 1)) =~= ops_view(all.take(k as int)).push(opv));
            assert(calls(ops_view(all.take(k as int)).push(opv)) =~= calls(
                ops_view(all.take(k as int)),
            ).push(StepModel::Call { op: opv }));
            assert(steps_view(steps@) =~= steps_view(steps_before).push(
                StepModel::Call { op: opv },
            ));
            assert(steps_view(steps@) =~= steps_view(old(steps)@) + calls(
                ops_view(all.take(k as int + 1)),
            ));
        }
    }
    proof {
        assert(all.take(all.len() as int) =~= all);
    }
}

} // verus!
