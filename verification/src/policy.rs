//! The port-connection policy: which engine calls wire an output endpoint
//! to an input endpoint, depending on which of the two is indexed. An
//! indexed ("array") port needs its slot pre-allocated before a connection
//! into that slot is legal, and every registration comes before the
//! connect call that relies on it; scalar ports need no registration.

use vstd::prelude::*;
use crate::ops::{ops_view, EngineOp, OpModel};

verus! {

/// The engine calls that wire `o_name.o_port` to `i_name.i_port`, where an
/// empty selection means the endpoint is scalar: a scalar pair connects
/// directly; an indexed endpoint has its slot registered first, and the
/// matching indexed connect call follows. Registration of an input slot
/// is the engine's soft (repeatable) registration, because distinct
/// commands may wire into the same indexed input.
pub open spec fn connect_ops(
    o_name: Seq<char>,
    o_port: Seq<char>,
    o_selection: Seq<char>,
    i_name: Seq<char>,
    i_port: Seq<char>,
    i_selection: Seq<char>,
) -> Seq<OpModel> {
    if o_selection.len() == 0 && i_selection.len() == 0 {
        seq![OpModel::Connect { o_name, o_port, i_name, i_port }]
    } else if i_selection.len() == 0 {
        seq![
            OpModel::AddOutputSelection { name: o_name, port: o_port, selection: o_selection },
            OpModel::ConnectArray { o_name, o_port, o_selection, i_name, i_port },
        ]
    } else if o_selection.len() == 0 {
        seq![
            OpModel::SoftAddInputSelection { name: i_name, port: i_port, selection: i_selection },
            OpModel::ConnectToArray { o_name, o_port, i_name, i_port, i_selection },
        ]
    } else {
        seq![
            OpModel::AddOutputSelection { name: o_name, port: o_port, selection: o_selection },
            OpModel::SoftAddInputSelection { name: i_name, port: i_port, selection: i_selection },
            OpModel::ConnectArrayToArray {
                o_name,
                o_port,
                o_selection,
                i_name,
                i_port,
                i_selection,
            },
        ]
    }
}

/// Chooses the wiring procedure for one edge and returns its engine calls
/// in order.
pub fn connect_ports(
    o_name: &str,
    o_port: &str,
    o_selection: &str,
    i_name: &str,
    i_port: &str,
    i_selection: &str,
) -> (ops: Vec<EngineOp>)
    ensures
        ops_view(ops@) == connect_ops(o_name@, o_port@, o_selection@, i_name@, i_port@,
            i_selection@),
{
    let ops: Vec<EngineOp> = if o_selection.is_empty() && i_selection.is_empty() {
        vec![
            EngineOp::Connect {
                o_name: o_name.to_owned(),
                o_port: o_port.to_owned(),
                i_name: i_name.to_owned(),
                i_port: i_port.to_owned(),
            },
        ]
    } else if i_selection.is_empty() {
        vec![
            EngineOp::AddOutputSelection {
                name: o_name.to_owned(),
                port: o_port.to_owned(),
                selection: o_selection.to_owned(),
            },
            EngineOp::ConnectArray {
                o_name: o_name.to_owned(),
                o_port: o_port.to_owned(),
                o_selection: o_selection.to_owned(),
                i_name: i_name.to_owned(),
                i_port: i_port.to_owned(),
            },
        ]
    } else if o_selection.is_empty() {
        vec![
            EngineOp::SoftAddInputSelection {
                name: i_name.to_owned(),
                port: i_port.to_owned(),
                selection: i_selection.to_owned(),
            },
            EngineOp::ConnectToArray {
                o_name: o_name.to_owned(),
                o_port: o_port.to_owned(),
                i_name: i_name.to_owned(),
                i_port: i_port.to_owned(),
                i_selection: i_selection.to_owned(),
            },
        ]
    } else {
        vec![
            EngineOp::AddOutputSelection {
                name: o_name.to_owned(),
                port: o_port.to_owned(),
                selection: o_selection.to_owned(),
            },
            EngineOp::SoftAddInputSelection {
                name: i_name.to_owned(),
                port: i_port.to_owned(),
                selection: i_selection.to_owned(),
            },
            EngineOp::ConnectArrayToArray {
                o_name: o_name.to_owned(),
                o_port: o_port.to_owned(),
                o_selection: o_selection.to_owned(),
                i_name: i_name.to_owned(),
                i_port: i_port.to_owned(),
                i_selection: i_selection.to_owned(),
            },
        ]
    };
    proof {
        assert(ops_view(ops@) =~= connect_ops(o_name@, o_port@, o_selection@, i_name@, i_port@,
            i_selection@));
    }
    ops
}

} // verus!
