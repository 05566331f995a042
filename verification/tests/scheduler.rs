use flow_scheduler::agent::{handle_action, resolve_input, resolve_output, Action, Portal};
use flow_scheduler::engine::EngineMirror;
use flow_scheduler::loader::{add_graph, EdgeDef, ExtDef, GraphDef, IipDef, NodeDef};
use flow_scheduler::ops::{EngineOp, Step};
use flow_scheduler::policy::connect_ports;
use flow_scheduler::subgraph::Subgraph;
use flow_scheduler::text::{
    capitalize_first_letter, find_char_at, rfind_char_at, split_input, str_eq, to_camel_case,
    ParseError,
};

fn s(x: &str) -> String {
    x.to_string()
}

fn empty_graph() -> GraphDef {
    GraphDef {
        nodes: Vec::new(),
        edges: Vec::new(),
        external_inputs: Vec::new(),
        external_outputs: Vec::new(),
        iips: Vec::new(),
    }
}

fn node(name: &str, sort: &str) -> NodeDef {
    NodeDef { name: s(name), sort: s(sort) }
}

fn edge(o_name: &str, o_port: &str, o_sel: &str, i_name: &str, i_port: &str, i_sel: &str) -> EdgeDef {
    EdgeDef {
        o_name: s(o_name),
        o_port: s(o_port),
        o_selection: s(o_sel),
        i_name: s(i_name),
        i_port: s(i_port),
        i_selection: s(i_sel),
    }
}

// --- string utilities ---

#[test]
fn split_plain() {
    assert_eq!(split_input("a:b"), Ok((s("a"), s("b"), None)));
}

#[test]
fn split_with_action() {
    assert_eq!(split_input("a:b~c"), Ok((s("a"), s("b"), Some(s("c")))));
}

#[test]
fn split_without_separator_fails() {
    assert_eq!(split_input("ab"), Err(ParseError::BadIipSyntax));
}

#[test]
fn split_tilde_only_after_colon() {
    // the `~` before the `:` belongs to the edge, not to an action tag
    assert_eq!(split_input("a~x:b"), Ok((s("a~x"), s("b"), None)));
}

#[test]
fn split_empty_parts() {
    assert_eq!(split_input(":"), Ok((s(""), s(""), None)));
}

#[test]
fn camel_two_segments() {
    assert_eq!(to_camel_case("foo_bar"), s("FooBar"));
}

#[test]
fn camel_single_letter() {
    assert_eq!(to_camel_case("x"), s("X"));
}

#[test]
fn camel_empty_and_empty_segments() {
    assert_eq!(to_camel_case(""), s(""));
    assert_eq!(to_camel_case("a__b"), s("AB"));
    assert_eq!(to_camel_case("_a_"), s("A"));
}

#[test]
fn capitalize_first() {
    assert_eq!(capitalize_first_letter("foo"), s("Foo"));
    assert_eq!(capitalize_first_letter("Zed"), s("Zed"));
    assert_eq!(capitalize_first_letter("9a"), s("9a"));
}

#[test]
fn find_helpers() {
    assert_eq!(find_char_at("a:b:c", ':'), Some(1));
    assert_eq!(find_char_at("abc", ':'), None);
    assert_eq!(rfind_char_at("a-b-c", '-'), Some(3));
    assert_eq!(rfind_char_at("abc", '-'), None);
    assert!(str_eq("abc", "abc"));
    assert!(!str_eq("abc", "abd"));
    assert!(!str_eq("abc", "ab"));
}

// --- port-connection policy: the four wiring cases ---

#[test]
fn policy_scalar_scalar() {
    let ops = connect_ports("a", "out", "", "b", "in", "");
    assert_eq!(
        ops,
        vec![EngineOp::Connect {
            o_name: s("a"),
            o_port: s("out"),
            i_name: s("b"),
            i_port: s("in"),
        }]
    );
}

#[test]
fn policy_array_out_scalar_in() {
    let ops = connect_ports("a", "out", "1", "b", "in", "");
    assert_eq!(
        ops,
        vec![
            EngineOp::AddOutputSelection { name: s("a"), port: s("out"), selection: s("1") },
            EngineOp::ConnectArray {
                o_name: s("a"),
                o_port: s("out"),
                o_selection: s("1"),
                i_name: s("b"),
                i_port: s("in"),
            },
        ]
    );
}

#[test]
fn policy_scalar_out_array_in() {
    let ops = connect_ports("a", "out", "", "b", "in", "2");
    assert_eq!(
        ops,
        vec![
            EngineOp::SoftAddInputSelection { name: s("b"), port: s("in"), selection: s("2") },
            EngineOp::ConnectToArray {
                o_name: s("a"),
                o_port: s("out"),
                i_name: s("b"),
                i_port: s("in"),
                i_selection: s("2"),
            },
        ]
    );
}

#[test]
fn policy_array_array() {
    let ops = connect_ports("a", "out", "1", "b", "in", "2");
    assert_eq!(
        ops,
        vec![
            EngineOp::AddOutputSelection { name: s("a"), port: s("out"), selection: s("1") },
            EngineOp::SoftAddInputSelection { name: s("b"), port: s("in"), selection: s("2") },
            EngineOp::ConnectArrayToArray {
                o_name: s("a"),
                o_port: s("out"),
                o_selection: s("1"),
                i_name: s("b"),
                i_port: s("in"),
                i_selection: s("2"),
            },
        ]
    );
}

// --- engine registration state: soft input registration is idempotent ---

#[test]
fn input_registration_twice_registers_once() {
    let mut mirror = EngineMirror::new();
    let op = EngineOp::SoftAddInputSelection { name: s("b"), port: s("in"), selection: s("2") };
    mirror.apply(&op);
    assert_eq!(mirror.input_slot_count(), 1);
    mirror.apply(&op);
    assert_eq!(mirror.input_slot_count(), 1);
    assert_eq!(mirror.output_slot_count(), 0);
}

// --- alias resolution ---

#[test]
fn resolve_through_alias() {
    let mut sub = Subgraph::new();
    sub.insert_ext_in(s("pub"), s("n1"), s("in"));
    let mut portal = Portal::new();
    portal.insert_subgraph(s("sub"), sub);
    assert_eq!(resolve_input(&portal, "sub", "pub"), (s("n1"), s("in")));
}

#[test]
fn resolve_unmapped_port_unchanged() {
    let mut sub = Subgraph::new();
    sub.insert_ext_in(s("pub"), s("n1"), s("in"));
    let mut portal = Portal::new();
    portal.insert_subgraph(s("sub"), sub);
    assert_eq!(resolve_input(&portal, "sub", "other"), (s("sub"), s("other")));
    // an input alias does not resolve in the output direction
    assert_eq!(resolve_output(&portal, "sub", "pub"), (s("sub"), s("pub")));
}

#[test]
fn resolve_unknown_name_unchanged() {
    let portal = Portal::new();
    assert_eq!(resolve_input(&portal, "nd", "p"), (s("nd"), s("p")));
}

// --- graph loading ---

#[test]
fn load_two_nodes_one_edge() {
    let mut portal = Portal::new();
    let graph = GraphDef {
        nodes: vec![node("A", "ca"), node("B", "cb")],
        edges: vec![edge("A", "out", "", "B", "in", "")],
        ..
        empty_graph()
    };
    let paths: Vec<String> = Vec::new();
    let out = add_graph(&mut portal, "main", &graph, &paths);
    assert_eq!(out.error, None);
    assert_eq!(
        out.steps,
        vec![
            Step::Call { op: EngineOp::AddNode { name: s("A"), sort: s("ca") } },
            Step::Call { op: EngineOp::AddNode { name: s("B"), sort: s("cb") } },
            Step::Call {
                op: EngineOp::Connect {
                    o_name: s("A"),
                    o_port: s("out"),
                    i_name: s("B"),
                    i_port: s("in"),
                },
            },
            Step::Call { op: EngineOp::AddExterior },
            Step::Call { op: EngineOp::StartIfNeeded { name: s("A") } },
            Step::Call { op: EngineOp::StartIfNeeded { name: s("B") } },
        ]
    );
    assert!(portal.get_subgraph("main").is_some());
}

#[test]
fn load_iip_without_action() {
    let mut portal = Portal::new();
    let graph = GraphDef {
        nodes: vec![node("B", "cb")],
        iips: vec![IipDef { comp: s("B"), port: s("in"), selection: s(""), iip: s("e1:42") }],
        ..
        empty_graph()
    };
    let paths = vec![s("/lib/e1")];
    let out = add_graph(&mut portal, "main", &graph, &paths);
    assert_eq!(out.error, None);
    assert_eq!(
        out.steps,
        vec![
            Step::Call { op: EngineOp::AddNode { name: s("B"), sort: s("cb") } },
            Step::Call { op: EngineOp::AddExterior },
            Step::ResolvePath { edge: s("e1") },
            Step::Call {
                op: EngineOp::Connect {
                    o_name: s("exterior"),
                    o_port: s("s"),
                    i_name: s("B"),
                    i_port: s("in"),
                },
            },
            Step::EmitIipPath { path: s("/lib/e1/src/edge.capnp") },
            Step::EmitIipEdge { text: s("E1") },
            Step::EmitIipInput { text: s("42") },
            Step::AwaitIip,
            Step::DeliverIip { action: None },
            Step::Call { op: EngineOp::StartIfNeeded { name: s("B") } },
        ]
    );
}

#[test]
fn load_iip_with_action_tag() {
    let mut portal = Portal::new();
    let graph = GraphDef {
        nodes: vec![node("B", "cb")],
        iips: vec![IipDef { comp: s("B"), port: s("in"), selection: s(""), iip: s("e1:42~reset") }],
        ..
        empty_graph()
    };
    let paths = vec![s("/lib/e1")];
    let out = add_graph(&mut portal, "main", &graph, &paths);
    assert_eq!(out.error, None);
    assert!(out.steps.contains(&Step::DeliverIip { action: Some(s("reset")) }));
    assert!(out.steps.contains(&Step::EmitIipInput { text: s("42") }));
}

#[test]
fn load_iip_indexed_target() {
    let mut portal = Portal::new();
    let graph = GraphDef {
        nodes: vec![node("B", "cb")],
        iips: vec![IipDef { comp: s("B"), port: s("in"), selection: s("3"), iip: s("e1:v") }],
        ..
        empty_graph()
    };
    let paths = vec![s("/lib/e1")];
    let out = add_graph(&mut portal, "main", &graph, &paths);
    assert_eq!(out.error, None);
    assert!(out.steps.contains(&Step::Call {
        op: EngineOp::SoftAddInputSelection { name: s("B"), port: s("in"), selection: s("3") },
    }));
    assert!(out.steps.contains(&Step::Call {
        op: EngineOp::ConnectToArray {
            o_name: s("exterior"),
            o_port: s("s"),
            i_name: s("B"),
            i_port: s("in"),
            i_selection: s("3"),
        },
    }));
}

#[test]
fn load_iip_hyphened_edge_camel_cases_last_segment() {
    let mut portal = Portal::new();
    let graph = GraphDef {
        nodes: vec![node("B", "cb")],
        iips: vec![IipDef {
            comp: s("B"),
            port: s("in"),
            selection: s(""),
            iip: s("acme-core-gen_text:v"),
        }],
        ..
        empty_graph()
    };
    let paths = vec![s("/lib/x")];
    let out = add_graph(&mut portal, "main", &graph, &paths);
    assert_eq!(out.error, None);
    assert!(out.steps.contains(&Step::EmitIipEdge { text: s("GenText") }));
}

#[test]
fn load_bad_iip_aborts_without_storing() {
    let mut portal = Portal::new();
    let graph = GraphDef {
        nodes: vec![node("B", "cb")],
        iips: vec![IipDef { comp: s("B"), port: s("in"), selection: s(""), iip: s("nocolon") }],
        ..
        empty_graph()
    };
    let paths = vec![s("/lib/e1")];
    let out = add_graph(&mut portal, "main", &graph, &paths);
    assert_eq!(out.error, Some(ParseError::BadIipSyntax));
    // the steps before the failure stand; nothing after it does
    assert_eq!(
        out.steps,
        vec![
            Step::Call { op: EngineOp::AddNode { name: s("B"), sort: s("cb") } },
            Step::Call { op: EngineOp::AddExterior },
        ]
    );
    assert!(portal.get_subgraph("main").is_none());
}

#[test]
fn load_records_aliases() {
    let mut portal = Portal::new();
    let graph = GraphDef {
        nodes: vec![node("n1", "c")],
        external_inputs: vec![ExtDef { name: s("pub"), comp: s("n1"), port: s("in") }],
        external_outputs: vec![ExtDef { name: s("out"), comp: s("n1"), port: s("o") }],
        ..
        empty_graph()
    };
    let paths: Vec<String> = Vec::new();
    let out = add_graph(&mut portal, "sub", &graph, &paths);
    assert_eq!(out.error, None);
    assert_eq!(resolve_input(&portal, "sub", "pub"), (s("n1"), s("in")));
    assert_eq!(resolve_output(&portal, "sub", "out"), (s("n1"), s("o")));
}

// --- dispatch ---

#[test]
fn add_then_remove_undoes_the_load() {
    let mut portal = Portal::new();
    let graph = GraphDef {
        nodes: vec![node("A", "ca"), node("B", "cb")],
        ..
        empty_graph()
    };
    let paths: Vec<String> = Vec::new();
    let out = add_graph(&mut portal, "main", &graph, &paths);
    assert_eq!(out.error, None);
    let steps = handle_action(&mut portal, &Action::Remove { name: s("main") });
    assert_eq!(
        steps,
        vec![
            Step::Call { op: EngineOp::RemoveNode { name: s("A") } },
            Step::Call { op: EngineOp::RemoveNode { name: s("B") } },
        ]
    );
    assert!(portal.get_subgraph("main").is_none());
}

#[test]
fn remove_unknown_name_is_forwarded() {
    let mut portal = Portal::new();
    let steps = handle_action(&mut portal, &Action::Remove { name: s("ghost_node") });
    assert_eq!(steps, vec![Step::Call { op: EngineOp::RemoveNode { name: s("ghost_node") } }]);
}

#[test]
fn dispatch_add_emits_one_node_graph_request() {
    let mut portal = Portal::new();
    let steps = handle_action(&mut portal, &Action::Add { name: s("n"), comp: s("c") });
    assert_eq!(
        steps,
        vec![Step::AskGraph { path: s("c"), node_name: s("n"), node_sort: s("c") }]
    );
}

#[test]
fn dispatch_connect_resolves_both_ends() {
    let mut sub = Subgraph::new();
    sub.insert_ext_out(s("po"), s("n1"), s("out"));
    sub.insert_ext_in(s("pi"), s("n2"), s("in"));
    let mut portal = Portal::new();
    portal.insert_subgraph(s("sub"), sub);
    let steps = handle_action(
        &mut portal,
        &Action::Connect {
            o_name: s("sub"),
            o_port: s("po"),
            o_selection: s(""),
            i_name: s("sub"),
            i_port: s("pi"),
            i_selection: s(""),
        },
    );
    assert_eq!(
        steps,
        vec![Step::Call {
            op: EngineOp::Connect {
                o_name: s("n1"),
                o_port: s("out"),
                i_name: s("n2"),
                i_port: s("in"),
            },
        }]
    );
}

#[test]
fn dispatch_connect_sender() {
    let mut portal = Portal::new();
    let steps = handle_action(
        &mut portal,
        &Action::ConnectSender {
            name: s("n"),
            port: s("p"),
            selection: s(""),
            output: s("4"),
        },
    );
    assert_eq!(
        steps,
        vec![Step::Call {
            op: EngineOp::BindSenderOutput { name: s("n"), port: s("p"), output: s("4") },
        }]
    );
}

#[test]
fn dispatch_send_scalar_and_indexed() {
    let mut portal = Portal::new();
    let steps = handle_action(
        &mut portal,
        &Action::Send { comp: s("n"), port: s("p"), selection: s("") },
    );
    assert_eq!(
        steps,
        vec![
            Step::AwaitPayload,
            Step::Call {
                op: EngineOp::DeliverTo { name: s("n"), port: s("p"), selection: None },
            },
        ]
    );
    let steps = handle_action(
        &mut portal,
        &Action::Send { comp: s("n"), port: s("p"), selection: s("7") },
    );
    assert_eq!(
        steps,
        vec![
            Step::AwaitPayload,
            Step::Call {
                op: EngineOp::DeliverTo { name: s("n"), port: s("p"), selection: Some(s("7")) },
            },
        ]
    );
}

#[test]
fn reload_replaces_subgraph_entry() {
    let mut portal = Portal::new();
    let g1 = GraphDef { nodes: vec![node("A", "c")], ..empty_graph() };
    let g2 = GraphDef { nodes: vec![node("B", "c")], ..empty_graph() };
    let paths: Vec<String> = Vec::new();
    add_graph(&mut portal, "main", &g1, &paths);
    add_graph(&mut portal, "main", &g2, &paths);
    let steps = handle_action(&mut portal, &Action::Remove { name: s("main") });
    assert_eq!(steps, vec![Step::Call { op: EngineOp::RemoveNode { name: s("B") } }]);
}

#[test]
fn subgraph_lookup() {
    let mut sub = Subgraph::new();
    sub.insert_ext_in(s("a"), s("n1"), s("p1"));
    sub.insert_ext_in(s("a"), s("n2"), s("p2"));
    assert_eq!(sub.lookup_ext_in("a"), Some((s("n2"), s("p2"))));
    assert_eq!(sub.lookup_ext_in("b"), None);
    assert_eq!(sub.lookup_ext_out("a"), None);
    sub.record_node(s("n1"));
    assert_eq!(sub.node_names(), &vec![s("n1")]);
}
