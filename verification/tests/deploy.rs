use iiot_fusion::deploy::{deploy, is_compatible, kind_name, type_check, NodeMeta, TypeMismatch};
use iiot_fusion::nodes::node_a::NodeA;
use iiot_fusion::nodes::node_b::NodeB;
use iiot_fusion::nodes::node_c::NodeC;
use iiot_fusion::nodes::sink::SinkNode;
use iiot_fusion::nodes::source::SourceNode;
use iiot_fusion::types::ValueKind;

fn node(name: &str, accepted: Vec<ValueKind>, output: ValueKind) -> NodeMeta {
    NodeMeta { name: name.to_string(), accepted_input_types: accepted, output_type: output }
}

fn reference_nodes() -> Vec<NodeMeta> {
    vec![
        node(&SourceNode::name(), SourceNode::accepted_input_types(), SourceNode::output_type()),
        node(&NodeA::name(), NodeA::accepted_input_types(), NodeA::output_type()),
        node(&NodeB::name(), NodeB::accepted_input_types(), NodeB::output_type()),
        node(&NodeC::name(), NodeC::accepted_input_types(), NodeC::output_type()),
        node(&SinkNode::name(), SinkNode::accepted_input_types(), SinkNode::output_type()),
    ]
}

#[test]
fn listed_kind_is_compatible() {
    assert!(is_compatible(ValueKind::F64Val, &[ValueKind::F32Val, ValueKind::F64Val]));
    assert!(is_compatible(ValueKind::F64Val, &[ValueKind::F64Val]));
}

#[test]
fn unlisted_kind_is_not_compatible() {
    assert!(!is_compatible(ValueKind::F64Val, &[ValueKind::I32Val]));
    assert!(!is_compatible(ValueKind::Blob, &[ValueKind::BoolVal, ValueKind::ShortStr]));
    assert!(!is_compatible(ValueKind::F64Val, &[]));
}

#[test]
fn wildcard_on_either_side_is_compatible() {
    assert!(is_compatible(ValueKind::Any, &[]));
    assert!(is_compatible(ValueKind::Any, &[ValueKind::I32Val]));
    assert!(is_compatible(ValueKind::Blob, &[ValueKind::I32Val, ValueKind::Any]));
    assert!(is_compatible(ValueKind::Any, &[ValueKind::Any]));
}

#[test]
fn type_check_passes_a_compatible_edge() {
    assert!(type_check("a", ValueKind::F64Val, "b", &[ValueKind::F64Val]).is_ok());
    assert!(type_check("src", ValueKind::Any, "a", &[ValueKind::F32Val]).is_ok());
}

#[test]
fn type_check_names_both_endpoints_and_their_kinds() {
    let e: TypeMismatch =
        type_check("node-a", ValueKind::F64Val, "node-b", &[ValueKind::I32Val, ValueKind::Blob]).unwrap_err();
    assert_eq!(e.from, "node-a");
    assert_eq!(e.from_out, ValueKind::F64Val);
    assert_eq!(e.to, "node-b");
    assert_eq!(e.to_in, vec![ValueKind::I32Val, ValueKind::Blob]);
}

#[test]
fn diagnostic_is_one_line_with_both_endpoints() {
    let e = type_check("node-a", ValueKind::F64Val, "node-b", &[ValueKind::I32Val]).unwrap_err();
    assert_eq!(e.message(), "❌ 型別不符  node-a (F64Val) → node-b ([I32Val])");
    let e = type_check("x", ValueKind::Blob, "y", &[ValueKind::F32Val, ValueKind::F64Val, ValueKind::ShortStr])
        .unwrap_err();
    assert_eq!(e.message(), "❌ 型別不符  x (Blob) → y ([F32Val, F64Val, ShortStr])");
    let e = type_check("x", ValueKind::BoolVal, "y", &[]).unwrap_err();
    assert_eq!(e.message(), "❌ 型別不符  x (BoolVal) → y ([])");
    assert!(!e.message().contains('\n'));
}

#[test]
fn kind_names() {
    assert_eq!(kind_name(ValueKind::BoolVal), "BoolVal");
    assert_eq!(kind_name(ValueKind::I32Val), "I32Val");
    assert_eq!(kind_name(ValueKind::U32Val), "U32Val");
    assert_eq!(kind_name(ValueKind::F32Val), "F32Val");
    assert_eq!(kind_name(ValueKind::F64Val), "F64Val");
    assert_eq!(kind_name(ValueKind::ShortStr), "ShortStr");
    assert_eq!(kind_name(ValueKind::Blob), "Blob");
    assert_eq!(kind_name(ValueKind::Any), "Any");
}

#[test]
fn reference_pipeline_deploys() {
    let pipeline = deploy(reference_nodes()).unwrap();
    assert_eq!(pipeline.len(), 5);
    assert_eq!(pipeline.node_name(0), "source-node:protobuf-tag-update");
    assert_eq!(pipeline.node_name(2), "node-b:quality-filter");
    assert_eq!(pipeline.node_name(4), "sink-node:protobuf-flow-result");
}

#[test]
fn node_b_accepting_only_i32_after_node_a_is_rejected() {
    let mut nodes = reference_nodes();
    nodes[2].accepted_input_types = vec![ValueKind::I32Val];
    let e = deploy(nodes).unwrap_err();
    assert_eq!(e.from, "node-a:unit-converter");
    assert_eq!(e.from_out, ValueKind::F64Val);
    assert_eq!(e.to, "node-b:quality-filter");
    assert_eq!(e.to_in, vec![ValueKind::I32Val]);
    let text = e.message();
    assert!(text.contains("node-a:unit-converter"));
    assert!(text.contains("node-b:quality-filter"));
    assert!(text.contains("F64Val"));
    assert!(text.contains("I32Val"));
}

#[test]
fn the_first_failing_edge_is_reported() {
    let nodes = vec![
        node("s", vec![], ValueKind::Any),
        node("a", vec![ValueKind::F64Val], ValueKind::I32Val),
        node("b", vec![ValueKind::F64Val], ValueKind::Blob),
        node("c", vec![ValueKind::ShortStr], ValueKind::Any),
    ];
    let e = deploy(nodes).unwrap_err();
    assert_eq!(e.from, "a");
    assert_eq!(e.to, "b");
}

#[test]
fn pipelines_without_an_edge_deploy() {
    assert_eq!(deploy(vec![]).unwrap().len(), 0);
    assert_eq!(deploy(vec![node("only", vec![], ValueKind::Blob)]).unwrap().len(), 1);
}
