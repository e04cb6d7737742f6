use iiot_fusion::nodes::node_b::{NodeB, HIGH_ALARM, LOW_ALARM};
use iiot_fusion::types::{FlowMsg, TagValue, ValueKind};

fn reading(value: f64, quality: u8) -> FlowMsg {
    FlowMsg { tag_id: 1, msg_id: 7, value: TagValue::F64Val(value.to_bits()), timestamp: 1234, quality }
}

fn double_of(msg: &FlowMsg) -> f64 {
    match msg.value {
        TagValue::F64Val(bits) => f64::from_bits(bits),
        _ => panic!("not a double"),
    }
}

#[test]
fn alarm_band_edges_are_32_and_104() {
    assert_eq!(HIGH_ALARM, 104.0f64.to_bits());
    assert_eq!(LOW_ALARM, 32.0f64.to_bits());
}

#[test]
fn node_b_meta() {
    assert_eq!(NodeB::accepted_input_types(), vec![ValueKind::F64Val]);
    assert_eq!(NodeB::output_type(), ValueKind::F64Val);
    assert_eq!(NodeB::name(), "node-b:quality-filter");
    assert_eq!(NodeB::version(), "0.1.0");
}

#[test]
fn good_reading_inside_band_passes_unchanged() {
    let out = NodeB::process(reading(77.0, 0));
    assert_eq!(out.len(), 1);
    assert_eq!(double_of(&out[0]), 77.0);
    assert_eq!(out[0].quality, 0);
    assert_eq!(out[0].tag_id, 1);
    assert_eq!(out[0].msg_id, 7);
    assert_eq!(out[0].timestamp, 1234);
}

#[test]
fn reading_of_100_4_is_inside_the_band() {
    let out = NodeB::process(reading(38.0 * 9.0 / 5.0 + 32.0, 0));
    assert_eq!(out.len(), 1);
    assert_eq!(out[0].quality, 0);
}

#[test]
fn uncertain_reading_inside_band_stays_uncertain() {
    let out = NodeB::process(reading(50.0, 1));
    assert_eq!(out.len(), 1);
    assert_eq!(out[0].quality, 1);
}

#[test]
fn bad_quality_is_dropped() {
    assert!(NodeB::process(reading(68.0, 2)).is_empty());
    assert!(NodeB::process(reading(68.0, 255)).is_empty());
}

#[test]
fn reading_outside_band_becomes_uncertain_with_value_unchanged() {
    for v in [104.5, 31.5, -5.0, 1e9, f64::INFINITY, f64::NEG_INFINITY, -0.0, 0.0] {
        let out = NodeB::process(reading(v, 0));
        assert_eq!(out.len(), 1);
        assert_eq!(out[0].quality, 1, "value {}", v);
        assert_eq!(double_of(&out[0]).to_bits(), v.to_bits());
    }
}

#[test]
fn band_edges_are_inside() {
    assert_eq!(NodeB::process(reading(104.0, 0))[0].quality, 0);
    assert_eq!(NodeB::process(reading(32.0, 0))[0].quality, 0);
}

#[test]
fn nan_reading_keeps_its_quality() {
    let out = NodeB::process(reading(f64::NAN, 0));
    assert_eq!(out.len(), 1);
    assert_eq!(out[0].quality, 0);
}

#[test]
fn value_that_is_no_double_is_dropped_by_node_b() {
    let msg = FlowMsg { tag_id: 1, msg_id: 1, value: TagValue::I32Val(50), timestamp: 0, quality: 0 };
    assert!(NodeB::process(msg).is_empty());
    let msg = FlowMsg { tag_id: 1, msg_id: 1, value: TagValue::F32Val(50.0f32.to_bits()), timestamp: 0, quality: 0 };
    assert!(NodeB::process(msg).is_empty());
}

#[test]
fn node_b_takes_no_raw_input_and_has_no_state() {
    assert!(NodeB::process_raw(1, 1, vec![1, 2, 3]).is_empty());
    assert!(NodeB::save_state().is_empty());
    NodeB::load_state(vec![9, 9]);
}
