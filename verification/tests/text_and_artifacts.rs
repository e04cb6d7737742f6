use iiot_fusion::artifact::{artifact_kind, ends_with, ArtifactKind};
use iiot_fusion::text::{joined, str_equal, u32_to_decimal};
use iiot_fusion::types::{FlowMsg, TagValue, ValueKind};

#[test]
fn decimal_numerals() {
    assert_eq!(u32_to_decimal(0), "0");
    assert_eq!(u32_to_decimal(7), "7");
    assert_eq!(u32_to_decimal(10), "10");
    assert_eq!(u32_to_decimal(909), "909");
    assert_eq!(u32_to_decimal(1_234_567_890), "1234567890");
    assert_eq!(u32_to_decimal(u32::MAX), "4294967295");
    for n in [1u32, 9, 11, 99, 100, 101, 65535, 65536, 1_000_000_000] {
        assert_eq!(u32_to_decimal(n), n.to_string());
    }
}

#[test]
fn string_slices_compare_by_their_characters() {
    assert!(str_equal("", ""));
    assert!(str_equal("name", "name"));
    assert!(str_equal("°C → °F", "°C → °F"));
    assert!(!str_equal("name", "names"));
    assert!(!str_equal("name", "nama"));
    assert!(!str_equal("", "x"));
    assert!(!str_equal("é", "e"));
}

#[test]
fn joined_text() {
    assert_eq!(joined("tag_", "12"), "tag_12");
    assert_eq!(joined("", ""), "");
}

#[test]
fn suffixes() {
    assert!(ends_with("abc", "bc"));
    assert!(ends_with("abc", ""));
    assert!(ends_with("abc", "abc"));
    assert!(!ends_with("abc", "xabc"));
    assert!(!ends_with("abc", "ab"));
    assert!(ends_with("溫度.cwasm", ".cwasm"));
}

#[test]
fn precompiled_artifacts_end_in_cwasm() {
    assert_eq!(artifact_kind("fused.cwasm"), ArtifactKind::Precompiled);
    assert_eq!(artifact_kind("/opt/plugins/pipeline.v2.cwasm"), ArtifactKind::Precompiled);
    assert_eq!(artifact_kind(".cwasm"), ArtifactKind::Precompiled);
}

#[test]
fn every_other_artifact_is_compiled_at_load() {
    assert_eq!(artifact_kind("node_a.wasm"), ArtifactKind::Source);
    assert_eq!(artifact_kind("fused.cwasm.bak"), ArtifactKind::Source);
    assert_eq!(artifact_kind("fused.CWASM"), ArtifactKind::Source);
    assert_eq!(artifact_kind("cwasm"), ArtifactKind::Source);
    assert_eq!(artifact_kind(""), ArtifactKind::Source);
    assert_eq!(artifact_kind("fusedcwasm"), ArtifactKind::Source);
}

#[test]
fn kind_is_read_off_the_variant() {
    assert_eq!(TagValue::BoolVal(true).kind(), ValueKind::BoolVal);
    assert_eq!(TagValue::I32Val(-1).kind(), ValueKind::I32Val);
    assert_eq!(TagValue::U32Val(1).kind(), ValueKind::U32Val);
    assert_eq!(TagValue::F32Val(0).kind(), ValueKind::F32Val);
    assert_eq!(TagValue::F64Val(0).kind(), ValueKind::F64Val);
    assert_eq!(TagValue::ShortStr(String::new()).kind(), ValueKind::ShortStr);
    assert_eq!(TagValue::Blob(vec![]).kind(), ValueKind::Blob);
}

#[test]
fn copies_of_messages_hold_the_same() {
    let m = FlowMsg { tag_id: 1, msg_id: 2, value: TagValue::ShortStr("on".to_string()), timestamp: 3, quality: 4 };
    for copy in [m.clone(), m.clone().clone()] {
        assert_eq!(copy.tag_id, 1);
        assert_eq!(copy.msg_id, 2);
        assert_eq!(copy.timestamp, 3);
        assert_eq!(copy.quality, 4);
        assert!(matches!(&copy.value, TagValue::ShortStr(s) if s == "on"));
    }
    let b = TagValue::Blob(vec![1, 2, 3]);
    assert!(matches!(b.clone(), TagValue::Blob(v) if v == vec![1, 2, 3]));
}
