use iiot_fusion::host_api::{get_eng_range, get_tag_attr, log_debug};
use iiot_fusion::registry::{TagMeta, TagRegistry};

fn meta(name: &str, topic: &str, low: f64, high: f64) -> TagMeta {
    TagMeta::new(
        name.to_string(),
        "°C".to_string(),
        topic.to_string(),
        format!("PI:{}", name),
        "critical".to_string(),
        low.to_bits(),
        high.to_bits(),
    )
    .unwrap()
}

#[test]
fn first_tag_gets_number_one() {
    let mut reg = TagRegistry::new();
    assert_eq!(reg.len(), 0);
    assert_eq!(reg.get_or_create("plant1.motor3.temp", meta("a", "t/a", 0.0, 150.0)), 1);
    assert_eq!(reg.len(), 1);
}

#[test]
fn same_name_gives_same_number_and_new_names_get_the_next() {
    let mut reg = TagRegistry::new();
    let a = reg.get_or_create("a", meta("A", "t/a", 0.0, 1.0));
    let b = reg.get_or_create("b", meta("B", "t/b", 0.0, 1.0));
    let a2 = reg.get_or_create("a", meta("A2", "t/a2", 0.0, 1.0));
    let c = reg.get_or_create("c", meta("C", "t/c", 0.0, 1.0));
    let b2 = reg.get_or_create("b", meta("B2", "t/b2", 0.0, 1.0));
    assert_eq!((a, b, c), (1, 2, 3));
    assert_eq!(a2, a);
    assert_eq!(b2, b);
    assert_eq!(reg.len(), 3);
}

#[test]
fn numbers_of_distinct_names_are_distinct_and_below_next() {
    let mut reg = TagRegistry::new();
    let names = ["x", "y", "x", "z", "y", "w", "x", ""];
    let mut ids = Vec::new();
    for n in names.iter() {
        ids.push(reg.get_or_create(n, meta(n, "t", 0.0, 1.0)));
    }
    for i in 0..names.len() {
        assert!(ids[i] >= 1);
        assert!((ids[i] as usize) < reg.len() + 1);
        for j in 0..names.len() {
            assert_eq!(names[i] == names[j], ids[i] == ids[j]);
        }
    }
}

#[test]
fn metadata_of_a_known_name_is_not_overwritten() {
    let mut reg = TagRegistry::new();
    let id = reg.get_or_create("a", meta("first", "topic/first", 0.0, 150.0));
    reg.get_or_create("a", meta("second", "topic/second", 5.0, 6.0));
    assert_eq!(reg.get_attr(id, "name"), Some("first".to_string()));
    assert_eq!(reg.get_attr(id, "mqtt_topic"), Some("topic/first".to_string()));
    assert_eq!(reg.get_eng_range(id), Some((0.0f64.to_bits(), 150.0f64.to_bits())));
}

#[test]
fn every_attribute_key_is_served() {
    let mut reg = TagRegistry::new();
    let m = TagMeta::new(
        "Motor 3 Temperature".to_string(),
        "°C".to_string(),
        "factory/plant1/motor3/temperature".to_string(),
        "PI:plant1_motor3_temp".to_string(),
        "critical".to_string(),
        0.0f64.to_bits(),
        150.0f64.to_bits(),
    )
    .unwrap();
    let id = reg.get_or_create("plant1.motor3.temp", m);
    assert_eq!(reg.get_attr(id, "name"), Some("Motor 3 Temperature".to_string()));
    assert_eq!(reg.get_attr(id, "unit"), Some("°C".to_string()));
    assert_eq!(reg.get_attr(id, "mqtt_topic"), Some("factory/plant1/motor3/temperature".to_string()));
    assert_eq!(reg.get_attr(id, "historian_tag"), Some("PI:plant1_motor3_temp".to_string()));
    assert_eq!(reg.get_attr(id, "alarm_group"), Some("critical".to_string()));
}

#[test]
fn unknown_key_or_number_has_no_attribute() {
    let mut reg = TagRegistry::new();
    let id = reg.get_or_create("a", meta("A", "t/a", 0.0, 1.0));
    assert_eq!(reg.get_attr(id, "eng_low"), None);
    assert_eq!(reg.get_attr(id, ""), None);
    assert_eq!(reg.get_attr(id, "Name"), None);
    assert_eq!(reg.get_attr(id, "name "), None);
    assert_eq!(reg.get_attr(0, "name"), None);
    assert_eq!(reg.get_attr(2, "name"), None);
    assert_eq!(reg.get_attr(u32::MAX, "name"), None);
}

#[test]
fn engineering_range_of_unknown_number_is_absent() {
    let mut reg = TagRegistry::new();
    assert_eq!(reg.get_eng_range(1), None);
    reg.get_or_create("a", meta("A", "t/a", -10.0, 10.0));
    assert_eq!(reg.get_eng_range(1), Some(((-10.0f64).to_bits(), 10.0f64.to_bits())));
    assert_eq!(reg.get_eng_range(0), None);
    assert_eq!(reg.get_eng_range(2), None);
}

#[test]
fn metadata_needs_an_ordered_range() {
    let make = |low: f64, high: f64| {
        TagMeta::new(
            String::new(),
            String::new(),
            String::new(),
            String::new(),
            String::new(),
            low.to_bits(),
            high.to_bits(),
        )
    };
    assert!(make(0.0, 150.0).is_some());
    assert!(make(5.0, 5.0).is_some());
    assert!(make(-0.0, 0.0).is_some());
    assert!(make(0.0, -0.0).is_some());
    assert!(make(f64::NEG_INFINITY, f64::INFINITY).is_some());
    assert!(make(150.0, 0.0).is_none());
    assert!(make(1.0, -1.0).is_none());
    assert!(make(f64::NAN, 1.0).is_none());
    assert!(make(0.0, f64::NAN).is_none());
}

#[test]
fn metadata_getters_give_back_what_was_put_in() {
    let m = meta("A", "t/a", 1.5, 2.5);
    assert_eq!(m.name(), "A");
    assert_eq!(m.unit(), "°C");
    assert_eq!(m.mqtt_topic(), "t/a");
    assert_eq!(m.historian_tag(), "PI:A");
    assert_eq!(m.alarm_group(), "critical");
    assert_eq!(m.eng_range(), (1.5f64.to_bits(), 2.5f64.to_bits()));
    assert_eq!(m.attr("unit"), Some("°C".to_string()));
    assert_eq!(m.attr("nothing"), None);
    let copy = m.clone();
    assert_eq!(copy.name(), "A");
    assert_eq!(copy.eng_range(), m.eng_range());
}

#[test]
fn lookup_finds_registered_names_only() {
    let mut reg = TagRegistry::new();
    assert_eq!(reg.lookup("a"), None);
    assert!(reg.has_room_for("a"));
    reg.get_or_create("a", meta("A", "t/a", 0.0, 1.0));
    reg.get_or_create("b", meta("B", "t/b", 0.0, 1.0));
    assert_eq!(reg.lookup("a"), Some(1));
    assert_eq!(reg.lookup("b"), Some(2));
    assert_eq!(reg.lookup("c"), None);
    assert_eq!(reg.lookup("ab"), None);
}

#[test]
fn host_service_answers_from_the_registry() {
    let mut reg = TagRegistry::new();
    let id = reg.get_or_create("a", meta("A", "t/a", 0.0, 150.0));
    assert_eq!(get_tag_attr(&reg, id, "mqtt_topic"), Some("t/a".to_string()));
    assert_eq!(get_tag_attr(&reg, id, "colour"), None);
    assert_eq!(get_tag_attr(&reg, 9, "name"), None);
    assert_eq!(get_eng_range(&reg, id), Some((0.0f64.to_bits(), 150.0f64.to_bits())));
    assert_eq!(get_eng_range(&reg, 9), None);
}

#[test]
fn debug_line_has_the_node_name_in_its_prefix() {
    assert_eq!(log_debug("sink-node", "encoded 42 bytes"), "[WASM:sink-node] encoded 42 bytes");
    assert_eq!(log_debug("", ""), "[WASM:] ");
}

#[test]
fn template_of_an_unregistered_tag() {
    let m = TagMeta::template_for("plant1.motor3.temp");
    assert_eq!(m.name(), "plant1.motor3.temp");
    assert_eq!(m.unit(), "°C");
    assert_eq!(m.mqtt_topic(), "iiot/plant1/motor3/temp");
    assert_eq!(m.historian_tag(), "");
    assert_eq!(m.alarm_group(), "default");
    assert_eq!(m.eng_range(), (0.0f64.to_bits(), 150.0f64.to_bits()));
    assert_eq!(TagMeta::template_for("").mqtt_topic(), "iiot/");
    assert_eq!(TagMeta::template_for("..a.").mqtt_topic(), "iiot///a/");
    assert_eq!(TagMeta::template_for("溫度.一").mqtt_topic(), "iiot/溫度/一");
    assert_eq!(TagMeta::template_for("a/b").mqtt_topic(), "iiot/a/b");
}

#[test]
fn number_zero_and_numbers_not_yet_assigned_are_unknown() {
    let mut reg = TagRegistry::new();
    for key in ["name", "unit", "mqtt_topic", "historian_tag", "alarm_group"] {
        assert_eq!(reg.get_attr(0, key), None);
        assert_eq!(reg.get_attr(1, key), None);
    }
    assert_eq!(reg.get_eng_range(0), None);
    reg.get_or_create("a", meta("A", "t/a", 0.0, 1.0));
    reg.get_or_create("b", meta("B", "t/b", 0.0, 1.0));
    assert!(reg.get_attr(1, "name").is_some());
    assert!(reg.get_attr(2, "name").is_some());
    assert_eq!(reg.get_attr(0, "name"), None);
    assert_eq!(reg.get_attr(3, "name"), None);
    assert_eq!(reg.get_eng_range(3), None);
    assert_eq!(reg.get_eng_range(u32::MAX), None);
}

#[test]
fn many_tags_keep_their_numbers_and_metadata() {
    let mut reg = TagRegistry::new();
    for i in 0..500u32 {
        let name = format!("plant.line{}.temp", i);
        assert_eq!(reg.get_or_create(&name, meta(&name, &format!("t/{}", i), 0.0, i as f64)), i + 1);
    }
    assert_eq!(reg.len(), 500);
    for i in (0..500u32).rev() {
        let name = format!("plant.line{}.temp", i);
        assert_eq!(reg.lookup(&name), Some(i + 1));
        assert_eq!(reg.get_or_create(&name, meta("other", "other", 0.0, 0.0)), i + 1);
        assert_eq!(reg.get_attr(i + 1, "mqtt_topic"), Some(format!("t/{}", i)));
        assert_eq!(reg.get_eng_range(i + 1), Some((0.0f64.to_bits(), (i as f64).to_bits())));
    }
    assert_eq!(reg.len(), 500);
}
