use opensovd_zenoh::entity::{Component, DataError, DataFilter, Reply};
use opensovd_zenoh::zenoh_pub_sub::{
    Delivery, ZenohConfig, ZenohDataProvider, ZenohProvider, READ_TIMEOUT_SECONDS,
};
use serde_json::Value;

fn token(key: &str) -> Reply {
    Reply::Sample { key: key.to_string(), payload: vec![] }
}

fn parse(text: &str) -> Value {
    serde_json::from_str(text).unwrap()
}

fn discover(index: usize, replies: Vec<Reply>) -> Vec<Component<ZenohDataProvider>> {
    let config = ZenohConfig { robot_name_index: index, ..ZenohConfig::default() };
    let provider = ZenohProvider::new(config, Ok(())).unwrap();
    let mut components = provider.discover(Ok(replies)).unwrap().components;
    components.sort_by(|a, b| a.id.cmp(&b.id));
    components
}

fn ids(component: &Component<ZenohDataProvider>) -> Vec<&str> {
    component.data_provider.data_points.iter().map(|p| p.0.as_str()).collect()
}

fn robot(prefix: &str) -> ZenohDataProvider {
    ZenohDataProvider { key_prefix: prefix.to_string(), data_points: vec![] }
}

#[test]
fn test_zenoh_pubsub_provider_list_metadata() {
    let provider = ZenohDataProvider {
        key_prefix: "TestRobot".to_string(),
        data_points: vec![("sensor_1".to_string(), "Sensor 1".to_string())],
    };

    let metadata = provider.list(DataFilter::default()).unwrap();
    assert_eq!(metadata.len(), 1);
    assert_eq!(metadata[0].id, "sensor_1");
    assert!(metadata[0].is_writable);
    assert!(metadata[0].is_readable);
    assert_eq!(metadata[0].name, "Sensor 1");
    assert_eq!(metadata[0].category, "zenoh-pubsub");
    assert!(metadata[0].schema.is_none());
}

#[test]
fn test_zenoh_pubsub_provider_write_success() {
    let provider = robot("R2");

    let publication = provider.write("sensor_1", parse(r#"{"val": 42}"#));
    assert_eq!(publication.key, "R2/sensor/1");
    assert_eq!(publication.payload, r#"{"val":42}"#);
    let result = provider.written(Ok(()));
    assert!(result.is_ok()); // simple Publish should pass w/o errors
}

#[test]
fn failed_publication_is_an_internal_error() {
    match robot("R2").written(Err("closed".to_string())) {
        Err(DataError::Internal(text)) => assert_eq!(text, "closed"),
        _ => panic!("expected Internal"),
    }
}

#[test]
fn discovery_groups_tokens_in_order_and_keeps_repeats() {
    let found = discover(
        0,
        vec![token("B/z"), token("A/x/y"), Reply::Failed, token("B/a"), token("B/z")],
    );
    assert_eq!(found.len(), 2);
    assert_eq!(found[0].id, "A");
    assert_eq!(found[0].name, "Zenoh Robot A");
    assert_eq!(found[0].data_provider.key_prefix, "A");
    assert_eq!(ids(&found[0]), vec!["x_y"]);
    assert_eq!(ids(&found[1]), vec!["z", "a", "z"]);
    assert_eq!(found[1].data_provider.data_points[0].1, "z");
}

#[test]
fn discovery_takes_the_name_from_the_configured_part() {
    let found = discover(1, vec![token("robots/R7/arm/joint"), token("short")]);
    assert_eq!(found.len(), 1);
    assert_eq!(found[0].id, "R7");
    assert_eq!(ids(&found[0]), vec!["robots_arm_joint"]);
}

#[test]
fn discovery_skips_bare_robot_names_but_not_wildcards() {
    let found = discover(0, vec![token("R"), token("R/"), token("S/*")]);
    assert_eq!(found.len(), 1);
    assert_eq!(found[0].id, "S");
    assert_eq!(ids(&found[0]), vec!["*"]);
}

#[test]
fn empty_parts_count() {
    let found = discover(0, vec![token("R//")]);
    assert_eq!(ids(&found[0]), vec!["_"]);
}

#[test]
fn token_discovery_reports_a_failed_query() {
    let provider = ZenohProvider::new(ZenohConfig::default(), Ok(())).unwrap();
    assert_eq!(provider.discovery_query(), "**");
    let error = provider.discover(Err("no route".to_string())).unwrap_err();
    assert_eq!(error.message(), "no route");
    let failed = ZenohProvider::new(ZenohConfig::default(), Err("refused".to_string()));
    assert_eq!(failed.unwrap_err(), "refused");
}

#[test]
fn token_key_is_the_data_key_without_underscores() {
    let found = discover(0, vec![token("R/x"), token("R/arm/joint")]);
    assert_eq!(ids(&found[0]), vec!["x", "arm_joint"]);
    assert_eq!(found[0].data_provider.key_for("arm_joint"), "R/arm/joint");
    let found = discover(0, vec![token("R/arm_joint")]);
    assert_eq!(found[0].data_provider.key_for("arm_joint"), "R/arm/joint");
}

#[test]
fn read_gives_the_published_document() {
    let delivery = Delivery::Received(br#"{"data":{"v":1}}"#.to_vec());
    let data = robot("R").read("x", false, delivery).unwrap();
    assert_eq!(data.data, parse(r#"{"data":{"v":1}}"#));
    assert!(data.schema.is_none());
}

#[test]
fn publication_that_is_no_json_is_wrapped() {
    let delivery = Delivery::Received(b"12 volts".to_vec());
    let data = robot("R").read("x", true, delivery).unwrap();
    assert_eq!(data.data, parse(r#"{"raw_value":"12 volts"}"#));
}

#[test]
fn subscription_reports_errors() {
    assert_eq!(READ_TIMEOUT_SECONDS, 5);
    match robot("R").read("a_b", false, Delivery::TimedOut) {
        Err(DataError::NotFound(text)) => {
            assert_eq!(text, "Timeout: Robot did not send data on 'R/a/b'")
        }
        _ => panic!("expected NotFound"),
    }
    match robot("R").read("a_b", false, Delivery::Closed("gone".to_string())) {
        Err(DataError::Internal(text)) => assert_eq!(text, "Subscriber Error: gone"),
        _ => panic!("expected Internal"),
    }
    match robot("R").read("a_b", false, Delivery::Undeclared("bad key".to_string())) {
        Err(DataError::Internal(text)) => assert_eq!(text, "bad key"),
        _ => panic!("expected Internal"),
    }
}

#[test]
fn written_value_is_read_back() {
    let nested = format!("{}7{}", "[".repeat(127), "]".repeat(127));
    let texts = vec![
        "null".to_string(),
        "true".to_string(),
        "18446744073709551615".to_string(),
        "-9223372036854775808".to_string(),
        r#""a\"b\\c\u0000\u001f\u007f é 🤖""#.to_string(),
        r#"{"val":42,"list":[1,{"k":null}],"":"empty"}"#.to_string(),
        nested,
    ];
    for text in texts {
        let value = parse(&text);
        let publication = robot("R").write("x", value.clone());
        let delivery = Delivery::Received(publication.payload.into_bytes());
        assert_eq!(robot("R").read("x", false, delivery).unwrap().data, value);
    }
}

#[test]
fn value_nested_too_deep_comes_back_as_raw_text() {
    let mut value = Value::from(7);
    for _ in 0..128 {
        value = Value::from(vec![value]);
    }
    let publication = robot("R").write("x", value);
    let payload = publication.payload.clone();
    let delivery = Delivery::Received(publication.payload.into_bytes());
    let data = robot("R").read("x", false, delivery).unwrap();
    assert_eq!(data.data["raw_value"], Value::from(payload));
}
