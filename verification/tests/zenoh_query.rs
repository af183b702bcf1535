use opensovd_zenoh::entity::{Component, DataError, DataFilter, Reply};
use opensovd_zenoh::zenoh::{
    describe_point, Announcement, DataPointMeta, Reading, ZenohConfig, ZenohDataProvider,
    ZenohProvider,
};
use serde_json::Value;

fn sample(key: &str, payload: &str) -> Reply {
    Reply::Sample { key: key.to_string(), payload: payload.as_bytes().to_vec() }
}

fn parse(text: &str) -> Value {
    serde_json::from_str(text).unwrap()
}

fn provider(index: usize) -> ZenohProvider {
    let config = ZenohConfig { robot_name_index: index, ..ZenohConfig::default() };
    ZenohProvider::new(config, Ok(())).unwrap()
}

fn discover(index: usize, replies: Vec<Reply>) -> Vec<Component<ZenohDataProvider>> {
    let mut components = provider(index).discover(Ok(replies)).unwrap().components;
    components.sort_by(|a, b| a.id.cmp(&b.id));
    components
}

fn points(component: &Component<ZenohDataProvider>) -> Vec<(String, String, String)> {
    let mut list: Vec<(String, String, String)> = component
        .data_provider
        .data_points
        .iter()
        .map(|p| (p.id.clone(), p.name.clone(), p.category.clone()))
        .collect();
    list.sort();
    list
}

fn owned(id: &str, name: &str, category: &str) -> (String, String, String) {
    (id.to_string(), name.to_string(), category.to_string())
}

fn robot(ids: &[&str]) -> ZenohDataProvider {
    ZenohDataProvider {
        robot_name: "R1".to_string(),
        data_points: ids
            .iter()
            .map(|id| DataPointMeta {
                id: id.to_string(),
                name: id.to_string(),
                category: "c".to_string(),
            })
            .collect(),
        fallback_category: "fallback".to_string(),
    }
}

#[test]
fn test_zenoh_provider_list_metadata() {
    let provider = ZenohDataProvider {
        robot_name: "TestRobot".to_string(),
        data_points: vec![DataPointMeta {
            id: "speed_sensor".to_string(),
            name: "Speed Sensor".to_string(),
            category: "sensorData".to_string(),
        }],
        fallback_category: "currentData".to_string(),
    };

    let metadata = provider.list(DataFilter::default()).unwrap();

    // expecting 2 entries (telemetry + speed_sensor)
    assert_eq!(metadata.len(), 2);
    assert_eq!(metadata[0].id, "telemetry");
    assert_eq!(metadata[1].id, "speed_sensor");
    assert_eq!(metadata[1].category, "sensorData");
}

#[test]
fn test_zenoh_provider_write_fails() {
    let provider = ZenohDataProvider {
        robot_name: "R1".to_string(),
        data_points: vec![],
        fallback_category: "".to_string(),
    };

    let result = provider.write("any_id", Value::from("some_value"));
    assert!(result.is_err());
    assert!(result.unwrap_err().message().contains("not supported"));
}

#[test]
fn listing_describes_robot_and_points_completely() {
    let metadata = robot(&["a"]).list(DataFilter::default()).unwrap();
    assert_eq!(metadata[0].name, "R1 All Telemetry");
    assert_eq!(metadata[0].category, "fallback");
    for entry in &metadata {
        assert!(entry.is_readable);
        assert!(!entry.is_writable);
        assert!(entry.translation_id.is_none());
        assert!(entry.groups.is_empty());
        assert!(entry.tags.is_empty());
        assert!(entry.schema.is_none());
    }
}

#[test]
fn new_hands_on_the_error_of_the_session() {
    let failed = ZenohProvider::new(ZenohConfig::default(), Err("unreachable".to_string()));
    assert_eq!(failed.unwrap_err(), "unreachable");
    assert_eq!(provider(0).discovery_query(), "**");
}

#[test]
fn discovery_groups_points_by_robot() {
    let found = discover(
        0,
        vec![
            sample("RobotA/sensor", "{}"),
            sample("RobotB/arm/joint", "{}"),
            sample("RobotA/battery", "{}"),
        ],
    );
    assert_eq!(found.len(), 2);
    assert_eq!(found[0].id, "RobotA");
    assert_eq!(found[0].name, "Zenoh Robot RobotA");
    assert_eq!(found[0].data_provider.robot_name, "RobotA");
    assert_eq!(found[0].data_provider.fallback_category, "currentData");
    assert_eq!(
        points(&found[0]),
        vec![
            owned("battery", "battery", "currentData"),
            owned("sensor", "sensor", "currentData")
        ]
    );
    assert_eq!(points(&found[1]), vec![owned("arm_joint", "arm joint", "currentData")]);
}

#[test]
fn discovery_takes_name_and_category_from_the_envelope() {
    let payload = r#"{"name":"Front Speed","category":"sensorData","data":1}"#;
    let found = discover(0, vec![sample("R/speed", payload)]);
    assert_eq!(points(&found[0]), vec![owned("speed", "Front Speed", "sensorData")]);
}

#[test]
fn discovery_ignores_envelope_fields_that_are_no_text() {
    let found = discover(0, vec![sample("R/a_b", r#"{"name":7,"category":null}"#)]);
    assert_eq!(points(&found[0]), vec![owned("a_b", "a b", "currentData")]);
    let found = discover(0, vec![sample("R/a", "[1,2]"), sample("R/b", "no json")]);
    assert_eq!(
        points(&found[0]),
        vec![owned("a", "a", "currentData"), owned("b", "b", "currentData")]
    );
}

#[test]
fn discovery_skips_wildcards_failures_and_empty_ids() {
    let found = discover(
        0,
        vec![sample("R/**", "{}"), Reply::Failed, sample("R/", "{}"), sample("*/x", "{}")],
    );
    assert!(found.is_empty());
    assert!(discover(2, vec![sample("R/x", "{}")]).is_empty());
}

#[test]
fn discovery_keeps_the_last_description_of_a_point() {
    let found = discover(
        0,
        vec![
            sample("R/x", r#"{"name":"first"}"#),
            sample("R/y", r#"{"name":"other"}"#),
            sample("R/x", r#"{"name":"second"}"#),
        ],
    );
    assert_eq!(
        points(&found[0]),
        vec![owned("x", "second", "currentData"), owned("y", "other", "currentData")]
    );
}

#[test]
fn discovery_under_another_index_keeps_the_whole_key() {
    let found = discover(1, vec![sample("robots/R7/speed", "{}")]);
    assert_eq!(found[0].id, "R7");
    assert_eq!(points(&found[0]), vec![owned("robots_R7_speed", "robots R7 speed", "currentData")]);
}

#[test]
fn discovery_of_a_bare_robot_name_makes_it_its_own_point() {
    let found = discover(0, vec![sample("R7", "{}")]);
    assert_eq!(points(&found[0]), vec![owned("R7", "R7", "currentData")]);
}

#[test]
fn discovery_reports_a_failed_query() {
    let error = provider(0).discover(Err("no route".to_string())).unwrap_err();
    assert_eq!(error.message(), "no route");
}

#[test]
fn announcement_is_read_from_key_and_document() {
    let config = ZenohConfig::default();
    let announcement = Announcement {
        key: "a/b/c".to_string(),
        document: Some(parse(r#"{"name":"N"}"#)),
    };
    let (robot, point) = config.announced_by(&announcement).unwrap();
    assert_eq!(robot, "a");
    assert_eq!(point.id, "b_c");
    assert_eq!(point.name, "N");
    assert_eq!(point.category, "currentData");
    let point = describe_point("x_y".to_string(), &None, "cat");
    assert_eq!((point.name.as_str(), point.category.as_str()), ("x y", "cat"));
}

#[test]
fn read_queries_the_key_of_the_point() {
    let provider = robot(&["speed_front"]);
    assert_eq!(provider.read_query("speed_front").unwrap(), "R1/speed/front");
    assert_eq!(provider.read_query("telemetry").unwrap(), "R1/**");
    match provider.read_query("other") {
        Err(DataError::NotFound(text)) => assert_eq!(text, "other"),
        _ => panic!("expected NotFound"),
    }
}

#[test]
fn listed_ids_and_only_they_can_be_queried() {
    let provider = robot(&["a", "b_c"]);
    for entry in provider.list(DataFilter::default()).unwrap() {
        assert!(provider.read_query(&entry.id).is_ok());
    }
    assert!(provider.read_query("c").is_err());
}

#[test]
fn discovered_point_is_queried_on_its_own_key() {
    let found = discover(0, vec![sample("R/arm/joint", "{}")]);
    assert_eq!(found[0].data_provider.read_query("arm_joint").unwrap(), "R/arm/joint");
    // an underscore in the key cannot be told from a slash
    let found = discover(0, vec![sample("R/arm_joint", "{}")]);
    assert_eq!(found[0].data_provider.read_query("arm_joint").unwrap(), "R/arm/joint");
    // the reserved id stands for the whole robot
    let found = discover(0, vec![sample("R/telemetry", "{}")]);
    assert_eq!(found[0].data_provider.read_query("telemetry").unwrap(), "R/**");
}

#[test]
fn read_takes_the_data_out_of_the_envelope() {
    let provider = robot(&["x_y"]);
    let replies = vec![sample("R1/x/y", r#"{"name":"n","data":{"v":1}}"#)];
    let data = provider.read("x_y", false, Ok(replies)).unwrap();
    assert_eq!(data.data, parse(r#"{"v":1}"#));
    assert!(data.schema.is_none());
    let replies = vec![sample("R1/x/y", r#"{"v":2}"#)];
    let data = provider.read("x_y", true, Ok(replies)).unwrap();
    assert_eq!(data.data, parse(r#"{"v":2}"#));
    assert!(data.schema.is_none());
}

#[test]
fn read_wraps_what_is_no_json() {
    let provider = robot(&["x"]);
    let data = provider.read("x", false, Ok(vec![sample("R1/x", "12 volts")])).unwrap();
    assert_eq!(data.data, parse(r#"{"raw_value":"12 volts"}"#));
    let bytes = Reply::Sample { key: "R1/x".to_string(), payload: vec![0x61, 0xff, 0x62] };
    let data = provider.read("x", false, Ok(vec![bytes])).unwrap();
    assert_eq!(data.data["raw_value"], Value::from("a\u{fffd}b"));
}

#[test]
fn read_gives_the_last_of_several_answers() {
    let provider = robot(&["x"]);
    let replies = vec![
        sample("R1/x", "1"),
        Reply::Failed,
        sample("R1/y", "5"),
        sample("R1/x", "2"),
    ];
    assert_eq!(provider.read("x", false, Ok(replies)).unwrap().data, Value::from(2));
}

#[test]
fn read_gives_everything_where_the_point_itself_is_missing() {
    let provider = robot(&["x"]);
    let replies = vec![sample("R1/a/b", "1"), sample("Other/c", r#"{"data":[]}"#)];
    let data = provider.read("x", false, Ok(replies)).unwrap();
    assert_eq!(data.data, parse(r#"{"a_b":1,"Other_c":[]}"#));
}

#[test]
fn read_of_telemetry_gives_all_points() {
    let provider = robot(&[]);
    let replies = vec![sample("R1/a/b", r#"{"data":true}"#), sample("R1/c", "\"t\"")];
    let data = provider.read("telemetry", false, Ok(replies)).unwrap();
    assert_eq!(data.data, parse(r#"{"a_b":true,"c":"t"}"#));
    let data = provider.read("telemetry", false, Ok(vec![])).unwrap();
    assert_eq!(data.data, parse("{}"));
}

#[test]
fn read_without_answers_finds_nothing() {
    let provider = robot(&["x"]);
    for replies in [vec![], vec![Reply::Failed]] {
        match provider.read("x", false, Ok(replies)) {
            Err(DataError::NotFound(text)) => assert_eq!(text, "No data found for x in Zenoh"),
            _ => panic!("expected NotFound"),
        }
    }
}

#[test]
fn read_reports_errors() {
    let provider = robot(&["x"]);
    match provider.read("x", false, Err("session closed".to_string())) {
        Err(DataError::Internal(text)) => assert_eq!(text, "session closed"),
        _ => panic!("expected Internal"),
    }
    match provider.read("unknown", false, Err("session closed".to_string())) {
        Err(DataError::NotFound(text)) => assert_eq!(text, "unknown"),
        _ => panic!("expected NotFound"),
    }
}

#[test]
fn assembling_works_on_documents() {
    let provider = robot(&["x"]);
    let readings = vec![Reading {
        key: "R1/x".to_string(),
        document: parse(r#"{"data":null,"name":"n"}"#),
    }];
    assert_eq!(provider.assemble("x", readings).unwrap().data, Value::Null);
}
