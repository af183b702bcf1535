use opensovd_zenoh::session::{client_config, configure, endpoints_json, first_refusal};
use opensovd_zenoh::{zenoh as query, zenoh_pub_sub as pub_sub};

#[test]
fn endpoints_are_a_list_of_one() {
    assert_eq!(endpoints_json("tcp/localhost:7447"), r#"["tcp/localhost:7447"]"#);
}

#[test]
fn client_connects_to_the_endpoint() {
    let config = client_config("tcp/localhost:7447").unwrap();
    assert_eq!(config.get_json("mode").unwrap(), r#""client""#);
    assert_eq!(config.get_json("connect/endpoints").unwrap(), r#"["tcp/localhost:7447"]"#);
}

#[test]
fn configuring_replaces_earlier_settings() {
    let mut base = ::zenoh::Config::default();
    base.insert_json5("mode", r#""router""#).unwrap();
    let config = configure(base, "tcp/10.0.0.1:7447").unwrap();
    assert_eq!(config.get_json("mode").unwrap(), r#""client""#);
    assert_eq!(config.get_json("connect/endpoints").unwrap(), r#"["tcp/10.0.0.1:7447"]"#);
}

#[test]
fn broken_endpoint_is_refused() {
    assert!(client_config("tcp/\"").is_err());
    assert!(client_config("no endpoint").is_err());
}

#[test]
fn refusal_has_the_text_of_the_setting() {
    let mut config = ::zenoh::Config::default();
    config.insert_json5("mode", r#""client""#).unwrap();
    let refusal = config.insert_json5("connect/endpoints", r#"["no endpoint"]"#).unwrap_err();
    let text = refusal.to_string();
    assert!(!text.is_empty());
    assert_eq!(client_config("no endpoint").unwrap_err(), text);
    let config =
        query::ZenohConfig { endpoint: "no endpoint".to_string(), ..Default::default() };
    assert_eq!(config.session_config().unwrap_err(), text);
    let config =
        pub_sub::ZenohConfig { endpoint: "no endpoint".to_string(), ..Default::default() };
    assert_eq!(config.session_config().unwrap_err(), text);
}

#[test]
fn first_refusal_counts() {
    let refused = |text: &str| Err(text.to_string());
    assert_eq!(first_refusal(refused("a"), refused("b")), refused("a"));
    assert_eq!(first_refusal(refused("a"), Ok(())), refused("a"));
    assert_eq!(first_refusal(Ok(()), refused("b")), refused("b"));
    assert_eq!(first_refusal(Ok(()), Ok(())), Ok(()));
}

#[test]
fn both_configurations_lead_to_a_client() {
    let config = query::ZenohConfig::default().session_config().unwrap();
    assert_eq!(config.get_json("mode").unwrap(), r#""client""#);
    let config = pub_sub::ZenohConfig::default().session_config().unwrap();
    assert_eq!(config.get_json("connect/endpoints").unwrap(), r#"["tcp/localhost:7447"]"#);
}
