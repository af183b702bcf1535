use opensovd_zenoh::{zenoh, zenoh_pub_sub};

#[test]
fn test_zenoh_config_default() {
    let config = zenoh::ZenohConfig::default();
    assert_eq!(config.endpoint, "tcp/localhost:7447");
    assert_eq!(config.discovery_selector, "**");
    assert_eq!(config.robot_name_index, 0);
    assert_eq!(config.category, "currentData");
}

#[test]
fn test_zenoh_pubsub_config_default() {
    let config = zenoh_pub_sub::ZenohConfig::default();
    assert_eq!(config.endpoint, "tcp/localhost:7447");
    assert_eq!(config.discovery_selector, "**");
    assert_eq!(config.robot_name_index, 0);
}
