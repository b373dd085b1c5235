use lanmon::config::{config_format, Config, ConfigError, ConfigFormat, MAX_ALERT_MINS};
use lanmon::clock::WallClock;
use lanmon::registry::Registry;

fn base_config() -> Config {
    Config {
        alert_mins: 1,
        alert: String::from("ops@example.org"),
        emailonrestore: true,
        nodes: vec![String::from("192.168.1.10"), String::from("node1")],
    }
}

#[test]
fn valid_config_passes() {
    assert_eq!(base_config().validate(), Ok(()));
}

#[test]
fn zero_threshold_is_rejected() {
    let mut c = base_config();
    c.alert_mins = 0;
    assert_eq!(c.validate(), Err(ConfigError::ZeroAlertMinutes));
}

#[test]
fn oversized_threshold_is_rejected() {
    let mut c = base_config();
    c.alert_mins = MAX_ALERT_MINS + 1;
    assert_eq!(c.validate(), Err(ConfigError::AlertMinutesTooLarge));
    c.alert_mins = MAX_ALERT_MINS;
    assert_eq!(c.validate(), Ok(()));
}

#[test]
fn empty_node_list_is_rejected() {
    let mut c = base_config();
    c.nodes = Vec::new();
    assert_eq!(c.validate(), Err(ConfigError::NoNodes));
}

#[test]
fn threshold_converts_minutes_to_milliseconds() {
    let mut c = base_config();
    assert_eq!(c.threshold_millis(), 60_000);
    c.alert_mins = 90;
    assert_eq!(c.threshold_millis(), 5_400_000);
}

#[test]
fn format_from_extension() {
    assert_eq!(config_format(&Some(String::from("toml"))), Ok(ConfigFormat::Toml));
    assert_eq!(config_format(&Some(String::from("json"))), Ok(ConfigFormat::Json));
    assert_eq!(
        config_format(&Some(String::from("yaml"))),
        Err(ConfigError::UnsupportedExtension)
    );
    assert_eq!(config_format(&None), Err(ConfigError::MissingExtension));
}

#[test]
fn registry_rejects_empty_address_set() {
    let wall = WallClock { year: 2020, month: 6, day: 15, hour: 10, minute: 0 };
    assert!(Registry::initialize(Vec::new(), 0, wall).is_none());
}

#[test]
fn registry_lookup_and_duplicate_addresses() {
    let wall = WallClock { year: 2020, month: 6, day: 15, hour: 10, minute: 0 };
    let resolved = vec![
        (String::from("10.1.1.1"), String::from("first")),
        (String::from("10.1.1.2"), String::from("other")),
        (String::from("10.1.1.1"), String::from("second")),
    ];
    let reg = Registry::initialize(resolved, 42, wall).unwrap();
    // the later pair for the same address wins, as repeated insertion would
    let node = reg.get(&String::from("10.1.1.1")).unwrap();
    assert_eq!(node.name, "second");
    assert_eq!(node.last_seen_mono, 42);
    assert!(!node.alerted);
    assert_eq!(reg.get(&String::from("10.1.1.2")).unwrap().name, "other");
    assert!(reg.get(&String::from("10.1.1.3")).is_none());
}
