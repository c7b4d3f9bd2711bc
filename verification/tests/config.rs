use thermostat_bridge::config::{
    default_aggregation, default_heartbeat_secs, default_hysteresis, default_mode,
    default_sensor_attribute, insert_by_id, is_known_aggregation, is_known_mode, Config,
    ConfigError, ConfigSource, HomecoreSection, ThermostatEntry,
};
use thermostat_bridge::quantity::Quantity;

fn q(x: f64) -> Quantity {
    Quantity::from_bits(x.to_bits())
}

fn entry(id: &str) -> ThermostatEntry {
    ThermostatEntry {
        id: id.to_string(),
        name: format!("Thermostat {id}"),
        sensor_device_ids: vec!["sensor_1".to_string()],
        sensor_attribute: default_sensor_attribute(),
        aggregation: default_aggregation(),
        setpoint: q(20.0),
        hysteresis: default_hysteresis(),
        mode: default_mode(),
        actuator_device_id: String::new(),
        actuator_on_cmd: None,
        actuator_off_cmd: None,
        min_on_secs: 0,
        min_off_secs: 0,
    }
}

fn config(thermostats: Vec<ThermostatEntry>) -> Config<&'static str> {
    Config {
        homecore: HomecoreSection {
            plugin_id: "plugin.thermostat".to_string(),
            broker_host: "127.0.0.1".to_string(),
            broker_port: 1883,
            password: String::new(),
            heartbeat_secs: default_heartbeat_secs(),
        },
        logging: "info",
        thermostats,
    }
}

fn refusal(cfg: &Config<&'static str>) -> String {
    cfg.validate().err().unwrap().message()
}

#[test]
fn defaults_are_as_documented() {
    assert_eq!(default_heartbeat_secs(), 60);
    assert_eq!(default_sensor_attribute(), "temperature");
    assert_eq!(default_aggregation(), "average");
    assert_eq!(default_hysteresis(), q(1.0));
    assert_eq!(default_mode(), "off");
}

#[test]
fn modes_and_aggregations_are_known_by_name() {
    for m in ["heat", "cool", "off"] {
        assert!(is_known_mode(m));
    }
    for m in ["", "Heat", "auto", "heat "] {
        assert!(!is_known_mode(m));
    }
    for a in ["average", "min", "max"] {
        assert!(is_known_aggregation(a));
    }
    for a in ["", "median", "avg"] {
        assert!(!is_known_aggregation(a));
    }
}

#[test]
fn a_sound_configuration_is_accepted() {
    assert!(config(vec![]).validate().is_ok());
    assert!(config(vec![entry("a"), entry("b")]).validate().is_ok());
    let mut zero = entry("zero");
    zero.hysteresis = q(-0.0);
    let mut nan = entry("nan");
    nan.hysteresis = q(f64::NAN);
    assert!(config(vec![zero, nan]).validate().is_ok());
}

#[test]
fn each_fault_is_told() {
    let mut cfg = config(vec![entry("a")]);
    cfg.homecore.plugin_id = String::new();
    assert_eq!(refusal(&cfg), "homecore.plugin_id is required");

    assert_eq!(refusal(&config(vec![entry("")])), "thermostat id is required");

    let mut e = entry("attic");
    e.mode = "auto".to_string();
    assert_eq!(
        refusal(&config(vec![e])),
        "thermostat attic: mode must be heat|cool|off (got auto)"
    );

    let mut e = entry("attic");
    e.aggregation = "median".to_string();
    assert_eq!(
        refusal(&config(vec![e])),
        "thermostat attic: aggregation must be average|min|max (got median)"
    );

    let mut e = entry("attic");
    e.hysteresis = q(-0.5);
    assert_eq!(
        refusal(&config(vec![e])),
        "thermostat attic: hysteresis must be non-negative"
    );
}

#[test]
fn the_first_fault_counts() {
    let mut first = entry("one");
    first.aggregation = "median".to_string();
    let mut second = entry("two");
    second.mode = "auto".to_string();
    assert_eq!(
        refusal(&config(vec![entry("zero"), first, second])),
        "thermostat one: aggregation must be average|min|max (got median)"
    );
}

#[test]
fn loading_tells_what_went_wrong() {
    let unreadable: ConfigSource<()> = ConfigSource::Unreadable("no such file".to_string());
    assert_eq!(
        Config::load("config.toml", unreadable).err().unwrap().message(),
        "Cannot read config file config.toml: no such file"
    );
    let unparsable: ConfigSource<()> = ConfigSource::Unparsable("expected `=`".to_string());
    assert_eq!(
        Config::load("config.toml", unparsable).err().unwrap().message(),
        "Config parse error in config.toml: expected `=`"
    );
    let refused = Config::load("config.toml", ConfigSource::Parsed(config(vec![entry("")])));
    assert!(matches!(refused, Err(ConfigError::ThermostatIdRequired)));
    let loaded = Config::load("config.toml", ConfigSource::Parsed(config(vec![entry("a")])));
    let cfg = loaded.ok().unwrap();
    assert_eq!(cfg.logging, "info");
    assert_eq!(cfg.thermostats[0].id, "a");
}

#[test]
fn entries_are_put_in_the_order_of_their_ids() {
    let mut list: Vec<ThermostatEntry> = Vec::new();
    for id in ["b", "Z", "a10", "é", "a", "a2", ""] {
        insert_by_id(&mut list, entry(id));
    }
    let ids: Vec<&str> = list.iter().map(|e| e.id.as_str()).collect();
    assert_eq!(ids, vec!["", "Z", "a", "a10", "a2", "b", "é"]);
}
