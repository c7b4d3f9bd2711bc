use thermostat_bridge::bridge::{BridgeError, BridgeHandle, BridgeTask};
use thermostat_bridge::config::{
    default_aggregation, default_hysteresis, default_sensor_attribute, Config, ConfigError,
    ConfigSource, HomecoreSection, ThermostatEntry,
};
use thermostat_bridge::json::{Field, Payload};
use thermostat_bridge::quantity::Quantity;
use thermostat_bridge::runtime::Evaluation;

fn q(x: f64) -> Quantity {
    Quantity::from_bits(x.to_bits())
}

fn json(text: &str) -> serde_json::Value {
    serde_json::from_str(text).unwrap()
}

fn entry(id: &str, sensors: &[&str]) -> ThermostatEntry {
    ThermostatEntry {
        id: id.to_string(),
        name: format!("Thermostat {id}"),
        sensor_device_ids: sensors.iter().map(|s| s.to_string()).collect(),
        sensor_attribute: default_sensor_attribute(),
        aggregation: default_aggregation(),
        setpoint: q(20.0),
        hysteresis: default_hysteresis(),
        mode: "heat".to_string(),
        actuator_device_id: format!("switch_{id}"),
        actuator_on_cmd: None,
        actuator_off_cmd: None,
        min_on_secs: 0,
        min_off_secs: 0,
    }
}

fn config(thermostats: Vec<ThermostatEntry>) -> Config<&'static str> {
    Config {
        homecore: HomecoreSection {
            plugin_id: "plugin.thermostat".to_string(),
            broker_host: "broker".to_string(),
            broker_port: 1884,
            password: "pw".to_string(),
            heartbeat_secs: 30,
        },
        logging: "debug",
        thermostats,
    }
}

fn two() -> BridgeHandle {
    BridgeHandle::new(
        &config(vec![entry("b", &["s2", "s3"]), entry("a", &["s1", "s2"])]),
        "config.toml",
    )
}

fn sorted(mut list: Vec<String>) -> Vec<String> {
    list.sort();
    list
}

fn strings(list: &[&str]) -> Vec<String> {
    list.iter().map(|s| s.to_string()).collect()
}

fn snapshot_ids(h: &BridgeHandle) -> Vec<String> {
    h.snapshot().iter().map(|e| e.id.clone()).collect()
}

fn evaluate(h: &BridgeHandle, id: &str, computed: &str, remaining: u64) -> Evaluation {
    let inputs = h.control_inputs(id).unwrap();
    Evaluation {
        current: inputs.readings.first().copied(),
        computed: computed.to_string(),
        remaining,
        now: inputs.now,
    }
}

fn text(p: &Payload, key: &str) -> Option<String> {
    match &p.fields.iter().find(|(k, _)| k == key).unwrap().1 {
        Field::Text(s) => Some(s.clone()),
        _ => None,
    }
}

#[test]
fn a_bridge_knows_its_devices_and_sensors() {
    let h = two();
    assert_eq!(
        sorted(h.all_own_device_ids()),
        strings(&["thermostat_a", "thermostat_b"])
    );
    assert_eq!(sorted(h.all_sensor_ids()), strings(&["s1", "s2", "s3"]));
    assert_eq!(sorted(h.recalculate_all()), strings(&["a", "b"]));
    assert_eq!(h.config_path(), "config.toml");
    let mut devices: Vec<(String, String)> = h
        .register_all()
        .into_iter()
        .map(|r| (r.device_id, r.name))
        .collect();
    devices.sort();
    assert_eq!(
        devices,
        vec![
            ("thermostat_a".to_string(), "Thermostat a".to_string()),
            ("thermostat_b".to_string(), "Thermostat b".to_string()),
        ]
    );
    let state = h.device_state("thermostat_a").unwrap();
    assert_eq!(text(&state, "call_for"), Some("idle".to_string()));
    assert!(h.device_state("a").is_none());
    assert!(h.device_state("thermostat_c").is_none());
}

#[test]
fn the_last_of_two_entries_with_one_id_counts() {
    let mut later = entry("a", &["s9"]);
    later.name = "Later".to_string();
    let h = BridgeHandle::new(&config(vec![entry("a", &["s1"]), later]), "c");
    assert_eq!(snapshot_ids(&h), strings(&["a"]));
    assert_eq!(h.snapshot()[0].name, "Later");
    assert_eq!(h.all_sensor_ids(), strings(&["s9"]));
}

#[test]
fn readings_are_kept_and_reach_the_thermostats_that_use_them() {
    let mut h = two();
    assert!(h.control_inputs("a").unwrap().readings.is_empty());
    let affected = h.on_sensor_state("s2", &json(r#"{"temperature":19.5,"battery":80}"#));
    assert_eq!(sorted(affected), strings(&["a", "b"]));
    assert_eq!(h.control_inputs("a").unwrap().readings, vec![q(19.5)]);
    h.on_sensor_state("s1", &json(r#"{"temperature":18}"#));
    assert_eq!(
        h.control_inputs("a").unwrap().readings,
        vec![q(18.0), q(19.5)]
    );
    // A later reading replaces an earlier one.
    h.on_sensor_state("s1", &json(r#"{"temperature":17.25}"#));
    assert_eq!(
        h.control_inputs("a").unwrap().readings,
        vec![q(17.25), q(19.5)]
    );
    // A message without a number changes no reading.
    let affected = h.on_sensor_state("s1", &json(r#"{"temperature":"cold"}"#));
    assert_eq!(affected, strings(&["a"]));
    assert_eq!(
        h.control_inputs("a").unwrap().readings,
        vec![q(17.25), q(19.5)]
    );
    // Nobody uses this sensor.
    assert!(h.on_sensor_state("s9", &json(r#"{"temperature":1}"#)).is_empty());
    assert!(h.control_inputs("c").is_none());
}

#[test]
fn the_attribute_of_a_thermostat_is_read() {
    let mut e = entry("a", &["s1"]);
    e.sensor_attribute = "floor".to_string();
    let mut h = BridgeHandle::new(&config(vec![e, entry("b", &["s1"])]), "c");
    assert_eq!(sorted(h.attributes("s1")), strings(&["floor", "temperature"]));
    h.on_sensor_state("s1", &json(r#"{"floor":25}"#));
    assert_eq!(h.control_inputs("b").unwrap().readings, vec![q(25.0)]);
    h.on_sensor_state("s1", &json(r#"{"temperature":22}"#));
    assert_eq!(h.control_inputs("a").unwrap().readings, vec![q(22.0)]);
}

#[test]
fn commands_change_one_thermostat_and_its_snapshot() {
    let mut h = two();
    let done = h
        .on_device_command("thermostat_a", &json(r#"{"command":"set_mode","value":"cool"}"#))
        .unwrap();
    assert_eq!(done.therm_id, "a");
    assert!(done.changed);
    assert!(done.sensors.is_none());
    assert_eq!(h.snapshot()[0].mode, "cool");
    assert_eq!(h.snapshot()[1].mode, "heat");
    let list = h.get_thermostats();
    assert_eq!(list[0].mode, "cool");
    let done = h
        .on_device_command("thermostat_a", &json(r#"{"command":"recalculate"}"#))
        .unwrap();
    assert!(!done.changed);
}

#[test]
fn what_is_not_for_us_is_ignored() {
    let mut h = two();
    let set = json(r#"{"command":"set_mode","value":"off"}"#);
    assert!(h.on_device_command("lamp", &set).is_none());
    assert!(h.on_device_command("thermostat_c", &set).is_none());
    assert!(h
        .on_device_command("thermostat_a", &json(r#"{"command":"reboot"}"#))
        .is_none());
    assert_eq!(h.snapshot()[0].mode, "heat");
    h.on_own_state_restored("lamp", &json(r#"{"actuator_state":true}"#));
    assert!(!h.control_inputs("a").unwrap().actuator_state);
}

#[test]
fn new_sensors_are_subscribed_and_orphans_are_not() {
    let mut h = two();
    let done = h
        .on_device_command(
            "thermostat_a",
            &json(r#"{"command":"set_sensors","sensor_ids":["s2","s7"]}"#),
        )
        .unwrap();
    let diff = done.sensors.unwrap();
    assert_eq!(diff.added, strings(&["s7"]));
    assert_eq!(diff.removed, strings(&["s1"]));
    // s2 is still used by the other thermostat, so nothing is to be changed for it.
    let done = h
        .on_device_command(
            "thermostat_a",
            &json(r#"{"command":"set_sensors","sensor_ids":["s7"]}"#),
        )
        .unwrap();
    assert!(done.changed);
    assert!(done.sensors.is_none());
}

#[test]
fn retained_state_restores_the_actuator() {
    let mut h = two();
    h.on_own_state_restored(
        "thermostat_a",
        &json(
            r#"{"actuator_last_change":"2023-11-14T22:13:20+00:00","actuator_state":true,"call_for":"heat"}"#,
        ),
    );
    let inputs = h.control_inputs("a").unwrap();
    assert!(inputs.actuator_state);
    assert_eq!(inputs.call_for, "heat");
    assert_eq!(inputs.actuator_last_change.unwrap().secs, 1_700_000_000);
    // A second message comes too late.
    h.on_own_state_restored("thermostat_a", &json(r#"{"actuator_state":false}"#));
    assert!(h.control_inputs("a").unwrap().actuator_state);
    assert!(!h.control_inputs("b").unwrap().actuator_state);
}

#[test]
fn retained_state_does_not_replace_a_live_call() {
    let mut h = two();
    let ev = evaluate(&h, "a", "idle", 0);
    let done = h.recalculate("a", &ev).unwrap();
    assert_eq!(text(&done.payload, "call_for"), Some("stale".to_string()));
    h.on_own_state_restored("thermostat_a", &json(r#"{"call_for":"heat"}"#));
    assert_eq!(h.control_inputs("a").unwrap().call_for, "stale");
    // The other thermostat was not recalculated yet.
    h.on_own_state_restored("thermostat_b", &json(r#"{"call_for":"heat"}"#));
    assert_eq!(h.control_inputs("b").unwrap().call_for, "heat");
}

#[test]
fn recalculation_publishes_state_and_command() {
    let mut h = two();
    h.on_sensor_state("s1", &json(r#"{"temperature":18}"#));
    let ev = evaluate(&h, "a", "heat", 0);
    let done = h.recalculate("a", &ev).unwrap();
    assert_eq!(done.device_id, "thermostat_a");
    assert_eq!(text(&done.payload, "call_for"), Some("heat".to_string()));
    let command = done.command.unwrap();
    assert_eq!(command.device_id, "switch_a");
    assert_eq!(command.payload, json(r#"{"command":"on"}"#));
    assert!(h.recalculate("c", &ev).is_none());
    // No reading: stale.
    let mut h = two();
    let ev = evaluate(&h, "b", "heat", 0);
    let done = h.recalculate("b", &ev).unwrap();
    assert_eq!(text(&done.payload, "call_for"), Some("stale".to_string()));
    assert!(done.command.is_none());
}

#[test]
fn deferred_calls_are_ticked() {
    let mut h = two();
    h.on_sensor_state("s1", &json(r#"{"temperature":18}"#));
    assert!(h.tick().is_empty());
    let ev = evaluate(&h, "a", "heat", 60);
    let done = h.recalculate("a", &ev).unwrap();
    assert!(done.command.is_none());
    assert_eq!(text(&done.payload, "pending_call"), Some("heat".to_string()));
    assert_eq!(h.tick(), strings(&["a"]));
    let ev = evaluate(&h, "a", "heat", 0);
    assert!(h.recalculate("a", &ev).unwrap().command.is_some());
    assert!(h.tick().is_empty());
}

#[test]
fn outcomes_are_noted_until_the_next_success() {
    let mut h = two();
    let p = h
        .record_actuator_outcome("thermostat_a", Some("broker gone".to_string()))
        .unwrap();
    let failure = &p.fields.iter().find(|(k, _)| k == "actuator_last_error").unwrap().1;
    assert!(matches!(failure, Field::Failure { message, .. } if message == "broker gone"));
    let p = h.record_actuator_outcome("thermostat_a", None).unwrap();
    let failure = &p.fields.iter().find(|(k, _)| k == "actuator_last_error").unwrap().1;
    assert!(matches!(failure, Field::Null));
    assert!(h.record_actuator_outcome("thermostat_c", None).is_none());
    assert!(h.record_actuator_outcome("lamp", None).is_none());
    let mut h = BridgeHandle::new(&config(vec![entry("", &[])]), "c");
    assert!(h.record_actuator_outcome("thermostat_", None).is_none());
}

#[test]
fn adding_checks_the_entry() {
    let mut h = two();
    // The id comes first.
    let mut e = entry("", &["s1"]);
    e.mode = "auto".to_string();
    let refused = h.add_thermostat(e).err().unwrap();
    assert!(matches!(&refused, BridgeError::IdRequired));
    assert_eq!(refused.message(), "thermostat id is required");
    assert!(h.add_thermostat(entry("", &["s9"])).is_err());
    assert_eq!(sorted(h.all_sensor_ids()), strings(&["s1", "s2", "s3"]));
    let mut e = entry("c", &["s1"]);
    e.mode = "auto".to_string();
    let refused = h.add_thermostat(e).err().unwrap();
    assert!(matches!(&refused, BridgeError::InvalidMode(_)));
    assert_eq!(refused.message(), "invalid mode: auto");
    let mut e = entry("c", &["s1"]);
    e.aggregation = "median".to_string();
    assert_eq!(
        h.add_thermostat(e).err().unwrap().message(),
        "invalid aggregation: median"
    );
    let mut e = entry("c", &["s1"]);
    e.hysteresis = q(-1.0);
    assert_eq!(
        h.add_thermostat(e).err().unwrap().message(),
        "hysteresis must be non-negative"
    );
    assert_eq!(
        h.add_thermostat(entry("a", &["s1"])).err().unwrap().message(),
        "thermostat already exists: a"
    );
    assert_eq!(snapshot_ids(&h), strings(&["a", "b"]));
}

#[test]
fn removing_undoes_adding() {
    let mut h = two();
    let added = h.add_thermostat(entry("aa", &["s3", "s8", "s8"])).ok().unwrap();
    assert_eq!(added.therm_id, "aa");
    assert_eq!(added.device_id, "thermostat_aa");
    assert_eq!(added.display_name, "Thermostat aa");
    assert_eq!(added.sensors_added, strings(&["s8"]));
    assert_eq!(snapshot_ids(&h), strings(&["a", "aa", "b"]));
    let removed = h.remove_thermostat("aa").ok().unwrap();
    assert_eq!(removed.device_id, "thermostat_aa");
    assert_eq!(removed.state_topic, "homecore/devices/thermostat_aa/state");
    assert_eq!(removed.sensors_removed, strings(&["s8"]));
    assert_eq!(snapshot_ids(&h), strings(&["a", "b"]));
    assert_eq!(sorted(h.all_sensor_ids()), strings(&["s1", "s2", "s3"]));
    assert_eq!(
        h.remove_thermostat("aa").err().unwrap().message(),
        "thermostat not found: aa"
    );
}

#[test]
fn reloading_keeps_state_and_changes_subscriptions() {
    let mut h = two();
    h.on_sensor_state("s1", &json(r#"{"temperature":18}"#));
    let ev = evaluate(&h, "a", "heat", 0);
    h.recalculate("a", &ev);
    let mut a = entry("a", &["s1", "s5"]);
    a.setpoint = q(23.0);
    let diff = h.reload_config(&config(vec![a, entry("c", &["s6"])]));
    assert_eq!(sorted(diff.added), strings(&["s5", "s6"]));
    assert_eq!(sorted(diff.removed), strings(&["s2", "s3"]));
    let inputs = h.control_inputs("a").unwrap();
    assert!(inputs.actuator_state);
    assert_eq!(inputs.call_for, "heat");
    assert_eq!(inputs.setpoint, q(23.0));
    assert_eq!(h.control_inputs("c").unwrap().call_for, "idle");
    // A thermostat that the configuration no longer names stays.
    assert_eq!(snapshot_ids(&h), strings(&["a", "b", "c"]));
}

#[test]
fn what_is_written_back_keeps_the_other_sections() {
    let h = two();
    let plan = h.persist_config(Ok(config(vec![])), "default");
    assert_eq!(plan.path, "config.toml");
    assert_eq!(plan.partial_path, "config.toml.partial");
    assert_eq!(plan.config.homecore.broker_host, "broker");
    assert_eq!(plan.config.homecore.broker_port, 1884);
    assert_eq!(plan.config.logging, "debug");
    let ids: Vec<&str> = plan.config.thermostats.iter().map(|e| e.id.as_str()).collect();
    assert_eq!(ids, vec!["a", "b"]);
    let cfg = h.assemble_config(Err(ConfigError::PluginIdRequired), "default");
    assert_eq!(cfg.homecore.plugin_id, "plugin.thermostat");
    assert_eq!(cfg.homecore.broker_host, "127.0.0.1");
    assert_eq!(cfg.homecore.broker_port, 1883);
    assert_eq!(cfg.homecore.password, "");
    assert_eq!(cfg.homecore.heartbeat_secs, 60);
    assert_eq!(cfg.logging, "default");
    assert_eq!(cfg.thermostats.len(), 2);
    assert!(cfg.validate().is_ok());
}

#[test]
fn restarting_from_what_was_written_back_changes_nothing() {
    let mut h = two();
    h.on_device_command("thermostat_b", &json(r#"{"command":"set_setpoint","value":17}"#));
    let plan = h.persist_config(Ok(config(vec![])), "default");
    let again = BridgeHandle::new(&plan.config, "config.toml");
    assert_eq!(snapshot_ids(&again), snapshot_ids(&h));
    assert_eq!(again.snapshot()[1].setpoint, q(17.0));
    let diff = h.reload_config(&plan.config);
    assert!(diff.added.is_empty() && diff.removed.is_empty());
}

#[test]
fn what_was_written_back_loads_again() {
    let mut h = two();
    assert!(h.add_thermostat(entry("", &["s1"])).is_err());
    assert!(h.add_thermostat(entry("c", &["s4"])).is_ok());
    assert!(h.remove_thermostat("b").is_ok());
    h.on_device_command("thermostat_c", &json(r#"{"command":"set_hysteresis","value":-1}"#));
    let ev = evaluate(&h, "a", "idle", 0);
    h.recalculate("a", &ev);
    let plan = h.persist_config(Ok(config(vec![entry("old", &[])])), "default");
    let loaded = Config::load(&plan.path, ConfigSource::Parsed(plan.config)).ok().unwrap();
    assert_eq!(loaded.homecore.plugin_id, "plugin.thermostat");
    assert_eq!(loaded.homecore.broker_host, "broker");
    assert_eq!(loaded.homecore.broker_port, 1884);
    assert_eq!(loaded.homecore.password, "pw");
    assert_eq!(loaded.homecore.heartbeat_secs, 30);
    assert_eq!(loaded.logging, "debug");
    let ids: Vec<String> = loaded.thermostats.iter().map(|e| e.id.clone()).collect();
    let listed: Vec<String> = h.get_thermostats().iter().map(|e| e.id.clone()).collect();
    assert_eq!(ids, strings(&["a", "c"]));
    assert_eq!(listed, ids);
    assert_eq!(snapshot_ids(&h), ids);
    let again = BridgeHandle::new(&loaded, "config.toml");
    assert_eq!(snapshot_ids(&again), ids);
    assert_eq!(again.snapshot()[1].hysteresis, q(0.0));
    assert_eq!(again.snapshot()[1].sensor_device_ids, strings(&["s4"]));
}

#[test]
fn commands_never_leave_an_entry_that_would_be_refused() {
    let mut h = two();
    for payload in [
        r#"{"command":"set_hysteresis","value":-7}"#,
        r#"{"command":"set_mode","value":"auto"}"#,
        r#"{"command":"set_aggregation","value":""}"#,
        r#"{"command":"set_sensors","sensor_ids":[]}"#,
    ] {
        assert!(h.on_device_command("thermostat_a", &json(payload)).is_some());
        let cfg = h.assemble_config(Ok(config(vec![])), "default");
        assert!(cfg.validate().is_ok(), "{payload}");
    }
    assert_eq!(h.snapshot()[0].hysteresis, q(0.0));
}

#[test]
fn a_reading_ends_staleness() {
    let mut h = two();
    let ev = evaluate(&h, "a", "idle", 0);
    let done = h.recalculate("a", &ev).unwrap();
    assert_eq!(text(&done.payload, "call_for"), Some("stale".to_string()));
    for id in h.on_sensor_state("s2", &json(r#"{"temperature":21}"#)) {
        let ev = evaluate(&h, &id, "idle", 0);
        let done = h.recalculate(&id, &ev).unwrap();
        assert_eq!(text(&done.payload, "call_for"), Some("idle".to_string()));
    }
}

#[test]
fn reloading_without_a_thermostat_lets_its_sensors_go() {
    let mut h = two();
    let diff = h.reload_config(&config(vec![entry("a", &["s1", "s2"])]));
    assert_eq!(diff.removed, strings(&["s3"]));
    assert!(diff.added.is_empty());
    assert_eq!(sorted(h.all_sensor_ids()), strings(&["s1", "s2", "s3"]));
}

#[test]
fn tasks_carry_what_they_ask_for() {
    let task = BridgeTask::AddThermostat {
        entry: Box::new(entry("x", &[])),
    };
    assert!(matches!(task, BridgeTask::AddThermostat { entry } if entry.id == "x"));
    assert!(matches!(
        BridgeTask::RemoveThermostat { id: "x".to_string() },
        BridgeTask::RemoveThermostat { id } if id == "x"
    ));
    assert!(matches!(BridgeTask::RecalculateAll, BridgeTask::RecalculateAll));
    assert!(matches!(BridgeTask::ReloadConfig, BridgeTask::ReloadConfig));
}
