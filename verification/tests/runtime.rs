use thermostat_bridge::config::{
    default_aggregation, default_hysteresis, default_sensor_attribute, ThermostatEntry,
};
use thermostat_bridge::instant::Timestamp;
use thermostat_bridge::json::{Field, Payload};
use thermostat_bridge::quantity::Quantity;
use thermostat_bridge::runtime::{
    command_message, command_topic, is_demand, is_stale, lockout_applies, read_command, read_retained,
    resolve_call, state_topic, thermostat_id_of, ActuatorCommand, Command, Evaluation, Retained,
    Runtime,
};

const NOON: Timestamp = Timestamp {
    secs: 1_700_000_000,
    nanos: 123_456_789,
};

fn q(x: f64) -> Quantity {
    Quantity::from_bits(x.to_bits())
}

fn json(text: &str) -> serde_json::Value {
    serde_json::from_str(text).unwrap()
}

fn entry(mode: &str) -> ThermostatEntry {
    ThermostatEntry {
        id: "attic".to_string(),
        name: "Attic".to_string(),
        sensor_device_ids: vec!["s1".to_string(), "s2".to_string()],
        sensor_attribute: default_sensor_attribute(),
        aggregation: default_aggregation(),
        setpoint: q(20.0),
        hysteresis: default_hysteresis(),
        mode: mode.to_string(),
        actuator_device_id: "switch_1".to_string(),
        actuator_on_cmd: None,
        actuator_off_cmd: None,
        min_on_secs: 300,
        min_off_secs: 600,
    }
}

fn evaluation(computed: &str, remaining: u64) -> Evaluation {
    Evaluation {
        current: Some(q(18.0)),
        computed: computed.to_string(),
        remaining,
        now: NOON,
    }
}

fn run(rt: &mut Runtime, payload: &str) -> bool {
    rt.configure(read_command(&json(payload)))
}

fn field<'a>(p: &'a Payload, key: &str) -> &'a Field {
    &p.fields.iter().find(|(k, _)| k == key).unwrap().1
}

fn text(p: &Payload, key: &str) -> Option<String> {
    match field(p, key) {
        Field::Text(s) => Some(s.clone()),
        _ => None,
    }
}

/// The published state as it travels: an object in JSON.
fn written(p: &Payload) -> serde_json::Value {
    let mut object = serde_json::Map::new();
    for (key, f) in &p.fields {
        let value = match f {
            Field::Null => serde_json::Value::Null,
            Field::Bool(b) => serde_json::Value::from(*b),
            Field::Number(x) => serde_json::Value::from(f64::from_bits(x.to_bits())),
            Field::Count(n) => serde_json::Value::from(*n),
            Field::Text(s) => serde_json::Value::from(s.clone()),
            Field::Texts(l) => serde_json::Value::from(l.clone()),
            Field::Failure { timestamp, message } => {
                let mut e = serde_json::Map::new();
                e.insert("timestamp".to_string(), serde_json::Value::from(timestamp.clone()));
                e.insert("message".to_string(), serde_json::Value::from(message.clone()));
                serde_json::Value::Object(e)
            }
        };
        object.insert(key.clone(), value);
    }
    serde_json::Value::Object(object)
}

fn sent(c: Option<ActuatorCommand>) -> Option<(String, serde_json::Value)> {
    c.map(|c| (c.device_id, c.payload))
}

#[test]
fn devices_and_topics_are_named_after_thermostats() {
    assert_eq!(Runtime::new(entry("off")).device_id(), "thermostat_attic");
    assert_eq!(thermostat_id_of("thermostat_attic"), Some("attic"));
    assert_eq!(thermostat_id_of("thermostat_"), Some(""));
    assert_eq!(thermostat_id_of("lamp_attic"), None);
    assert_eq!(thermostat_id_of("Thermostat_attic"), None);
    assert_eq!(command_topic("switch_1"), "homecore/devices/switch_1/cmd");
    assert_eq!(
        state_topic("thermostat_attic"),
        "homecore/devices/thermostat_attic/state"
    );
}

#[test]
fn a_command_travels_as_json() {
    let message = command_message("switch_1", &json(r#"{ "command": "on", "a": [1, 2.5] }"#))
        .ok()
        .unwrap();
    assert_eq!(message.topic, "homecore/devices/switch_1/cmd");
    assert_eq!(message.bytes, br#"{"a":[1,2.5],"command":"on"}"#.to_vec());
}

#[test]
fn a_fresh_thermostat_is_idle() {
    let rt = Runtime::new(entry("heat"));
    assert_eq!(rt.call_for, "idle");
    assert!(!rt.actuator_state);
    assert!(rt.actuator_last_change.is_none());
    assert!(rt.pending_call.is_none());
    assert!(rt.lockout_until.is_none());
    assert!(rt.current_temperature.is_none());
    assert!(rt.actuator_last_error.is_none());
}

#[test]
fn the_published_state_holds_every_field() {
    let mut rt = Runtime::new(entry("heat"));
    rt.recalculate(true, &evaluation("heat", 0));
    rt.record_outcome(Some("broker gone".to_string()), NOON);
    let v = written(&rt.state_payload_at(Timestamp { secs: 0, nanos: 0 }));
    assert_eq!(
        v,
        json(
            r#"{"sensor_ids":["s1","s2"],"sensor_attribute":"temperature","aggregation":"average",
                "setpoint":20.0,"hysteresis":1.0,"mode":"heat","actuator_device_id":"switch_1",
                "min_on_secs":300,"min_off_secs":600,"current_temperature":18.0,
                "call_for":"heat","actuator_state":true,
                "actuator_last_change":"2023-11-14T22:13:20.123456789+00:00",
                "pending_call":null,"lockout_until":null,
                "actuator_last_error":{"timestamp":"2023-11-14T22:13:20.123456789+00:00",
                                       "message":"broker gone"},
                "last_update":"1970-01-01T00:00:00+00:00"}"#
        )
    );
}

#[test]
fn the_published_state_is_stamped_with_the_time() {
    let before = chrono::Utc::now();
    let p = Runtime::new(entry("off")).state_payload();
    let after = chrono::Utc::now();
    let stamp = text(&p, "last_update").unwrap();
    let at = chrono::DateTime::parse_from_rfc3339(&stamp).unwrap();
    assert!(before <= at && at <= after);
    assert!(matches!(field(&p, "current_temperature"), Field::Null));
    assert!(matches!(field(&p, "actuator_last_change"), Field::Null));
}

#[test]
fn a_restart_gets_the_actuator_back() {
    for nanos in [0, 5, 120_000, 987_000_000, 123_456_789] {
        let mut rt = Runtime::new(entry("heat"));
        rt.recalculate(true, &evaluation("heat", 0));
        rt.actuator_last_change = Some(Timestamp { secs: 1_700_000_000, nanos });
        let message = written(&rt.state_payload_at(NOON));
        let mut again = Runtime::new(entry("cool"));
        again.restore(read_retained(&message));
        assert_eq!(again.actuator_last_change, rt.actuator_last_change);
        assert!(again.actuator_state);
        assert_eq!(again.call_for, "heat");
        assert_eq!(again.cfg.mode, "cool");
    }
    // A leap second, and the first and the last second of the years of four digits.
    for (secs, nanos) in [
        (1_435_708_799, 1_500_000_000),
        (-62_167_219_200, 0),
        (253_402_300_799, 999_999_999),
    ] {
        let mut rt = Runtime::new(entry("heat"));
        rt.actuator_last_change = Some(Timestamp { secs, nanos });
        let mut again = Runtime::new(entry("heat"));
        again.restore(read_retained(&written(&rt.state_payload_at(NOON))));
        assert_eq!(again.actuator_last_change, Some(Timestamp { secs, nanos }));
    }
}

#[test]
fn live_state_is_kept() {
    let mut rt = Runtime::new(entry("heat"));
    rt.recalculate(true, &evaluation("heat", 0));
    rt.restore(Retained {
        actuator_last_change: Some(Timestamp { secs: 5, nanos: 0 }),
        actuator_state: Some(false),
        call_for: Some("idle".to_string()),
    });
    assert_eq!(rt.actuator_last_change, Some(NOON));
    assert!(rt.actuator_state);
    assert_eq!(rt.call_for, "heat");
}

#[test]
fn a_live_call_is_kept() {
    // No readings: the call is stale, and nothing was switched.
    let mut rt = Runtime::new(entry("heat"));
    assert!(rt.recalculate(false, &evaluation("idle", 0)).is_none());
    rt.restore(read_retained(&json(r#"{"call_for":"heat","actuator_state":true}"#)));
    assert_eq!(rt.call_for, "stale");
    assert!(rt.actuator_state);
    // The same where the call was restored as stale before it was recalculated.
    let mut rt = Runtime::new(entry("heat"));
    rt.restore(read_retained(&json(r#"{"call_for":"stale"}"#)));
    assert_eq!(rt.call_for, "stale");
    rt.recalculate(false, &evaluation("idle", 0));
    rt.restore(read_retained(&json(r#"{"call_for":"cool"}"#)));
    assert_eq!(rt.call_for, "stale");
    // A lockout, and a call that asks for nothing.
    let mut rt = Runtime::new(entry("heat"));
    rt.recalculate(true, &evaluation("heat", 60));
    rt.restore(read_retained(&json(r#"{"call_for":"cool"}"#)));
    assert_eq!(rt.call_for, "heat");
    let mut rt = Runtime::new(entry("heat"));
    rt.recalculate(true, &evaluation("idle", 0));
    rt.restore(read_retained(&json(r#"{"call_for":"heat"}"#)));
    assert_eq!(rt.call_for, "idle");
}

#[test]
fn retained_state_is_read_as_far_as_it_can_be() {
    let told = read_retained(&json(
        r#"{"actuator_last_change":"2023-11-14T23:13:20.5+01:00","actuator_state":true,"call_for":"cool"}"#,
    ));
    assert_eq!(
        told.actuator_last_change,
        Some(Timestamp {
            secs: 1_700_000_000,
            nanos: 500_000_000
        })
    );
    assert_eq!(told.actuator_state, Some(true));
    assert_eq!(told.call_for, Some("cool".to_string()));
    let told = read_retained(&json(
        r#"{"actuator_last_change":"yesterday","actuator_state":"on","call_for":7}"#,
    ));
    assert!(told.actuator_last_change.is_none());
    assert!(told.actuator_state.is_none());
    assert!(told.call_for.is_none());

    let mut rt = Runtime::new(entry("heat"));
    rt.restore(read_retained(&json(r#"{"actuator_state":true}"#)));
    assert!(rt.actuator_state);
    assert_eq!(rt.call_for, "idle");
    assert!(rt.actuator_last_change.is_none());
}

#[test]
fn commands_set_what_they_name() {
    let mut rt = Runtime::new(entry("off"));
    assert!(run(&mut rt, r#"{"command":"set_setpoint","value":21}"#));
    assert_eq!(rt.cfg.setpoint, q(21.0));
    assert!(run(&mut rt, r#"{"command":"set_mode","value":"heat"}"#));
    assert_eq!(rt.cfg.mode, "heat");
    assert!(run(&mut rt, r#"{"command":"set_hysteresis","value":0.5}"#));
    assert_eq!(rt.cfg.hysteresis, q(0.5));
    assert!(run(&mut rt, r#"{"command":"set_hysteresis","value":-2}"#));
    assert_eq!(rt.cfg.hysteresis, q(0.0));
    assert!(run(&mut rt, r#"{"command":"set_aggregation","value":"max"}"#));
    assert_eq!(rt.cfg.aggregation, "max");
    assert!(run(&mut rt, r#"{"command":"set_short_cycle","min_on_secs":10}"#));
    assert_eq!((rt.cfg.min_on_secs, rt.cfg.min_off_secs), (10, 600));
    assert!(run(&mut rt, r#"{"command":"set_short_cycle","min_off_secs":20}"#));
    assert_eq!((rt.cfg.min_on_secs, rt.cfg.min_off_secs), (10, 20));
    assert!(run(
        &mut rt,
        r#"{"command":"set_sensors","sensor_ids":["x",3,"y"],"attribute":"temp"}"#
    ));
    assert_eq!(rt.cfg.sensor_device_ids, vec!["x".to_string(), "y".to_string()]);
    assert_eq!(rt.cfg.sensor_attribute, "temp");
    assert!(run(
        &mut rt,
        r#"{"command":"set_actuator","device_id":"relay","on_cmd":{"on":true},"off_cmd":null}"#
    ));
    assert_eq!(rt.cfg.actuator_device_id, "relay");
    assert_eq!(rt.cfg.actuator_on_cmd, Some(json(r#"{"on":true}"#)));
    assert_eq!(rt.cfg.actuator_off_cmd, Some(serde_json::Value::Null));
    assert_eq!(rt.cfg.id, "attic");
    assert_eq!(rt.cfg.name, "Attic");
}

#[test]
fn commands_that_set_nothing_change_nothing() {
    for payload in [
        r#"{"command":"set_setpoint","value":"warm"}"#,
        r#"{"command":"set_setpoint"}"#,
        r#"{"command":"set_mode","value":"auto"}"#,
        r#"{"command":"set_aggregation","value":"median"}"#,
        r#"{"command":"set_short_cycle","min_on_secs":-1}"#,
        r#"{"command":"set_sensors","sensor_ids":"s9"}"#,
        r#"{"command":"set_actuator"}"#,
        r#"{"command":"recalculate"}"#,
        r#"{"value":30}"#,
        r#"[]"#,
    ] {
        let mut rt = Runtime::new(entry("cool"));
        assert!(!run(&mut rt, payload), "{payload}");
        assert_eq!(rt.cfg.setpoint, q(20.0));
        assert_eq!(rt.cfg.mode, "cool");
        assert_eq!(rt.cfg.aggregation, "average");
        assert_eq!((rt.cfg.min_on_secs, rt.cfg.min_off_secs), (300, 600));
        assert_eq!(rt.cfg.sensor_device_ids.len(), 2);
        assert_eq!(rt.cfg.actuator_device_id, "switch_1");
    }
    assert!(matches!(read_command(&json(r#"{"command":"reboot"}"#)), Command::Unknown));
    assert!(matches!(read_command(&json(r#"{"command":3}"#)), Command::Recalculate));
}

#[test]
fn decisions_of_the_control_loop() {
    assert!(is_stale("heat", false));
    assert!(!is_stale("heat", true));
    assert!(!is_stale("off", false));
    assert_eq!(resolve_call("heat", Some(q(18.0)), "heat"), "heat");
    assert_eq!(resolve_call("heat", None, "heat"), "idle");
    assert_eq!(resolve_call("off", Some(q(18.0)), "heat"), "idle");
    assert!(is_demand("heat") && is_demand("cool"));
    assert!(!is_demand("idle") && !is_demand("stale"));
    assert!(lockout_applies("heat", false, "heat"));
    assert!(lockout_applies("heat", true, "idle"));
    assert!(!lockout_applies("heat", true, "heat"));
    assert!(!lockout_applies("off", true, "idle"));
    assert!(!lockout_applies("off", false, "idle"));
}

#[test]
fn switching_sends_one_command() {
    let mut rt = Runtime::new(entry("heat"));
    let command = sent(rt.recalculate(true, &evaluation("heat", 0)));
    assert_eq!(
        command,
        Some(("switch_1".to_string(), json(r#"{"command":"on"}"#)))
    );
    assert!(rt.actuator_state);
    assert_eq!(rt.actuator_last_change, Some(NOON));
    assert_eq!(rt.call_for, "heat");
    assert_eq!(rt.current_temperature, Some(q(18.0)));
    // The same again sends nothing more.
    assert!(rt.recalculate(true, &evaluation("heat", 0)).is_none());
    assert!(rt.actuator_state);
    let command = sent(rt.recalculate(true, &evaluation("idle", 0)));
    assert_eq!(
        command,
        Some(("switch_1".to_string(), json(r#"{"command":"off"}"#)))
    );
    assert!(!rt.actuator_state);
}

#[test]
fn configured_commands_are_sent_as_they_are() {
    let mut e = entry("cool");
    e.actuator_on_cmd = Some(json(r#"{"state":"ON"}"#));
    e.actuator_off_cmd = Some(json(r#"{"state":"OFF"}"#));
    let mut rt = Runtime::new(e);
    let on = sent(rt.recalculate(true, &evaluation("cool", 0)));
    assert_eq!(on.unwrap().1, json(r#"{"state":"ON"}"#));
    let off = sent(rt.recalculate(true, &evaluation("idle", 0)));
    assert_eq!(off.unwrap().1, json(r#"{"state":"OFF"}"#));
    // A negative integer stays one.
    for number in ["-5", "-5.0", "-0.0", "5", "18446744073709551615"] {
        let mut e = entry("heat");
        e.actuator_on_cmd = Some(json(number));
        let mut rt = Runtime::new(e);
        let command = rt.recalculate(true, &evaluation("heat", 0)).unwrap();
        let message = command_message(&command.device_id, &command.payload).ok().unwrap();
        assert_eq!(message.bytes, number.as_bytes());
    }
}

#[test]
fn without_an_actuator_the_state_changes_silently() {
    let mut e = entry("heat");
    e.actuator_device_id = String::new();
    let mut rt = Runtime::new(e);
    assert!(rt.recalculate(true, &evaluation("heat", 0)).is_none());
    assert!(rt.actuator_state);
    assert_eq!(rt.actuator_last_change, Some(NOON));
}

#[test]
fn a_lockout_defers_the_switch() {
    let mut rt = Runtime::new(entry("heat"));
    assert!(rt.recalculate(true, &evaluation("heat", 90)).is_none());
    assert!(!rt.actuator_state);
    assert!(rt.actuator_last_change.is_none());
    assert_eq!(rt.pending_call, Some("heat".to_string()));
    assert_eq!(
        rt.lockout_until,
        Some(Timestamp {
            secs: 1_700_000_090,
            nanos: 123_456_789
        })
    );
    assert_eq!(rt.call_for, "heat");
    // Once it is over, the switch is made and nothing is pending.
    assert!(rt.recalculate(true, &evaluation("heat", 0)).is_some());
    assert!(rt.actuator_state);
    assert!(rt.pending_call.is_none() && rt.lockout_until.is_none());
}

#[test]
fn a_call_that_goes_away_is_no_longer_pending() {
    let mut rt = Runtime::new(entry("heat"));
    rt.recalculate(true, &evaluation("heat", 90));
    assert!(rt.recalculate(true, &evaluation("idle", 90)).is_none());
    assert!(rt.pending_call.is_none() && rt.lockout_until.is_none());
    assert_eq!(rt.call_for, "idle");
}

#[test]
fn turning_off_overrides_the_lockout() {
    let mut rt = Runtime::new(entry("heat"));
    rt.recalculate(true, &evaluation("heat", 0));
    rt.cfg.mode = "off".to_string();
    let command = sent(rt.recalculate(false, &evaluation("heat", 300)));
    assert_eq!(command.unwrap().1, json(r#"{"command":"off"}"#));
    assert!(!rt.actuator_state);
    assert_eq!(rt.call_for, "idle");
    assert!(rt.pending_call.is_none());
}

#[test]
fn without_readings_the_actuator_stays() {
    let mut rt = Runtime::new(entry("heat"));
    rt.recalculate(true, &evaluation("heat", 0));
    assert!(rt.recalculate(false, &evaluation("idle", 0)).is_none());
    assert_eq!(rt.call_for, "stale");
    assert!(rt.current_temperature.is_none());
    assert!(rt.actuator_state);
}

#[test]
fn a_success_clears_the_error() {
    let mut rt = Runtime::new(entry("heat"));
    rt.record_outcome(Some("broker gone".to_string()), NOON);
    let e = rt.actuator_last_error.as_ref().unwrap();
    assert_eq!((e.message.as_str(), e.timestamp), ("broker gone", NOON));
    rt.record_outcome(None, NOON);
    assert!(rt.actuator_last_error.is_none());
}
