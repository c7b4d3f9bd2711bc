use thermostat_bridge::instant::{Timestamp, FIRST_SECOND, LAST_SECOND, YEAR_9999, YEAR_ZERO};
use thermostat_bridge::json::{
    member_bool, member_float, member_text, member_texts, member_unsigned, member_value,
};
use thermostat_bridge::quantity::Quantity;
use thermostat_bridge::text::{add_text, contains_text, each_once, joined, missing_from};

fn q(x: f64) -> Quantity {
    Quantity::from_bits(x.to_bits())
}

fn strings(list: &[&str]) -> Vec<String> {
    list.iter().map(|s| s.to_string()).collect()
}

fn json(text: &str) -> serde_json::Value {
    serde_json::from_str(text).unwrap()
}

#[test]
fn quantities_agree_with_floats() {
    let samples = [
        0.0,
        -0.0,
        1.0,
        -1.0,
        21.5,
        -40.0,
        f64::MIN_POSITIVE,
        -f64::MIN_POSITIVE,
        5e-324,
        -5e-324,
        f64::MAX,
        f64::MIN,
        f64::INFINITY,
        f64::NEG_INFINITY,
        f64::NAN,
        -f64::NAN,
    ];
    for x in samples {
        assert_eq!(q(x).is_below_zero(), x < 0.0, "{x}");
        let clamped = f64::from_bits(q(x).at_least_zero().to_bits());
        assert_eq!(clamped, x.max(0.0), "{x}");
    }
    assert_eq!(q(-3.5).at_least_zero(), q(0.0));
    assert_eq!(q(f64::NAN).at_least_zero(), q(0.0));
    assert_eq!(q(2.5).at_least_zero(), q(2.5));
}

#[test]
fn the_range_of_instants_is_that_of_the_calendar() {
    assert_eq!(chrono::DateTime::<chrono::Utc>::MIN_UTC.timestamp(), FIRST_SECOND);
    assert_eq!(chrono::DateTime::<chrono::Utc>::MAX_UTC.timestamp(), LAST_SECOND);
    let at = |secs| {
        chrono::DateTime::<chrono::Utc>::from_timestamp(secs, 0)
            .unwrap()
            .to_rfc3339()
    };
    assert_eq!(at(YEAR_ZERO), "0000-01-01T00:00:00+00:00");
    assert_eq!(at(YEAR_9999), "9999-12-31T23:59:59+00:00");
    assert_eq!(at(YEAR_9999 + 1), "+10000-01-01T00:00:00+00:00");
    assert_eq!(
        Timestamp { secs: 1, nanos: 2 },
        Timestamp { secs: 1, nanos: 2 }
    );
}

#[test]
fn members_are_read_by_their_kind() {
    let v = json(
        r#"{"t":"text","n":21,"x":21.5,"m":-3,"b":true,"z":null,"l":["a",1,"b",null],"o":{"k":"v"}}"#,
    );
    assert_eq!(member_text(&v, "t"), Some("text".to_string()));
    assert_eq!(member_text(&v, "n"), None);
    assert_eq!(member_text(&v, "missing"), None);
    assert_eq!(member_float(&v, "n"), Some(q(21.0)));
    assert_eq!(member_float(&v, "x"), Some(q(21.5)));
    assert_eq!(member_float(&v, "m"), Some(q(-3.0)));
    assert_eq!(member_float(&v, "t"), None);
    assert_eq!(member_unsigned(&v, "n"), Some(21));
    assert_eq!(member_unsigned(&v, "x"), None);
    assert_eq!(member_unsigned(&v, "m"), None);
    assert_eq!(member_bool(&v, "b"), Some(true));
    assert_eq!(member_bool(&v, "n"), None);
    assert_eq!(member_texts(&v, "l"), Some(strings(&["a", "b"])));
    assert_eq!(member_texts(&v, "t"), None);
    assert_eq!(member_value(&v, "z"), Some(serde_json::Value::Null));
    assert_eq!(member_value(&v, "o"), Some(json(r#"{"k":"v"}"#)));
    assert_eq!(member_value(&v, "missing"), None);
    let list = json(r#"["t"]"#);
    assert_eq!(member_text(&list, "t"), None);
}

#[test]
fn lists_stand_for_sets() {
    let mut list = strings(&["b"]);
    add_text(&mut list, &"a".to_string());
    add_text(&mut list, &"b".to_string());
    assert_eq!(list, strings(&["b", "a"]));
    assert!(contains_text(&list, "a"));
    assert!(!contains_text(&list, "c"));
    assert_eq!(
        each_once(&strings(&["x", "y", "x", "z", "y"])),
        strings(&["x", "y", "z"])
    );
    assert_eq!(
        missing_from(&strings(&["x", "y", "z"]), &strings(&["y"])),
        strings(&["x", "z"])
    );
    assert_eq!(joined("one", "two"), "onetwo");
}
