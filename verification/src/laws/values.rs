//! What the strings, floats, points in time and JSON values that everything else
//! is said in terms of come to.

use crate::config::{ConfigError, ConfigFault, HomecoreSection, ThermostatEntry};
use crate::instant::Timestamp;
use crate::json::{json_content, json_contents, strings_of, Field, FieldView, JsonNode, Payload};
use crate::quantity::Quantity;
use crate::runtime::{
    opt_command, ActuatorCommand, Command, CommandView, Evaluation, Retained, Runtime,
};
use crate::text::{lex_le, names, texts};
use serde_json::Value;
use vstd::prelude::*;

verus! {

// ── Strings ─────────────────────────────────────────────────────────────────

/// Whether two strings agree before a place, and the first one ends there or has
/// the smaller code point there.
pub open spec fn comes_first_at(a: Seq<char>, b: Seq<char>, k: int) -> bool {
    &&& 0 <= k <= a.len()
    &&& k <= b.len()
    &&& a.take(k) == b.take(k)
    &&& k == a.len() || (k < b.len() && (a[k] as int) < (b[k] as int))
}

/// Strings are ordered by the first place at which they differ, and a string
/// comes before those that it begins.
pub proof fn order_is_by_the_first_difference(a: Seq<char>, b: Seq<char>)
    ensures
        lex_le(a, b) <==> exists|k: int| comes_first_at(a, b, k),
    decreases a.len(),
{
    if a.len() == 0 {
        assert(a.take(0) =~= b.take(0));
        assert(comes_first_at(a, b, 0));
    } else if b.len() > 0 {
        let ra = a.skip(1);
        let rb = b.skip(1);
        order_is_by_the_first_difference(ra, rb);
        if a[0] != b[0] {
            if lex_le(a, b) {
                assert(a.take(0) =~= b.take(0));
                assert(comes_first_at(a, b, 0));
            }
            if exists|k: int| comes_first_at(a, b, k) {
                let k = choose|k: int| comes_first_at(a, b, k);
                if k > 0 {
                    assert(a.take(k)[0] == b.take(k)[0]);
                }
            }
        } else {
            if lex_le(a, b) {
                let k = choose|k: int| comes_first_at(ra, rb, k);
                assert forall|j: int| 0 <= j < k + 1 implies a[j] == b[j] by {
                    if j > 0 {
                        assert(ra.take(k)[j - 1] == rb.take(k)[j - 1]);
                    }
                }
                assert(a.take(k + 1) =~= b.take(k + 1));
                assert(comes_first_at(a, b, k + 1));
            }
            if exists|k: int| comes_first_at(a, b, k) {
                let k = choose|k: int| comes_first_at(a, b, k);
                assert forall|j: int| 0 <= j < k - 1 implies ra[j] == rb[j] by {
                    assert(a.take(k)[j + 1] == b.take(k)[j + 1]);
                }
                assert(ra.take(k - 1) =~= rb.take(k - 1));
                assert(comes_first_at(ra, rb, k - 1));
            }
        }
    }
}

/// A list of strings is seen string by string, and its names are those that
/// stand in it.
pub proof fn lists_are_seen_string_by_string(list: Seq<String>, s: Seq<char>)
    ensures
        texts(list).len() == list.len(),
        forall|i: int| 0 <= i < list.len() ==> #[trigger] texts(list)[i] == list[i]@,
        names(list).contains(s) <==> exists|i: int|
            0 <= i < list.len() && (#[trigger] list[i])@ == s,
{
    if names(list).contains(s) {
        let i = choose|i: int| 0 <= i < texts(list).len() && texts(list)[i] == s;
        assert(list[i]@ == s);
    }
    if exists|i: int| 0 <= i < list.len() && (#[trigger] list[i])@ == s {
        let i = choose|i: int| 0 <= i < list.len() && (#[trigger] list[i])@ == s;
        assert(texts(list)[i] == s);
    }
}

// ── Floats ──────────────────────────────────────────────────────────────────

/// Less than zero are the numbers from the smallest negative one down to
/// negative infinity, and finite are the numbers short of either infinity.
pub proof fn negative_numbers_by_their_bits(q: Quantity)
    ensures
        q.below_zero() <==> 0x8000_0000_0000_0000 < q.bits <= 0xFFF0_0000_0000_0000,
        q.finite() <==> q.bits < 0x7FF0_0000_0000_0000 || 0x8000_0000_0000_0000 <= q.bits
            < 0xFFF0_0000_0000_0000,
        q.not_a_number() <==> 0x7FF0_0000_0000_0000 < q.bits < 0x8000_0000_0000_0000 || q.bits
            > 0xFFF0_0000_0000_0000,
{
}

/// Raising to zero leaves what is not below zero, and makes zero of everything
/// else.
pub proof fn raising_to_zero(q: Quantity)
    ensures
        q.bits <= 0x7FF0_0000_0000_0000 || q.bits == 0x8000_0000_0000_0000 ==> q.clamped() == q,
        !(q.bits <= 0x7FF0_0000_0000_0000 || q.bits == 0x8000_0000_0000_0000)
            ==> q.clamped().bits == 0,
        !q.clamped().below_zero(),
        !q.clamped().not_a_number(),
{
}

// ── Points in time ──────────────────────────────────────────────────────────

/// A point some seconds later has that many seconds more and the same
/// nanoseconds, and going back the same way leads back.
pub proof fn shifting_adds_seconds(t: Timestamp, secs: int)
    requires
        -8_334_601_228_800 <= t.secs <= 8_210_266_876_799,
        -8_334_601_228_800 <= t.secs + secs <= 8_210_266_876_799,
    ensures
        t.can_shift(secs),
        t.shifted(secs).secs == t.secs + secs,
        t.shifted(secs).nanos == t.nanos,
        t.shifted(secs).shifted(-secs) == t,
        t.ordinary() ==> t.shifted(secs).ordinary(),
{
}

/// Every second of the calendar, with every nanosecond of it, is an ordinary
/// point; a leap second is a valid one at the end of a minute; and the years from 0 to 9999 are those with four digits.
pub proof fn ordinary_points(t: Timestamp)
    ensures
        t.ordinary() <==> -8_334_601_228_800 <= t.secs <= 8_210_266_876_799 && t.nanos
            < 1_000_000_000,
        t.valid() <==> -8_334_601_228_800 <= t.secs <= 8_210_266_876_799 && (t.nanos
            < 1_000_000_000 || (t.nanos < 2_000_000_000 && t.secs % 60 == 59)),
        t.four_digit_year() <==> -62_167_219_200 <= t.secs <= 253_402_300_799,
{
}

// ── JSON ────────────────────────────────────────────────────────────────────

/// A list of JSON values holds what they hold, in their order.
pub proof fn lists_hold_what_their_items_hold(list: Seq<Value>)
    ensures
        json_contents(list).len() == list.len(),
        forall|i: int|
            0 <= i < list.len() ==> #[trigger] json_contents(list)[i] == json_content(list[i]),
{
}

/// An object has the members that it holds, and nothing else has any.
pub proof fn members_of_objects(members: Map<Seq<char>, JsonNode>, n: JsonNode, key: Seq<char>)
    ensures
        JsonNode::Object(members).member(key) == (if members.contains_key(key) {
            Some(members[key])
        } else {
            None
        }),
        !(n is Object) ==> n.member(key) is None,
{
}

/// What stands under a key is read as what it is: a string as a string, a truth
/// value as a truth value, a number as a float and, where it is one, as an
/// unsigned integer; and as nothing else.
pub proof fn members_are_read_as_what_they_are(n: JsonNode, key: Seq<char>)
    ensures
        forall|s: Seq<char>|
            n.member_text(key) == Some(s) <==> n.member(key) == Some(JsonNode::Text(s)),
        forall|b: bool| n.member_bool(key) == Some(b) <==> n.member(key) == Some(JsonNode::Bool(b)),
        forall|q: Quantity|
            n.member_float(key) == Some(q) <==> (n.member(key) matches Some(
                JsonNode::Number { float, .. },
            ) && float == q),
        forall|c: u64|
            n.member_unsigned(key) == Some(c) <==> (n.member(key) matches Some(
                JsonNode::Number { unsigned: Some(u), .. },
            ) && u == c),
        n.member_texts(key) is Some <==> n.member(key) matches Some(JsonNode::List(_)),
        n.member(key) matches Some(JsonNode::List(items)) ==> n.member_texts(key) == Some(
            strings_of(items),
        ),
{
}

/// The strings of a list are the strings of its parts, in their order: of one
/// value they are that value where it is a string, and nothing where it is not.
pub proof fn strings_keep_their_order(a: Seq<JsonNode>, b: Seq<JsonNode>, n: JsonNode)
    ensures
        strings_of(a + b) == strings_of(a) + strings_of(b),
        n matches JsonNode::Text(s) ==> strings_of(seq![n]) == seq![s],
        !(n is Text) ==> strings_of(seq![n]) == Seq::<Seq<char>>::empty(),
    decreases b.len(),
{
    assert(seq![n].drop_last() =~= Seq::<JsonNode>::empty());
    assert(strings_of(Seq::<JsonNode>::empty()) == Seq::<Seq<char>>::empty());
    assert(strings_of(seq![n].drop_last()) == Seq::<Seq<char>>::empty());
    if b.len() == 0 {
        assert(a + b =~= a);
        assert(strings_of(b) =~= Seq::<Seq<char>>::empty());
        assert(strings_of(a) + strings_of(b) =~= strings_of(a));
    } else {
        strings_keep_their_order(a, b.drop_last(), n);
        assert((a + b).drop_last() =~= a + b.drop_last());
        assert((a + b).last() == b.last());
        assert(strings_of(a + b) =~= strings_of(a) + strings_of(b));
    }
    if n is Text {
        assert(strings_of(seq![n]) =~= seq![n->Text_0]);
    }
}

// ── What is seen of a value ─────────────────────────────────────────────────

/// All of an entry is seen, field by field.
pub proof fn entries_are_seen_whole(e: ThermostatEntry)
    ensures
        e@.id == e.id@,
        e@.name == e.name@,
        e@.sensor_device_ids.len() == e.sensor_device_ids@.len(),
        forall|i: int|
            0 <= i < e.sensor_device_ids@.len() ==> #[trigger] e@.sensor_device_ids[i]
                == e.sensor_device_ids@[i]@,
        e@.sensor_attribute == e.sensor_attribute@,
        e@.aggregation == e.aggregation@,
        e@.setpoint == e.setpoint,
        e@.hysteresis == e.hysteresis,
        e@.mode == e.mode@,
        e@.actuator_device_id == e.actuator_device_id@,
        e.actuator_on_cmd matches Some(v) ==> e@.actuator_on_cmd == Some(json_content(v)),
        e.actuator_on_cmd is None ==> e@.actuator_on_cmd is None,
        e.actuator_off_cmd matches Some(v) ==> e@.actuator_off_cmd == Some(json_content(v)),
        e.actuator_off_cmd is None ==> e@.actuator_off_cmd is None,
        e@.min_on_secs == e.min_on_secs,
        e@.min_off_secs == e.min_off_secs,
{
}

/// All of the hub's section is seen, field by field.
pub proof fn sections_are_seen_whole(s: HomecoreSection)
    ensures
        s@.plugin_id == s.plugin_id@,
        s@.broker_host == s.broker_host@,
        s@.broker_port == s.broker_port,
        s@.password == s.password@,
        s@.heartbeat_secs == s.heartbeat_secs,
{
}

/// All of a thermostat is seen, field by field.
pub proof fn thermostats_are_seen_whole(rt: Runtime)
    ensures
        rt@.cfg == rt.cfg@,
        rt@.current_temperature == rt.current_temperature,
        rt@.call_for == rt.call_for@,
        rt@.call_is_live == rt.call_is_live,
        rt@.actuator_state == rt.actuator_state,
        rt@.actuator_last_change == rt.actuator_last_change,
        rt.pending_call matches Some(s) ==> rt@.pending_call == Some(s@),
        rt.pending_call is None ==> rt@.pending_call is None,
        rt@.lockout_until == rt.lockout_until,
        rt.actuator_last_error matches Some(e) ==> (rt@.actuator_last_error matches Some(seen)
            && seen.timestamp == e.timestamp && seen.message == e.message@),
        rt.actuator_last_error is None ==> rt@.actuator_last_error is None,
{
}

/// All of an evaluation, of what a retained message tells and of a command to an
/// actuator is seen.
pub proof fn what_goes_in_and_out_is_seen_whole(ev: Evaluation, told: Retained, c: ActuatorCommand)
    ensures
        ev@.current == ev.current,
        ev@.computed == ev.computed@,
        ev@.remaining == ev.remaining,
        ev@.now == ev.now,
        told@.actuator_last_change == told.actuator_last_change,
        told@.actuator_state == told.actuator_state,
        told.call_for matches Some(s) ==> told@.call_for == Some(s@),
        told.call_for is None ==> told@.call_for is None,
        opt_command(Some(c)) == Some((c.device_id@, json_content(c.payload))),
        opt_command(None) is None,
{
}

/// A command is seen as the command that it is, with the arguments that it has.
pub proof fn commands_are_seen_whole(cmd: Command)
    ensures
        match cmd {
            Command::SetSetpoint(q) => cmd@ == CommandView::SetSetpoint(q),
            Command::SetMode(Some(m)) => cmd@ == CommandView::SetMode(Some(m@)),
            Command::SetMode(None) => cmd@ == CommandView::SetMode(None),
            Command::SetHysteresis(q) => cmd@ == CommandView::SetHysteresis(q),
            Command::SetAggregation(Some(a)) => cmd@ == CommandView::SetAggregation(Some(a@)),
            Command::SetAggregation(None) => cmd@ == CommandView::SetAggregation(None),
            Command::SetShortCycle { min_on_secs, min_off_secs } => cmd@
                == (CommandView::SetShortCycle { min_on_secs, min_off_secs }),
            Command::SetSensors { sensor_ids, attribute } => cmd@ matches CommandView::SetSensors {
                sensor_ids: ids,
                attribute: a,
            } && (ids is Some <==> sensor_ids is Some) && (a is Some <==> attribute is Some) && (
            sensor_ids matches Some(l) ==> ids == Some(texts(l@))) && (attribute matches Some(s)
                ==> a == Some(s@)),
            Command::SetActuator { device_id, on_cmd, off_cmd } => cmd@
                matches CommandView::SetActuator { device_id: d, on_cmd: on, off_cmd: off } && (
            d is Some <==> device_id is Some) && (on is Some <==> on_cmd is Some) && (off is Some
                <==> off_cmd is Some) && (device_id matches Some(s) ==> d == Some(s@)) && (
            on_cmd matches Some(v) ==> on == Some(json_content(v))) && (off_cmd matches Some(v)
                ==> off == Some(json_content(v))),
            Command::Recalculate => cmd@ is Recalculate,
            Command::Unknown => cmd@ is Unknown,
        },
{
}

/// A field of a published state is seen as what it is.
pub proof fn fields_are_seen_whole(f: Field)
    ensures
        match f {
            Field::Null => f@ is Null,
            Field::Bool(b) => f@ == FieldView::Bool(b),
            Field::Number(q) => f@ == FieldView::Number(q),
            Field::Count(c) => f@ == FieldView::Count(c),
            Field::Text(s) => f@ == FieldView::Text(s@),
            Field::Texts(l) => f@ == FieldView::Texts(texts(l@)),
            Field::Failure { timestamp, message } => f@ == (FieldView::Failure {
                timestamp: timestamp@,
                message: message@,
            }),
        },
{
}

/// A payload is seen field by field, in their order.
pub proof fn payloads_are_seen_field_by_field(p: Payload)
    ensures
        p@.len() == p.fields@.len(),
        forall|i: int|
            0 <= i < p.fields@.len() ==> #[trigger] p@[i] == (p.fields@[i].0@, p.fields@[i].1@),
{
}

/// A refusal is seen as the refusal that it is, with what it names.
pub proof fn refusals_are_seen_whole(e: ConfigError)
    ensures
        match e {
            ConfigError::Unreadable { path, cause } => e@ == (ConfigFault::Unreadable {
                path: path@,
                cause: cause@,
            }),
            ConfigError::Unparsable { path, cause } => e@ == (ConfigFault::Unparsable {
                path: path@,
                cause: cause@,
            }),
            ConfigError::PluginIdRequired => e@ is PluginIdRequired,
            ConfigError::ThermostatIdRequired => e@ is ThermostatIdRequired,
            ConfigError::UnknownMode { id, mode } => e@ == (ConfigFault::UnknownMode {
                id: id@,
                mode: mode@,
            }),
            ConfigError::UnknownAggregation { id, aggregation } => e@
                == (ConfigFault::UnknownAggregation { id: id@, aggregation: aggregation@ }),
            ConfigError::NegativeHysteresis { id } => e@ == (ConfigFault::NegativeHysteresis {
                id: id@,
            }),
        },
{
}

// ── Words ───────────────────────────────────────────────────────────────────

/// What may be called for are different words.
pub(crate) proof fn calls_differ()
    ensures
        "idle"@ != "heat"@,
        "idle"@ != "cool"@,
        "idle"@ != "stale"@,
        "stale"@ != "heat"@,
        "stale"@ != "cool"@,
        "heat"@ != "cool"@,
        "heat"@ != "off"@,
        "cool"@ != "off"@,
{
    reveal_strlit("idle");
    reveal_strlit("heat");
    reveal_strlit("cool");
    reveal_strlit("stale");
    reveal_strlit("off");
    assert("idle"@[0] == 'i');
    assert("heat"@[0] == 'h');
    assert("cool"@[0] == 'c');
    assert("stale"@[0] == 's');
    assert("off"@[0] == 'o');
}

/// The names of the commands are different words.
pub(crate) proof fn command_names_differ()
    ensures
        "set_setpoint"@.len() == 12 && "set_setpoint"@[4] == 's',
        "set_mode"@.len() == 8,
        "set_hysteresis"@.len() == 14,
        "set_aggregation"@.len() == 15 && "set_aggregation"@[4] == 'a',
        "set_short_cycle"@.len() == 15 && "set_short_cycle"@[4] == 's',
        "set_sensors"@.len() == 11 && "set_sensors"@[4] == 's',
        "set_actuator"@.len() == 12 && "set_actuator"@[4] == 'a',
        "recalculate"@.len() == 11 && "recalculate"@[4] == 'l',
        ""@.len() == 0,
{
    reveal_strlit("set_setpoint");
    reveal_strlit("set_mode");
    reveal_strlit("set_hysteresis");
    reveal_strlit("set_aggregation");
    reveal_strlit("set_short_cycle");
    reveal_strlit("set_sensors");
    reveal_strlit("set_actuator");
    reveal_strlit("recalculate");
    reveal_strlit("");
}

} // verus!
