//! One thermostat at work: what it last published, how commands and retained
//! state change it, and when it switches its actuator.

use crate::config::{
    is_known_aggregation, is_known_mode, known_aggregation, known_mode, EntryView, ThermostatEntry,
};
use crate::instant::{
    after_seconds, parse_rfc3339, rfc3339_instant, rfc3339_text, to_rfc3339, utc_now, Timestamp,
};
use crate::json::{
    duplicate_value, json_content, json_written, member_bool, member_float, member_text,
    member_texts, member_unsigned, member_value, object_of, object_written, opt_content,
    to_bytes, Field, FieldView, JsonNode, Payload,
};
use crate::quantity::Quantity;
use crate::text::{
    duplicate_list, has_prefix, joined, opt_text, opt_texts, prefix_comes_off, same_text,
    without_prefix,
};
use serde_json::Value;
use vstd::prelude::*;

verus! {

/// What became of the last actuator command that could not be published.
pub struct ActuatorError {
    pub timestamp: Timestamp,
    pub message: String,
}

/// A thermostat and what it last published.
pub struct Runtime {
    pub cfg: ThermostatEntry,
    pub current_temperature: Option<Quantity>,
    pub call_for: String,
    /// Whether a recalculation has set `call_for` since the start.
    pub call_is_live: bool,
    pub actuator_state: bool,
    pub actuator_last_change: Option<Timestamp>,
    pub pending_call: Option<String>,
    pub lockout_until: Option<Timestamp>,
    /// The last failure to publish an actuator command; cleared by the next
    /// success.
    pub actuator_last_error: Option<ActuatorError>,
}

pub struct ErrorView {
    pub timestamp: Timestamp,
    pub message: Seq<char>,
}

pub struct RuntimeView {
    pub cfg: EntryView,
    pub current_temperature: Option<Quantity>,
    pub call_for: Seq<char>,
    pub call_is_live: bool,
    pub actuator_state: bool,
    pub actuator_last_change: Option<Timestamp>,
    pub pending_call: Option<Seq<char>>,
    pub lockout_until: Option<Timestamp>,
    pub actuator_last_error: Option<ErrorView>,
}

pub open spec fn opt_error(e: Option<ActuatorError>) -> Option<ErrorView> {
    match e {
        Some(e) => Some(ErrorView { timestamp: e.timestamp, message: e.message@ }),
        None => None,
    }
}

impl View for Runtime {
    type V = RuntimeView;

    open spec fn view(&self) -> RuntimeView {
        RuntimeView {
            cfg: self.cfg@,
            current_temperature: self.current_temperature,
            call_for: self.call_for@,
            call_is_live: self.call_is_live,
            actuator_state: self.actuator_state,
            actuator_last_change: self.actuator_last_change,
            pending_call: opt_text(self.pending_call),
            lockout_until: self.lockout_until,
            actuator_last_error: opt_error(self.actuator_last_error),
        }
    }
}

pub open spec fn opt_valid(t: Option<Timestamp>) -> bool {
    t matches Some(at) ==> at.valid()
}

impl RuntimeView {
    /// Every point in time that it holds can be written, and a lockout ends at
    /// some point exactly while a call is pending.
    pub open spec fn wf(self) -> bool {
        &&& opt_valid(self.actuator_last_change)
        &&& opt_valid(self.lockout_until)
        &&& self.actuator_last_error matches Some(e) ==> e.timestamp.valid()
        &&& self.pending_call is Some <==> self.lockout_until is Some
    }

    /// The same state under another configuration.
    pub open spec fn with_cfg(self, cfg: EntryView) -> RuntimeView {
        RuntimeView { cfg, ..self }
    }
}

/// A thermostat that has published nothing.
pub open spec fn fresh(cfg: EntryView) -> RuntimeView {
    RuntimeView {
        cfg,
        current_temperature: None,
        call_for: "idle"@,
        call_is_live: false,
        actuator_state: false,
        actuator_last_change: None,
        pending_call: None,
        lockout_until: None,
        actuator_last_error: None,
    }
}

/// The device under which the hub knows a thermostat.
pub open spec fn device_of(id: Seq<char>) -> Seq<char> {
    "thermostat_"@ + id
}

/// The thermostat that a device stands for, where it is one of ours.
pub open spec fn thermostat_of(device_id: Seq<char>) -> Option<Seq<char>> {
    if has_prefix(device_id, "thermostat_"@) {
        Some(device_id.skip("thermostat_"@.len() as int))
    } else {
        None
    }
}

/// A thermostat's device stands for that thermostat; so two thermostats never
/// share a device.
pub proof fn device_stands_for_its_thermostat(id: Seq<char>)
    ensures
        thermostat_of(device_of(id)) == Some(id),
{
    prefix_comes_off("thermostat_"@, id);
}

pub fn device_id_of(id: &str) -> (r: String)
    ensures
        r@ == device_of(id@),
{
    joined("thermostat_", id)
}

pub fn thermostat_id_of<'a>(device_id: &'a str) -> (r: Option<&'a str>)
    ensures
        r is Some <==> thermostat_of(device_id@) is Some,
        r matches Some(id) ==> thermostat_of(device_id@) == Some(id@),
{
    without_prefix(device_id, "thermostat_")
}

/// Where commands for a device are published.
pub open spec fn commands_of(device_id: Seq<char>) -> Seq<char> {
    "homecore/devices/"@ + device_id + "/cmd"@
}

/// Where the state of a device is published.
pub open spec fn state_of(device_id: Seq<char>) -> Seq<char> {
    "homecore/devices/"@ + device_id + "/state"@
}

/// Where commands for a device are published.
pub fn command_topic(device_id: &str) -> (r: String)
    ensures
        r@ == commands_of(device_id@),
{
    joined(joined("homecore/devices/", device_id).as_str(), "/cmd")
}

/// Where the state of a device is published.
pub fn state_topic(device_id: &str) -> (r: String)
    ensures
        r@ == state_of(device_id@),
{
    joined(joined("homecore/devices/", device_id).as_str(), "/state")
}

// ── Published state ─────────────────────────────────────────────────────────

pub open spec fn text_field(s: Option<Seq<char>>) -> FieldView {
    match s {
        Some(t) => FieldView::Text(t),
        None => FieldView::Null,
    }
}

pub open spec fn number_field(q: Option<Quantity>) -> FieldView {
    match q {
        Some(x) => FieldView::Number(x),
        None => FieldView::Null,
    }
}

pub open spec fn time_field(t: Option<Timestamp>) -> FieldView {
    match t {
        Some(at) => FieldView::Text(rfc3339_text(at)),
        None => FieldView::Null,
    }
}

pub open spec fn error_field(e: Option<ErrorView>) -> FieldView {
    match e {
        Some(e) => FieldView::Failure {
            timestamp: rfc3339_text(e.timestamp),
            message: e.message,
        },
        None => FieldView::Null,
    }
}

/// The state that a thermostat publishes at some point in time.
pub open spec fn state_fields(rt: RuntimeView, now: Timestamp) -> Seq<(Seq<char>, FieldView)> {
    seq![
        ("sensor_ids"@, FieldView::Texts(rt.cfg.sensor_device_ids)),
        ("sensor_attribute"@, FieldView::Text(rt.cfg.sensor_attribute)),
        ("aggregation"@, FieldView::Text(rt.cfg.aggregation)),
        ("setpoint"@, FieldView::Number(rt.cfg.setpoint)),
        ("hysteresis"@, FieldView::Number(rt.cfg.hysteresis)),
        ("mode"@, FieldView::Text(rt.cfg.mode)),
        ("actuator_device_id"@, FieldView::Text(rt.cfg.actuator_device_id)),
        ("min_on_secs"@, FieldView::Count(rt.cfg.min_on_secs)),
        ("min_off_secs"@, FieldView::Count(rt.cfg.min_off_secs)),
        ("current_temperature"@, number_field(rt.current_temperature)),
        ("call_for"@, FieldView::Text(rt.call_for)),
        ("actuator_state"@, FieldView::Bool(rt.actuator_state)),
        ("actuator_last_change"@, time_field(rt.actuator_last_change)),
        ("pending_call"@, text_field(rt.pending_call)),
        ("lockout_until"@, time_field(rt.lockout_until)),
        ("actuator_last_error"@, error_field(rt.actuator_last_error)),
        ("last_update"@, FieldView::Text(rfc3339_text(now))),
    ]
}

/// Whether the point of the last switch, where its year has four digits, is
/// read back from the text that it is written as.
pub open spec fn switch_reads_back(rt: RuntimeView) -> bool {
    rt.actuator_last_change matches Some(t) ==> t.four_digit_year() ==> rfc3339_instant(
        rfc3339_text(t),
    ) == Some(t)
}

/// What a thermostat publishes at some point in time.
pub open spec fn published(
    payload: Seq<(Seq<char>, FieldView)>,
    rt: RuntimeView,
    now: Timestamp,
) -> bool {
    payload == state_fields(rt, now) && switch_reads_back(rt)
}

/// What a thermostat publishes at whatever time it is.
pub open spec fn published_now(payload: Seq<(Seq<char>, FieldView)>, rt: RuntimeView) -> bool {
    exists|now: Timestamp| now.ordinary() && #[trigger] published(payload, rt, now)
}

fn opt_text_field(s: &Option<String>) -> (r: Field)
    ensures
        r@ == text_field(opt_text(*s)),
{
    match s {
        Some(t) => Field::Text(t.clone()),
        None => Field::Null,
    }
}

fn opt_number_field(q: Option<Quantity>) -> (r: Field)
    ensures
        r@ == number_field(q),
{
    match q {
        Some(x) => Field::Number(x),
        None => Field::Null,
    }
}

fn opt_time_field(t: Option<Timestamp>) -> (r: Field)
    requires
        opt_valid(t),
    ensures
        r@ == time_field(t),
        t matches Some(at) ==> at.four_digit_year() ==> rfc3339_instant(rfc3339_text(at)) == Some(
            at,
        ),
{
    match t {
        Some(at) => Field::Text(to_rfc3339(at)),
        None => Field::Null,
    }
}

fn opt_error_field(e: &Option<ActuatorError>) -> (r: Field)
    requires
        opt_error(*e) matches Some(x) ==> x.timestamp.valid(),
    ensures
        r@ == error_field(opt_error(*e)),
{
    match e {
        Some(e) => Field::Failure {
            timestamp: to_rfc3339(e.timestamp),
            message: e.message.clone(),
        },
        None => Field::Null,
    }
}

fn keyed(key: &str, field: Field) -> (r: (String, Field))
    ensures
        (r.0@, r.1@) == (key@, field@),
{
    (key.to_owned(), field)
}

impl Runtime {
    pub fn new(cfg: ThermostatEntry) -> (r: Runtime)
        ensures
            r@ == fresh(cfg@),
            r@.wf(),
    {
        Runtime {
            cfg,
            current_temperature: None,
            call_for: "idle".to_owned(),
            call_is_live: false,
            actuator_state: false,
            actuator_last_change: None,
            pending_call: None,
            lockout_until: None,
            actuator_last_error: None,
        }
    }

    pub fn device_id(&self) -> (r: String)
        ensures
            r@ == device_of(self@.cfg.id),
    {
        device_id_of(self.cfg.id.as_str())
    }

    /// The full state as it is published at `now`.
    pub fn state_payload_at(&self, now: Timestamp) -> (r: Payload)
        requires
            self@.wf(),
            now.valid(),
        ensures
            published(r@, self@, now),
    {
        let mut fields: Vec<(String, Field)> = Vec::new();
        fields.push(keyed("sensor_ids", Field::Texts(duplicate_list(&self.cfg.sensor_device_ids))));
        fields.push(keyed("sensor_attribute", Field::Text(self.cfg.sensor_attribute.clone())));
        fields.push(keyed("aggregation", Field::Text(self.cfg.aggregation.clone())));
        fields.push(keyed("setpoint", Field::Number(self.cfg.setpoint)));
        fields.push(keyed("hysteresis", Field::Number(self.cfg.hysteresis)));
        fields.push(keyed("mode", Field::Text(self.cfg.mode.clone())));
        fields.push(keyed("actuator_device_id", Field::Text(self.cfg.actuator_device_id.clone())));
        fields.push(keyed("min_on_secs", Field::Count(self.cfg.min_on_secs)));
        fields.push(keyed("min_off_secs", Field::Count(self.cfg.min_off_secs)));
        fields.push(keyed("current_temperature", opt_number_field(self.current_temperature)));
        fields.push(keyed("call_for", Field::Text(self.call_for.clone())));
        fields.push(keyed("actuator_state", Field::Bool(self.actuator_state)));
        fields.push(keyed("actuator_last_change", opt_time_field(self.actuator_last_change)));
        fields.push(keyed("pending_call", opt_text_field(&self.pending_call)));
        fields.push(keyed("lockout_until", opt_time_field(self.lockout_until)));
        fields.push(keyed("actuator_last_error", opt_error_field(&self.actuator_last_error)));
        fields.push(keyed("last_update", Field::Text(to_rfc3339(now))));
        let r = Payload { fields };
        assert(r@ =~= state_fields(self@, now));
        r
    }

    /// The full state as it is published at this time.
    pub fn state_payload(&self) -> (r: Payload)
        requires
            self@.wf(),
        ensures
            published_now(r@, self@),
    {
        let now = utc_now();
        let r = self.state_payload_at(now);
        assert(published(r@, self@, now));
        r
    }
}

/// What is given, or else what was there.
pub open spec fn given_or<T>(given: Option<T>, there: T) -> T {
    match given {
        Some(t) => t,
        None => there,
    }
}

/// What is given, or else what was there, if anything.
pub open spec fn given_or_kept<T>(given: Option<T>, there: Option<T>) -> Option<T> {
    match given {
        Some(t) => Some(t),
        None => there,
    }
}

// ── Retained state ──────────────────────────────────────────────────────────

/// What a retained state message tells about the actuator.
pub struct Retained {
    pub actuator_last_change: Option<Timestamp>,
    pub actuator_state: Option<bool>,
    pub call_for: Option<String>,
}

pub struct RetainedView {
    pub actuator_last_change: Option<Timestamp>,
    pub actuator_state: Option<bool>,
    pub call_for: Option<Seq<char>>,
}

impl View for Retained {
    type V = RetainedView;

    open spec fn view(&self) -> RetainedView {
        RetainedView {
            actuator_last_change: self.actuator_last_change,
            actuator_state: self.actuator_state,
            call_for: opt_text(self.call_for),
        }
    }
}

/// What a state message tells about the actuator. A point in time that cannot
/// be read is not told.
pub open spec fn retained_in(n: JsonNode) -> RetainedView {
    RetainedView {
        actuator_last_change: match n.member_text("actuator_last_change"@) {
            Some(s) => rfc3339_instant(s),
            None => None,
        },
        actuator_state: n.member_bool("actuator_state"@),
        call_for: n.member_text("call_for"@),
    }
}

/// What a thermostat takes over from retained state: what is told and has not
/// been overwritten since the start. Once it has switched its actuator that is
/// nothing, and once it was recalculated its call is its own.
pub open spec fn restored(rt: RuntimeView, told: RetainedView) -> RuntimeView {
    if rt.actuator_last_change is Some {
        rt
    } else {
        RuntimeView {
            actuator_last_change: told.actuator_last_change,
            actuator_state: given_or(told.actuator_state, rt.actuator_state),
            call_for: if rt.call_is_live {
                rt.call_for
            } else {
                given_or(told.call_for, rt.call_for)
            },
            ..rt
        }
    }
}

pub fn read_retained(payload: &Value) -> (r: Retained)
    ensures
        r@ == retained_in(json_content(*payload)),
        opt_valid(r.actuator_last_change),
{
    let actuator_last_change = match member_text(payload, "actuator_last_change") {
        Some(s) => parse_rfc3339(s.as_str()),
        None => None,
    };
    Retained {
        actuator_last_change,
        actuator_state: member_bool(payload, "actuator_state"),
        call_for: member_text(payload, "call_for"),
    }
}

impl Runtime {
    pub fn restore(&mut self, told: Retained)
        requires
            old(self)@.wf(),
            opt_valid(told.actuator_last_change),
        ensures
            final(self)@ == restored(old(self)@, told@),
            final(self)@.wf(),
    {
        if self.actuator_last_change.is_some() {
            return;
        }
        if told.actuator_last_change.is_some() {
            self.actuator_last_change = told.actuator_last_change;
        }
        if let Some(b) = told.actuator_state {
            self.actuator_state = b;
        }
        if !self.call_is_live {
            if let Some(s) = told.call_for {
                self.call_for = s;
            }
        }
    }
}

/// A thermostat that published its state, was restarted and got that state
/// back holds again the last switch, the actuator's state and the call that
/// it had, whatever else it was configured to in between. Only a last switch
/// outside the years of four digits is not read back.
pub proof fn restart_keeps_the_actuator(
    rt: RuntimeView,
    now: Timestamp,
    payload: Seq<(Seq<char>, FieldView)>,
    message: JsonNode,
    cfg: EntryView,
)
    requires
        published(payload, rt, now),
        object_written(payload, message),
        rt.actuator_last_change matches Some(t) ==> t.four_digit_year(),
    ensures
        ({
            let back = restored(fresh(cfg), retained_in(message));
            &&& back.actuator_last_change == rt.actuator_last_change
            &&& back.actuator_state == rt.actuator_state
            &&& back.call_for == rt.call_for
            &&& back.cfg == cfg
        }),
{
    assert(payload[10] == ("call_for"@, FieldView::Text(rt.call_for)));
    assert(payload[11] == ("actuator_state"@, FieldView::Bool(rt.actuator_state)));
    assert(payload[12] == ("actuator_last_change"@, time_field(rt.actuator_last_change)));
}

/// Retained state never changes what is live: after a recalculation it leaves
/// the call as it is, and where the actuator was switched it leaves everything.
pub proof fn live_state_is_not_restored_over(
    rt: RuntimeView,
    has_readings: bool,
    ev: EvaluationView,
    told: RetainedView,
)
    ensures
        ({
            let live = recalculated(rt, has_readings, ev);
            &&& restored(live, told).call_for == live.call_for
            &&& restored(live, told).call_is_live
            &&& switches(rt, has_readings, ev) ==> restored(live, told) == live
        }),
        rt.call_is_live ==> restored(rt, told).call_for == rt.call_for,
        rt.actuator_last_change is Some ==> restored(rt, told) == rt,
{
}

// ── Commands ────────────────────────────────────────────────────────────────

/// A command to a thermostat, with the arguments that were given and could be
/// read.
pub enum Command {
    SetSetpoint(Option<Quantity>),
    SetMode(Option<String>),
    SetHysteresis(Option<Quantity>),
    SetAggregation(Option<String>),
    SetShortCycle { min_on_secs: Option<u64>, min_off_secs: Option<u64> },
    SetSensors { sensor_ids: Option<Vec<String>>, attribute: Option<String> },
    SetActuator { device_id: Option<String>, on_cmd: Option<Value>, off_cmd: Option<Value> },
    Recalculate,
    Unknown,
}

pub enum CommandView {
    SetSetpoint(Option<Quantity>),
    SetMode(Option<Seq<char>>),
    SetHysteresis(Option<Quantity>),
    SetAggregation(Option<Seq<char>>),
    SetShortCycle { min_on_secs: Option<u64>, min_off_secs: Option<u64> },
    SetSensors { sensor_ids: Option<Seq<Seq<char>>>, attribute: Option<Seq<char>> },
    SetActuator {
        device_id: Option<Seq<char>>,
        on_cmd: Option<JsonNode>,
        off_cmd: Option<JsonNode>,
    },
    Recalculate,
    Unknown,
}

impl View for Command {
    type V = CommandView;

    open spec fn view(&self) -> CommandView {
        match self {
            Command::SetSetpoint(q) => CommandView::SetSetpoint(*q),
            Command::SetMode(s) => CommandView::SetMode(opt_text(*s)),
            Command::SetHysteresis(q) => CommandView::SetHysteresis(*q),
            Command::SetAggregation(s) => CommandView::SetAggregation(opt_text(*s)),
            Command::SetShortCycle { min_on_secs, min_off_secs } => CommandView::SetShortCycle {
                min_on_secs: *min_on_secs,
                min_off_secs: *min_off_secs,
            },
            Command::SetSensors { sensor_ids, attribute } => CommandView::SetSensors {
                sensor_ids: opt_texts(*sensor_ids),
                attribute: opt_text(*attribute),
            },
            Command::SetActuator { device_id, on_cmd, off_cmd } => CommandView::SetActuator {
                device_id: opt_text(*device_id),
                on_cmd: opt_content(*on_cmd),
                off_cmd: opt_content(*off_cmd),
            },
            Command::Recalculate => CommandView::Recalculate,
            Command::Unknown => CommandView::Unknown,
        }
    }
}

/// The name of the command in a payload; empty where none is given.
pub open spec fn command_name(n: JsonNode) -> Seq<char> {
    match n.member_text("command"@) {
        Some(s) => s,
        None => ""@,
    }
}

/// The command that a payload gives.
pub open spec fn command_in(n: JsonNode) -> CommandView {
    let name = command_name(n);
    if name == "set_setpoint"@ {
        CommandView::SetSetpoint(n.member_float("value"@))
    } else if name == "set_mode"@ {
        CommandView::SetMode(n.member_text("value"@))
    } else if name == "set_hysteresis"@ {
        CommandView::SetHysteresis(n.member_float("value"@))
    } else if name == "set_aggregation"@ {
        CommandView::SetAggregation(n.member_text("value"@))
    } else if name == "set_short_cycle"@ {
        CommandView::SetShortCycle {
            min_on_secs: n.member_unsigned("min_on_secs"@),
            min_off_secs: n.member_unsigned("min_off_secs"@),
        }
    } else if name == "set_sensors"@ {
        CommandView::SetSensors {
            sensor_ids: n.member_texts("sensor_ids"@),
            attribute: n.member_text("attribute"@),
        }
    } else if name == "set_actuator"@ {
        CommandView::SetActuator {
            device_id: n.member_text("device_id"@),
            on_cmd: n.member("on_cmd"@),
            off_cmd: n.member("off_cmd"@),
        }
    } else if name == "recalculate"@ || name == ""@ {
        CommandView::Recalculate
    } else {
        CommandView::Unknown
    }
}

pub fn read_command(payload: &Value) -> (r: Command)
    ensures
        r@ == command_in(json_content(*payload)),
{
    let given = match member_text(payload, "command") {
        Some(s) => s,
        None => "".to_owned(),
    };
    let name = given.as_str();
    if same_text(name, "set_setpoint") {
        Command::SetSetpoint(member_float(payload, "value"))
    } else if same_text(name, "set_mode") {
        Command::SetMode(member_text(payload, "value"))
    } else if same_text(name, "set_hysteresis") {
        Command::SetHysteresis(member_float(payload, "value"))
    } else if same_text(name, "set_aggregation") {
        Command::SetAggregation(member_text(payload, "value"))
    } else if same_text(name, "set_short_cycle") {
        Command::SetShortCycle {
            min_on_secs: member_unsigned(payload, "min_on_secs"),
            min_off_secs: member_unsigned(payload, "min_off_secs"),
        }
    } else if same_text(name, "set_sensors") {
        Command::SetSensors {
            sensor_ids: member_texts(payload, "sensor_ids"),
            attribute: member_text(payload, "attribute"),
        }
    } else if same_text(name, "set_actuator") {
        Command::SetActuator {
            device_id: member_text(payload, "device_id"),
            on_cmd: member_value(payload, "on_cmd"),
            off_cmd: member_value(payload, "off_cmd"),
        }
    } else if same_text(name, "recalculate") || same_text(name, "") {
        Command::Recalculate
    } else {
        Command::Unknown
    }
}

/// The configuration after a command. An argument that is missing, or that
/// names no mode or aggregation, changes nothing; a hysteresis is raised to
/// zero.
pub open spec fn configured(cfg: EntryView, cmd: CommandView) -> EntryView {
    match cmd {
        CommandView::SetSetpoint(q) => EntryView { setpoint: given_or(q, cfg.setpoint), ..cfg },
        CommandView::SetMode(Some(m)) => if known_mode(m) {
            EntryView { mode: m, ..cfg }
        } else {
            cfg
        },
        CommandView::SetHysteresis(Some(q)) => EntryView { hysteresis: q.clamped(), ..cfg },
        CommandView::SetAggregation(Some(a)) => if known_aggregation(a) {
            EntryView { aggregation: a, ..cfg }
        } else {
            cfg
        },
        CommandView::SetShortCycle { min_on_secs, min_off_secs } => EntryView {
            min_on_secs: given_or(min_on_secs, cfg.min_on_secs),
            min_off_secs: given_or(min_off_secs, cfg.min_off_secs),
            ..cfg
        },
        CommandView::SetSensors { sensor_ids, attribute } => EntryView {
            sensor_device_ids: given_or(sensor_ids, cfg.sensor_device_ids),
            sensor_attribute: given_or(attribute, cfg.sensor_attribute),
            ..cfg
        },
        CommandView::SetActuator { device_id, on_cmd, off_cmd } => EntryView {
            actuator_device_id: given_or(device_id, cfg.actuator_device_id),
            actuator_on_cmd: given_or_kept(on_cmd, cfg.actuator_on_cmd),
            actuator_off_cmd: given_or_kept(off_cmd, cfg.actuator_off_cmd),
            ..cfg
        },
        _ => cfg,
    }
}

/// Whether a command sets anything, so that the configuration is to be written
/// back.
pub open spec fn sets_something(cmd: CommandView) -> bool {
    match cmd {
        CommandView::SetSetpoint(q) => q is Some,
        CommandView::SetMode(m) => m matches Some(m) && known_mode(m),
        CommandView::SetHysteresis(q) => q is Some,
        CommandView::SetAggregation(a) => a matches Some(a) && known_aggregation(a),
        CommandView::SetShortCycle { min_on_secs, min_off_secs } => min_on_secs is Some
            || min_off_secs is Some,
        CommandView::SetSensors { sensor_ids, attribute } => sensor_ids is Some
            || attribute is Some,
        CommandView::SetActuator { device_id, on_cmd, off_cmd } => device_id is Some
            || on_cmd is Some || off_cmd is Some,
        _ => false,
    }
}

impl Runtime {
    /// Carries a command out on the configuration, and says whether it set
    /// anything.
    pub fn configure(&mut self, cmd: Command) -> (changed: bool)
        ensures
            final(self)@ == old(self)@.with_cfg(configured(old(self)@.cfg, cmd@)),
            changed == sets_something(cmd@),
    {
        let mut changed = false;
        match cmd {
            Command::SetSetpoint(q) => {
                if let Some(v) = q {
                    self.cfg.setpoint = v;
                    changed = true;
                }
            },
            Command::SetMode(m) => {
                if let Some(m) = m {
                    if is_known_mode(m.as_str()) {
                        self.cfg.mode = m;
                        changed = true;
                    }
                }
            },
            Command::SetHysteresis(q) => {
                if let Some(v) = q {
                    self.cfg.hysteresis = v.at_least_zero();
                    changed = true;
                }
            },
            Command::SetAggregation(a) => {
                if let Some(a) = a {
                    if is_known_aggregation(a.as_str()) {
                        self.cfg.aggregation = a;
                        changed = true;
                    }
                }
            },
            Command::SetShortCycle { min_on_secs, min_off_secs } => {
                if let Some(v) = min_on_secs {
                    self.cfg.min_on_secs = v;
                    changed = true;
                }
                if let Some(v) = min_off_secs {
                    self.cfg.min_off_secs = v;
                    changed = true;
                }
            },
            Command::SetSensors { sensor_ids, attribute } => {
                if let Some(ids) = sensor_ids {
                    self.cfg.sensor_device_ids = ids;
                    changed = true;
                }
                if let Some(a) = attribute {
                    self.cfg.sensor_attribute = a;
                    changed = true;
                }
            },
            Command::SetActuator { device_id, on_cmd, off_cmd } => {
                if let Some(id) = device_id {
                    self.cfg.actuator_device_id = id;
                    changed = true;
                }
                if let Some(v) = on_cmd {
                    self.cfg.actuator_on_cmd = Some(v);
                    changed = true;
                }
                if let Some(v) = off_cmd {
                    self.cfg.actuator_off_cmd = Some(v);
                    changed = true;
                }
            },
            Command::Recalculate => {},
            Command::Unknown => {},
        }
        changed
    }
}

/// A command that sets nothing leaves the configuration as it is, so that only
/// what is written back can have changed.
pub proof fn nothing_set_means_nothing_changed(cfg: EntryView, cmd: CommandView)
    requires
        !sets_something(cmd),
    ensures
        configured(cfg, cmd) == cfg,
{
}

/// A thermostat keeps its id and its name under every command, and no command
/// makes an accepted mode, aggregation or hysteresis one that is not.
pub proof fn commands_keep_entries_sound(cfg: EntryView, cmd: CommandView)
    ensures
        configured(cfg, cmd).id == cfg.id,
        configured(cfg, cmd).name == cfg.name,
        known_mode(cfg.mode) ==> known_mode(configured(cfg, cmd).mode),
        known_aggregation(cfg.aggregation) ==> known_aggregation(configured(cfg, cmd).aggregation),
        !cfg.hysteresis.below_zero() ==> !configured(cfg, cmd).hysteresis.below_zero(),
{
}

/// Giving the same command twice sets no more than giving it once.
pub proof fn repeating_a_command_changes_nothing(cfg: EntryView, cmd: CommandView)
    ensures
        configured(configured(cfg, cmd), cmd) == configured(cfg, cmd),
{
}

// ── Recalculation ───────────────────────────────────────────────────────────

/// What the control loop makes of the readings: the aggregated temperature,
/// the call that the mode and the hysteresis give for it, and the seconds for
/// which the actuator is still locked.
pub struct Evaluation {
    pub current: Option<Quantity>,
    pub computed: String,
    pub remaining: u64,
    pub now: Timestamp,
}

pub struct EvaluationView {
    pub current: Option<Quantity>,
    pub computed: Seq<char>,
    pub remaining: u64,
    pub now: Timestamp,
}

impl View for Evaluation {
    type V = EvaluationView;

    open spec fn view(&self) -> EvaluationView {
        EvaluationView {
            current: self.current,
            computed: self.computed@,
            remaining: self.remaining,
            now: self.now,
        }
    }
}

/// Whether there is nothing to go by: a thermostat that is not off has no
/// reading.
pub open spec fn goes_stale(mode: Seq<char>, has_readings: bool) -> bool {
    !has_readings && mode != "off"@
}

/// What is called for: nothing where the thermostat is off or knows no
/// temperature, and otherwise what the control loop computed.
pub open spec fn next_call(
    mode: Seq<char>,
    current: Option<Quantity>,
    computed: Seq<char>,
) -> Seq<char> {
    if mode == "off"@ || current is None {
        "idle"@
    } else {
        computed
    }
}

/// Whether a call wants the actuator on.
pub open spec fn demands(call: Seq<char>) -> bool {
    call == "heat"@ || call == "cool"@
}

/// Whether a lockout has a say: the actuator is to be switched, and not because
/// the thermostat was turned off.
pub open spec fn lockout_counts(mode: Seq<char>, actuator_state: bool, call: Seq<char>) -> bool {
    !(mode == "off"@ && actuator_state) && demands(call) != actuator_state
}

/// Whether the switch that is called for has to wait.
pub open spec fn locked_out(rt: RuntimeView, ev: EvaluationView) -> bool {
    lockout_counts(
        rt.cfg.mode,
        rt.actuator_state,
        next_call(rt.cfg.mode, ev.current, ev.computed),
    ) && ev.remaining > 0
}

/// Whether the actuator is switched now.
pub open spec fn switches(rt: RuntimeView, has_readings: bool, ev: EvaluationView) -> bool {
    &&& !goes_stale(rt.cfg.mode, has_readings)
    &&& !locked_out(rt, ev)
    &&& demands(next_call(rt.cfg.mode, ev.current, ev.computed)) != rt.actuator_state
}

/// The seconds of a lockout as a difference of points in time.
pub open spec fn lockout_secs(remaining: u64) -> int {
    (remaining as i64) as int
}

/// A thermostat after a recalculation. Whichever way it goes, the call is then
/// the thermostat's own.
pub open spec fn recalculated(
    rt: RuntimeView,
    has_readings: bool,
    ev: EvaluationView,
) -> RuntimeView {
    let call = next_call(rt.cfg.mode, ev.current, ev.computed);
    if goes_stale(rt.cfg.mode, has_readings) {
        if rt.call_for == "stale"@ {
            RuntimeView { call_is_live: true, ..rt }
        } else {
            RuntimeView {
                call_for: "stale"@,
                call_is_live: true,
                current_temperature: None,
                ..rt
            }
        }
    } else if locked_out(rt, ev) {
        RuntimeView {
            pending_call: Some(call),
            lockout_until: Some(ev.now.shifted(lockout_secs(ev.remaining))),
            current_temperature: ev.current,
            call_for: call,
            call_is_live: true,
            ..rt
        }
    } else if switches(rt, has_readings, ev) {
        RuntimeView {
            actuator_state: demands(call),
            actuator_last_change: Some(ev.now),
            pending_call: None,
            lockout_until: None,
            current_temperature: ev.current,
            call_for: call,
            call_is_live: true,
            ..rt
        }
    } else {
        RuntimeView {
            pending_call: None,
            lockout_until: None,
            current_temperature: ev.current,
            call_for: call,
            call_is_live: true,
            ..rt
        }
    }
}

/// The command that switches an actuator where none is configured.
pub open spec fn plain_command(on: bool) -> JsonNode {
    JsonNode::Object(
        map!["command"@ => JsonNode::Text(if on { "on"@ } else { "off"@ })],
    )
}

/// The command that switches a thermostat's actuator.
pub open spec fn switch_command(cfg: EntryView, on: bool) -> JsonNode {
    if on {
        given_or(cfg.actuator_on_cmd, plain_command(true))
    } else {
        given_or(cfg.actuator_off_cmd, plain_command(false))
    }
}

/// The command that a recalculation issues, and to which device: one for every
/// switch of an actuator that has a device.
pub open spec fn issued(
    rt: RuntimeView,
    has_readings: bool,
    ev: EvaluationView,
) -> Option<(Seq<char>, JsonNode)> {
    if switches(rt, has_readings, ev) && rt.cfg.actuator_device_id.len() > 0 {
        Some((rt.cfg.actuator_device_id, switch_command(rt.cfg, !rt.actuator_state)))
    } else {
        None
    }
}

/// Whether the end of a lockout, if there is to be one, can be written.
pub open spec fn lockout_fits(rt: RuntimeView, has_readings: bool, ev: EvaluationView) -> bool {
    !goes_stale(rt.cfg.mode, has_readings) && locked_out(rt, ev) ==> ev.now.can_shift(
        lockout_secs(ev.remaining),
    )
}

/// A command to an actuator.
pub struct ActuatorCommand {
    pub device_id: String,
    pub payload: Value,
}

pub open spec fn opt_command(c: Option<ActuatorCommand>) -> Option<(Seq<char>, JsonNode)> {
    match c {
        Some(c) => Some((c.device_id@, json_content(c.payload))),
        None => None,
    }
}

/// A message to be published on a topic.
pub struct Message {
    pub topic: String,
    pub bytes: Vec<u8>,
}

/// Whether a message brings a payload to a device as a command. Where the payload
/// cannot be written, why.
pub open spec fn carries(
    device_id: Seq<char>,
    payload: JsonNode,
    r: Result<Message, String>,
) -> bool {
    match json_written(payload) {
        Ok(bytes) => r matches Ok(m) && m.bytes@ == bytes && m.topic@ == commands_of(device_id),
        Err(text) => r matches Err(e) && e@ == text,
    }
}

/// The message that brings a payload to a device as a command. Where the payload
/// cannot be written, why.
pub fn command_message(device_id: &str, payload: &Value) -> (r: Result<Message, String>)
    ensures
        carries(device_id@, json_content(*payload), r),
{
    match to_bytes(payload) {
        Ok(bytes) => Ok(Message { topic: command_topic(device_id), bytes }),
        Err(e) => Err(e),
    }
}

pub fn is_stale(mode: &str, has_readings: bool) -> (r: bool)
    ensures
        r == goes_stale(mode@, has_readings),
{
    !has_readings && !same_text(mode, "off")
}

pub fn resolve_call(mode: &str, current: Option<Quantity>, computed: &str) -> (r: String)
    ensures
        r@ == next_call(mode@, current, computed@),
{
    if same_text(mode, "off") || current.is_none() {
        "idle".to_owned()
    } else {
        computed.to_owned()
    }
}

pub fn is_demand(call: &str) -> (r: bool)
    ensures
        r == demands(call@),
{
    same_text(call, "heat") || same_text(call, "cool")
}

pub fn lockout_applies(mode: &str, actuator_state: bool, call: &str) -> (r: bool)
    ensures
        r == lockout_counts(mode@, actuator_state, call@),
{
    let forced_off = actuator_state && same_text(mode, "off");
    !forced_off && is_demand(call) != actuator_state
}

impl Runtime {
    fn command_for(&self, on: bool) -> (r: Value)
        ensures
            json_content(r) == switch_command(self@.cfg, on),
    {
        if on {
            match &self.cfg.actuator_on_cmd {
                Some(v) => duplicate_value(v),
                None => object_of("command", "on"),
            }
        } else {
            match &self.cfg.actuator_off_cmd {
                Some(v) => duplicate_value(v),
                None => object_of("command", "off"),
            }
        }
    }

    /// Takes over what the control loop makes of the readings, and gives the
    /// actuator command that this calls for, if any. Where a lockout is to be
    /// noted, its end has to lie within the calendar.
    pub fn recalculate(&mut self, has_readings: bool, ev: &Evaluation) -> (r: Option<
        ActuatorCommand,
    >)
        requires
            old(self)@.wf(),
            ev@.now.ordinary(),
            lockout_fits(old(self)@, has_readings, ev@),
        ensures
            final(self)@ == recalculated(old(self)@, has_readings, ev@),
            opt_command(r) == issued(old(self)@, has_readings, ev@),
            final(self)@.wf(),
    {
        self.call_is_live = true;
        if is_stale(self.cfg.mode.as_str(), has_readings) {
            if !same_text(self.call_for.as_str(), "stale") {
                self.call_for = "stale".to_owned();
                self.current_temperature = None;
            }
            return None;
        }
        let call = resolve_call(self.cfg.mode.as_str(), ev.current, ev.computed.as_str());
        let desired = is_demand(call.as_str());
        let applies = lockout_applies(self.cfg.mode.as_str(), self.actuator_state, call.as_str());
        if applies && ev.remaining > 0 {
            self.pending_call = Some(call.clone());
            self.lockout_until = Some(after_seconds(ev.now, ev.remaining as i64));
            self.current_temperature = ev.current;
            self.call_for = call;
            None
        } else if desired != self.actuator_state {
            let payload = self.command_for(desired);
            self.actuator_state = desired;
            self.actuator_last_change = Some(ev.now);
            self.pending_call = None;
            self.lockout_until = None;
            self.current_temperature = ev.current;
            self.call_for = call;
            if self.cfg.actuator_device_id.as_str().is_empty() {
                None
            } else {
                Some(
                    ActuatorCommand { device_id: self.cfg.actuator_device_id.clone(), payload },
                )
            }
        } else {
            self.pending_call = None;
            self.lockout_until = None;
            self.current_temperature = ev.current;
            self.call_for = call;
            None
        }
    }
}

/// A thermostat after an actuator command was sent, or could not be.
pub open spec fn with_outcome(
    rt: RuntimeView,
    error: Option<Seq<char>>,
    at: Timestamp,
) -> RuntimeView {
    RuntimeView {
        actuator_last_error: match error {
            Some(message) => Some(ErrorView { timestamp: at, message }),
            None => None,
        },
        ..rt
    }
}

impl Runtime {
    /// Notes whether the last actuator command could be sent: a failure is
    /// kept, and a success clears an earlier one.
    pub fn record_outcome(&mut self, error: Option<String>, at: Timestamp)
        requires
            old(self)@.wf(),
            at.valid(),
        ensures
            final(self)@ == with_outcome(old(self)@, opt_text(error), at),
            final(self)@.wf(),
    {
        self.actuator_last_error = match error {
            Some(message) => Some(ActuatorError { timestamp: at, message }),
            None => None,
        };
    }
}

// ── Laws of recalculation ───────────────────────────────────────────────────

/// While a lockout lasts, the actuator is left alone: it keeps its state and
/// the point of its last switch, nothing is sent to it, and the call is
/// pending until the lockout ends.
pub proof fn lockout_holds_the_actuator(
    rt: RuntimeView,
    has_readings: bool,
    ev: EvaluationView,
)
    requires
        !goes_stale(rt.cfg.mode, has_readings),
        locked_out(rt, ev),
    ensures
        ({
            let after = recalculated(rt, has_readings, ev);
            &&& after.actuator_state == rt.actuator_state
            &&& after.actuator_last_change == rt.actuator_last_change
            &&& after.pending_call == Some(after.call_for)
            &&& after.lockout_until == Some(ev.now.shifted(lockout_secs(ev.remaining)))
            &&& issued(rt, has_readings, ev) is None
        }),
{
}

/// A thermostat that is turned off turns its actuator off at once, whatever
/// lockout there is, and is left with nothing pending.
pub proof fn off_overrides_the_lockout(rt: RuntimeView, has_readings: bool, ev: EvaluationView)
    requires
        rt.cfg.mode == "off"@,
    ensures
        ({
            let after = recalculated(rt, has_readings, ev);
            &&& !after.actuator_state
            &&& after.call_for == "idle"@
            &&& after.pending_call is None
            &&& rt.actuator_state ==> after.actuator_last_change == Some(ev.now)
            &&& rt.actuator_state && rt.cfg.actuator_device_id.len() > 0 ==> issued(
                rt,
                has_readings,
                ev,
            ) == Some((rt.cfg.actuator_device_id, switch_command(rt.cfg, false)))
        }),
{
    reveal_strlit("idle");
    reveal_strlit("heat");
    reveal_strlit("cool");
    assert("idle"@ != "heat"@ && "idle"@ != "cool"@) by {
        assert("idle"@[0] == 'i' && "heat"@[0] == 'h' && "cool"@[0] == 'c');
    }
}

/// A command is sent exactly when the actuator changes its state and has a
/// device, and it is the command for the state that the actuator changes to.
pub proof fn commands_follow_the_state(rt: RuntimeView, has_readings: bool, ev: EvaluationView)
    ensures
        ({
            let after = recalculated(rt, has_readings, ev);
            let sent = issued(rt, has_readings, ev);
            &&& sent is Some <==> after.actuator_state != rt.actuator_state
                && rt.cfg.actuator_device_id.len() > 0
            &&& sent matches Some(c) ==> c == (
                rt.cfg.actuator_device_id,
                switch_command(rt.cfg, after.actuator_state),
            )
            &&& after.actuator_state != rt.actuator_state ==> after.actuator_last_change == Some(
                ev.now,
            )
            &&& after.actuator_state == rt.actuator_state ==> after.actuator_last_change
                == rt.actuator_last_change
        }),
{
}

/// Unless there is nothing to go by or a lockout holds it back, the actuator is
/// on after a recalculation exactly when heating or cooling is called for.
pub proof fn actuator_follows_the_call(rt: RuntimeView, has_readings: bool, ev: EvaluationView)
    requires
        !goes_stale(rt.cfg.mode, has_readings),
        !locked_out(rt, ev),
    ensures
        ({
            let after = recalculated(rt, has_readings, ev);
            &&& after.actuator_state == demands(after.call_for)
            &&& after.pending_call is None
        }),
{
}

/// Without a reading a thermostat that is not off is stale: its actuator is left
/// as it is and nothing is sent to it.
pub proof fn stale_leaves_the_actuator(rt: RuntimeView, ev: EvaluationView)
    requires
        rt.cfg.mode != "off"@,
    ensures
        ({
            let after = recalculated(rt, false, ev);
            &&& after.call_for == "stale"@
            &&& after.actuator_state == rt.actuator_state
            &&& after.actuator_last_change == rt.actuator_last_change
            &&& after.pending_call == rt.pending_call
            &&& issued(rt, false, ev) is None
        }),
{
}

/// Recalculating again from the same readings at the same time changes nothing
/// more and sends nothing more.
pub proof fn recalculation_settles(rt: RuntimeView, has_readings: bool, ev: EvaluationView)
    ensures
        recalculated(recalculated(rt, has_readings, ev), has_readings, ev) == recalculated(
            rt,
            has_readings,
            ev,
        ),
        issued(recalculated(rt, has_readings, ev), has_readings, ev) is None,
{
}

/// Neither a recalculation nor a noted outcome touches the configuration.
pub proof fn recalculation_keeps_the_configuration(
    rt: RuntimeView,
    has_readings: bool,
    ev: EvaluationView,
    error: Option<Seq<char>>,
    at: Timestamp,
)
    ensures
        recalculated(rt, has_readings, ev).cfg == rt.cfg,
        with_outcome(rt, error, at).cfg == rt.cfg,
{
}

/// The next command that is sent clears an error that was noted before.
pub proof fn success_clears_the_error(rt: RuntimeView, error: Seq<char>, t1: Timestamp, t2: Timestamp)
    ensures
        with_outcome(with_outcome(rt, Some(error), t1), None, t2).actuator_last_error is None,
{
}

} // verus!
