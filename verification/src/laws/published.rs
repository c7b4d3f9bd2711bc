//! What the published state of a thermostat holds, member by member.

use crate::config::EntryView;
use crate::instant::{rfc3339_text, Timestamp};
use crate::json::{object_written, FieldView, JsonNode};
use crate::quantity::Quantity;
use crate::runtime::{published, published_now, state_fields, RuntimeView};
use vstd::prelude::*;

verus! {

/// Whether a JSON value is a finite number, or null in the place of one that is
/// not finite.
pub open spec fn is_number(n: Option<JsonNode>, q: Quantity) -> bool {
    if q.bits < 0x7FF0_0000_0000_0000 || 0x8000_0000_0000_0000 <= q.bits < 0xFFF0_0000_0000_0000 {
        n == Some(JsonNode::Number { float: q, unsigned: None, signed: None })
    } else {
        n == Some(JsonNode::Null)
    }
}

/// Whether a JSON value is a number that is read as an unsigned integer.
pub open spec fn is_count(n: Option<JsonNode>, c: u64) -> bool {
    n matches Some(JsonNode::Number { unsigned: Some(u), .. }) && u == c
}

/// Whether a JSON value is a point in time as text, or null where there is none.
pub open spec fn is_time(n: Option<JsonNode>, t: Option<Timestamp>) -> bool {
    match t {
        Some(at) => n == Some(JsonNode::Text(rfc3339_text(at))),
        None => n == Some(JsonNode::Null),
    }
}

/// A published state tells how the thermostat is configured: each member is the
/// field of the configuration that it is named after, and depends on nothing
/// else.
pub proof fn the_configuration_is_published(
    payload: Seq<(Seq<char>, FieldView)>,
    rt: RuntimeView,
    n: JsonNode,
)
    requires
        published_now(payload, rt),
        object_written(payload, n),
    ensures
        n.member("sensor_ids"@) matches Some(JsonNode::List(items)) && items.len()
            == rt.cfg.sensor_device_ids.len() && forall|i: int|
            0 <= i < items.len() ==> #[trigger] items[i] == JsonNode::Text(
                rt.cfg.sensor_device_ids[i],
            ),
        n.member("sensor_attribute"@) == Some(JsonNode::Text(rt.cfg.sensor_attribute)),
        n.member("aggregation"@) == Some(JsonNode::Text(rt.cfg.aggregation)),
        is_number(n.member("setpoint"@), rt.cfg.setpoint),
        is_number(n.member("hysteresis"@), rt.cfg.hysteresis),
        n.member("mode"@) == Some(JsonNode::Text(rt.cfg.mode)),
        n.member("actuator_device_id"@) == Some(JsonNode::Text(rt.cfg.actuator_device_id)),
        is_count(n.member("min_on_secs"@), rt.cfg.min_on_secs),
        is_count(n.member("min_off_secs"@), rt.cfg.min_off_secs),
{
    assert(payload[0].0 == "sensor_ids"@);
    assert(payload[1].0 == "sensor_attribute"@);
    assert(payload[2].0 == "aggregation"@);
    assert(payload[3].0 == "setpoint"@);
    assert(payload[4].0 == "hysteresis"@);
    assert(payload[5].0 == "mode"@);
    assert(payload[6].0 == "actuator_device_id"@);
    assert(payload[7].0 == "min_on_secs"@);
    assert(payload[8].0 == "min_off_secs"@);
}

/// A published state tells what the thermostat last came to: its temperature and
/// its call, its actuator's state and last switch, what is pending until when,
/// and the last error. What there is none of is null.
pub proof fn the_state_is_published(
    payload: Seq<(Seq<char>, FieldView)>,
    rt: RuntimeView,
    n: JsonNode,
)
    requires
        published_now(payload, rt),
        object_written(payload, n),
    ensures
        match rt.current_temperature {
            Some(t) => is_number(n.member("current_temperature"@), t),
            None => n.member("current_temperature"@) == Some(JsonNode::Null),
        },
        n.member("call_for"@) == Some(JsonNode::Text(rt.call_for)),
        n.member("actuator_state"@) == Some(JsonNode::Bool(rt.actuator_state)),
        is_time(n.member("actuator_last_change"@), rt.actuator_last_change),
        match rt.pending_call {
            Some(call) => n.member("pending_call"@) == Some(JsonNode::Text(call)),
            None => n.member("pending_call"@) == Some(JsonNode::Null),
        },
        is_time(n.member("lockout_until"@), rt.lockout_until),
        match rt.actuator_last_error {
            Some(e) => n.member("actuator_last_error"@) matches Some(failure) && failure.member(
                "timestamp"@,
            ) == Some(JsonNode::Text(rfc3339_text(e.timestamp))) && failure.member("message"@)
                == Some(JsonNode::Text(e.message)),
            None => n.member("actuator_last_error"@) == Some(JsonNode::Null),
        },
        exists|now: Timestamp|
            now.ordinary() && n.member("last_update"@) == Some(
                JsonNode::Text(#[trigger] rfc3339_text(now)),
            ),
{
    let now = choose|now: Timestamp| now.ordinary() && #[trigger] published(payload, rt, now);
    assert(payload[9].0 == "current_temperature"@);
    assert(payload[10].0 == "call_for"@);
    assert(payload[11].0 == "actuator_state"@);
    assert(payload[12].0 == "actuator_last_change"@);
    assert(payload[13].0 == "pending_call"@);
    assert(payload[14].0 == "lockout_until"@);
    assert(payload[15].0 == "actuator_last_error"@);
    assert(payload[16].0 == "last_update"@);
    assert(n.member("last_update"@) == Some(JsonNode::Text(rfc3339_text(now))));
}

/// A published state holds these fields, in this order, and no others.
pub proof fn nothing_else_is_published(payload: Seq<(Seq<char>, FieldView)>, rt: RuntimeView)
    requires
        published_now(payload, rt),
    ensures
        payload.map_values(|f: (Seq<char>, FieldView)| f.0) == seq![
            "sensor_ids"@,
            "sensor_attribute"@,
            "aggregation"@,
            "setpoint"@,
            "hysteresis"@,
            "mode"@,
            "actuator_device_id"@,
            "min_on_secs"@,
            "min_off_secs"@,
            "current_temperature"@,
            "call_for"@,
            "actuator_state"@,
            "actuator_last_change"@,
            "pending_call"@,
            "lockout_until"@,
            "actuator_last_error"@,
            "last_update"@,
        ],
{
}

/// The state as it is published at a point in time is stamped with that point.
pub proof fn the_state_is_stamped(
    payload: Seq<(Seq<char>, FieldView)>,
    rt: RuntimeView,
    now: Timestamp,
    n: JsonNode,
)
    requires
        published(payload, rt, now),
        object_written(payload, n),
    ensures
        n.member("last_update"@) == Some(JsonNode::Text(rfc3339_text(now))),
        now.ordinary() ==> published_now(payload, rt),
{
    assert(payload[16].0 == "last_update"@);
}

/// Two thermostats that differ in nothing that is published, published at one
/// point in time, publish the same; in particular whether the call is live is
/// kept to oneself.
pub proof fn what_is_not_published_does_not_show(
    rt: RuntimeView,
    now: Timestamp,
    live: bool,
    id: Seq<char>,
    name: Seq<char>,
    on_cmd: Option<JsonNode>,
    off_cmd: Option<JsonNode>,
)
    ensures
        state_fields(
            RuntimeView {
                call_is_live: live,
                cfg: EntryView {
                    id,
                    name,
                    actuator_on_cmd: on_cmd,
                    actuator_off_cmd: off_cmd,
                    ..rt.cfg
                },
                ..rt
            },
            now,
        ) == state_fields(rt, now),
{
}

/// A JSON value that holds a published state is an object, and each of its
/// fields stands under its key as what it is.
pub proof fn fields_are_written_under_their_keys(
    payload: Seq<(Seq<char>, FieldView)>,
    n: JsonNode,
    i: int,
)
    requires
        object_written(payload, n),
        0 <= i < payload.len(),
    ensures
        n is Object,
        match payload[i].1 {
            FieldView::Null => n.member(payload[i].0) == Some(JsonNode::Null),
            FieldView::Bool(b) => n.member(payload[i].0) == Some(JsonNode::Bool(b)),
            FieldView::Number(q) => is_number(n.member(payload[i].0), q),
            FieldView::Count(c) => is_count(n.member(payload[i].0), c),
            FieldView::Text(s) => n.member(payload[i].0) == Some(JsonNode::Text(s)),
            FieldView::Texts(l) => n.member(payload[i].0) matches Some(JsonNode::List(items))
                && items.len() == l.len() && forall|k: int|
                0 <= k < items.len() ==> #[trigger] items[k] == JsonNode::Text(l[k]),
            FieldView::Failure { timestamp, message } => n.member(payload[i].0) matches Some(f)
                && f.member("timestamp"@) == Some(JsonNode::Text(timestamp)) && f.member(
                "message"@,
            ) == Some(JsonNode::Text(message)),
        },
{
}

/// Every field can be written, and so can every state: what is written under each
/// key is what the field is.
pub proof fn every_field_can_be_written(
    payload: Seq<(Seq<char>, FieldView)>,
    n: JsonNode,
    b: bool,
    q: Quantity,
    count: (Quantity, u64, Option<i64>),
    s: Seq<char>,
    list: Seq<Seq<char>>,
    failure: Map<Seq<char>, JsonNode>,
)
    requires
        failure.contains_key("timestamp"@) && failure["timestamp"@] == JsonNode::Text(s),
        failure.contains_key("message"@) && failure["message"@] is Text,
    ensures
        FieldView::Null.is_written_as(JsonNode::Null),
        FieldView::Bool(b).is_written_as(JsonNode::Bool(b)),
        q.finite() ==> FieldView::Number(q).is_written_as(
            JsonNode::Number { float: q, unsigned: None, signed: None },
        ),
        !q.finite() ==> FieldView::Number(q).is_written_as(JsonNode::Null),
        FieldView::Count(count.1).is_written_as(
            JsonNode::Number { float: count.0, unsigned: Some(count.1), signed: count.2 },
        ),
        FieldView::Text(s).is_written_as(JsonNode::Text(s)),
        FieldView::Texts(list).is_written_as(
            JsonNode::List(list.map_values(|t: Seq<char>| JsonNode::Text(t))),
        ),
        (FieldView::Failure {
            timestamp: s,
            message: failure["message"@]->Text_0,
        }).is_written_as(JsonNode::Object(failure)),
        n is Object && (forall|i: int|
            0 <= i < payload.len() ==> (n.member((#[trigger] payload[i]).0) is Some
                && payload[i].1.is_written_as(n.member(payload[i].0)->0))) ==> object_written(
            payload,
            n,
        ),
{
}

} // verus!
