//! What each event does to the bridge, and what is to be published and
//! subscribed after it.

use super::commands::used;
use super::values::command_names_differ;
use crate::bridge::{
    attributes_of, carried_out, command_outcome, has_readings, inputs_of, is_number_of, leads,
    lists_devices, readings_of, recalculation_outcome, registrations, removal_outcome,
    restore_outcome, sending_outcome, sensor_outcome, state_of_device, with_reading, Accepted,
    BridgeError, ControlInputs, HandleView, Recalculation, Registration, Removed, SensorDiff,
};
use crate::json::{json_content, json_written, JsonNode, Payload};
use crate::quantity::Quantity;
use crate::runtime::{
    carries, command_in, commands_of, device_stands_for_its_thermostat, issued, published_now,
    recalculated, restored, state_of, thermostat_of, EvaluationView, Message, RetainedView,
    RuntimeView,
};
use crate::table::{
    configs_of, lists_configs, own_devices, sensor_union, waiting, watchers, Thermostats,
};
use crate::text::{has_prefix, names, prefix_goes_back, texts};
use vstd::prelude::*;

verus! {

// ── Devices ─────────────────────────────────────────────────────────────────

/// A device stands for a thermostat exactly where it is named `thermostat_` and
/// the thermostat's id.
pub proof fn devices_are_named_after_thermostats(device_id: Seq<char>, id: Seq<char>)
    ensures
        thermostat_of(device_id) == Some(id) <==> device_id == "thermostat_"@ + id,
{
    device_stands_for_its_thermostat(id);
    if has_prefix(device_id, "thermostat_"@) {
        prefix_goes_back("thermostat_"@, device_id);
    }
}

/// Commands for a device are published under its name, and so is its state: no
/// two devices share a topic, and no topic carries both.
pub proof fn topics_belong_to_devices(a: Seq<char>, b: Seq<char>)
    ensures
        commands_of(a) == "homecore/devices/"@ + a + "/cmd"@,
        state_of(a) == "homecore/devices/"@ + a + "/state"@,
        commands_of(a) == commands_of(b) ==> a == b,
        state_of(a) == state_of(b) ==> a == b,
        commands_of(a) != state_of(b),
{
    let p = "homecore/devices/"@;
    reveal_strlit("/cmd");
    reveal_strlit("/state");
    if commands_of(a) == commands_of(b) {
        assert(a =~= commands_of(a).subrange(p.len() as int, commands_of(a).len() - 4));
        assert(b =~= commands_of(b).subrange(p.len() as int, commands_of(b).len() - 4));
    }
    if state_of(a) == state_of(b) {
        assert(a =~= state_of(a).subrange(p.len() as int, state_of(a).len() - 6));
        assert(b =~= state_of(b).subrange(p.len() as int, state_of(b).len() - 6));
    }
    assert(commands_of(a).last() == 'd');
    assert(state_of(b).last() == 'e');
}

/// A command to a device travels on the topic of that device's commands, as
/// what it is in JSON; what cannot be written does not travel.
pub proof fn a_command_travels_to_its_device(
    device_id: Seq<char>,
    payload: JsonNode,
    r: Result<Message, String>,
)
    requires
        carries(device_id, payload, r),
    ensures
        r is Ok <==> json_written(payload) is Ok,
        r matches Ok(m) ==> m.topic@ == "homecore/devices/"@ + device_id + "/cmd"@ && json_written(
            payload,
        ) == Ok::<Seq<u8>, Seq<char>>(m.bytes@),
        r matches Err(e) ==> json_written(payload) == Err::<Seq<u8>, Seq<char>>(e@),
{
}

/// Our devices are those that are named after the thermostats that are there.
pub proof fn our_devices_are_the_thermostats(m: Thermostats, device_id: Seq<char>)
    ensures
        own_devices(m).contains(device_id) <==> exists|id: Seq<char>| #[trigger]
            m.contains_key(id) && device_id == "thermostat_"@ + id,
{
    if exists|id: Seq<char>| #[trigger] m.contains_key(id) && device_id == "thermostat_"@ + id {
        let id = choose|id: Seq<char>| #[trigger]
            m.contains_key(id) && device_id == "thermostat_"@ + id;
        devices_are_named_after_thermostats(device_id, id);
    }
}

/// Every thermostat's device is to be registered once, under the thermostat's
/// name, and no other device is.
pub proof fn every_device_is_registered_once(
    list: Seq<Registration>,
    m: Thermostats,
    id: Seq<char>,
    i: int,
    j: int,
)
    requires
        lists_devices(registrations(list), m),
    ensures
        m.contains_key(id) ==> exists|k: int|
            0 <= k < list.len() && (#[trigger] list[k]).device_id@ == "thermostat_"@ + id
                && list[k].name@ == m[id].cfg.name,
        0 <= i < list.len() ==> exists|k: Seq<char>| #[trigger]
            m.contains_key(k) && list[i].device_id@ == "thermostat_"@ + k && list[i].name@
                == m[k].cfg.name,
        0 <= i < j < list.len() ==> list[i].device_id@ != list[j].device_id@,
{
    let seen = registrations(list);
    assert forall|k: int| 0 <= k < list.len() implies #[trigger] seen[k] == (
        list[k].device_id@,
        list[k].name@,
    ) by {}
    if m.contains_key(id) {
        let d = "thermostat_"@ + id;
        devices_are_named_after_thermostats(d, id);
        assert(own_devices(m).contains(d));
        assert(seen.contains((d, m[id].cfg.name)));
        let k = choose|k: int| 0 <= k < seen.len() && seen[k] == (d, m[id].cfg.name);
        assert(list[k].device_id@ == d);
    }
    if 0 <= i < list.len() {
        let (d, n) = seen[i];
        assert(seen.contains((d, n)));
        let k = thermostat_of(d)->0;
        devices_are_named_after_thermostats(d, k);
        assert(m.contains_key(k));
    }
    if 0 <= i < j < list.len() {
        assert(seen[i].0 != seen[j].0);
    }
}

/// The state of a thermostat's device is that thermostat's, and a device that is
/// not one of ours has none.
pub proof fn a_device_publishes_its_thermostat(
    m: Thermostats,
    device_id: Seq<char>,
    id: Seq<char>,
    r: Option<Payload>,
)
    requires
        state_of_device(m, device_id, r),
    ensures
        device_id == "thermostat_"@ + id && m.contains_key(id) ==> (r matches Some(p)
            && published_now(p@, m[id])),
        (forall|k: Seq<char>| #[trigger] m.contains_key(k) ==> device_id != "thermostat_"@ + k)
            ==> r is None,
{
    our_devices_are_the_thermostats(m, device_id);
    devices_are_named_after_thermostats(device_id, id);
}

// ── Sensors ─────────────────────────────────────────────────────────────────

/// The sensors in use are those that some thermostat lists; the thermostats that
/// use a sensor are those that list it, and there are some exactly where the
/// sensor is in use.
pub proof fn sensors_are_used_by_those_that_list_them(
    h: HandleView,
    sensor: Seq<char>,
    id: Seq<char>,
)
    ensures
        ({
            let m = h.inner.thermostats;
            &&& sensor_union(m).contains(sensor) <==> used(h, sensor)
            &&& watchers(m, sensor).contains(id) <==> m.contains_key(id) && exists|i: int|
                0 <= i < m[id].cfg.sensor_device_ids.len() && #[trigger] m[id].cfg.sensor_device_ids[i]
                    == sensor
            &&& watchers(m, sensor).contains(id) ==> used(h, sensor)
            &&& attributes_of(m, sensor).contains(m[id].cfg.sensor_attribute) || !watchers(
                m,
                sensor,
            ).contains(id)
        }),
{
}

/// A difference between two sets of sensors names, each once, those to add that
/// stand only in the second and those to remove that stand only in the first;
/// carried out on the first set it gives the second.
pub proof fn differences_name_what_differs(
    diff: SensorDiff,
    from: Set<Seq<char>>,
    to: Set<Seq<char>>,
    s: Seq<char>,
)
    requires
        leads(diff, from, to),
    ensures
        texts(diff.added@).no_duplicates(),
        texts(diff.removed@).no_duplicates(),
        texts(diff.added@).contains(s) <==> to.contains(s) && !from.contains(s),
        texts(diff.removed@).contains(s) <==> from.contains(s) && !to.contains(s),
        carried_out(diff, from).contains(s) <==> to.contains(s),
{
    assert(names(diff.added@).contains(s) <==> texts(diff.added@).contains(s));
    assert(names(diff.removed@).contains(s) <==> texts(diff.removed@).contains(s));
}

/// A message of a sensor names, each once, the thermostats that list it, to be
/// recalculated. It changes no thermostat and no reading of another sensor. The
/// sensor's reading becomes a number that the message holds under the attribute
/// of a thermostat that lists the sensor; where it holds none, nothing changes.
pub proof fn a_message_becomes_a_reading(
    old: HandleView,
    new: HandleView,
    sensor: Seq<char>,
    n: JsonNode,
    r: Seq<String>,
    id: Seq<char>,
)
    requires
        sensor_outcome(old, new, sensor, n, r),
    ensures
        texts(r).no_duplicates(),
        texts(r).contains(id) <==> old.inner.thermostats.contains_key(id)
            && old.inner.thermostats[id].cfg.sensor_device_ids.contains(sensor),
        new.inner.thermostats == old.inner.thermostats,
        new.inner.config_path == old.inner.config_path,
        new.plugin_id == old.plugin_id,
        new.snapshot == old.snapshot,
        forall|s: Seq<char>|
            s != sensor ==> (#[trigger] new.inner.sensor_cache.contains_key(s)
                <==> old.inner.sensor_cache.contains_key(s)) && (old.inner.sensor_cache.contains_key(
                s,
            ) ==> new.inner.sensor_cache[s] == old.inner.sensor_cache[s]),
        (exists|k: Seq<char>| #[trigger] tells(old, sensor, n, k)) ==> exists|k: Seq<char>|
            {
                &&& #[trigger] tells(old, sensor, n, k)
                &&& new.inner.sensor_cache.contains_key(sensor)
                &&& n.member(old.inner.thermostats[k].cfg.sensor_attribute) matches Some(
                    JsonNode::Number { float, .. },
                ) && new.inner.sensor_cache[sensor] == float
            },
        !(exists|k: Seq<char>| #[trigger] tells(old, sensor, n, k)) ==> new == old,
{
    let m = old.inner.thermostats;
    let attributes = attributes_of(m, sensor);
    assert(names(r).contains(id) <==> texts(r).contains(id));
    if exists|k: Seq<char>| #[trigger] tells(old, sensor, n, k) {
        let k = choose|k: Seq<char>| #[trigger] tells(old, sensor, n, k);
        assert(watchers(m, sensor).contains(k));
        assert(attributes.contains(m[k].cfg.sensor_attribute));
        let q = choose|q: Quantity| #[trigger]
            is_number_of(q, n, attributes) && new == with_reading(old, sensor, q);
        let a = choose|a: Seq<char>| #[trigger]
            attributes.contains(a) && n.member_float(a) == Some(q);
        let w = choose|w: Seq<char>| #[trigger]
            watchers(m, sensor).contains(w) && m[w].cfg.sensor_attribute == a;
        assert(tells(old, sensor, n, w));
    } else {
        assert forall|a: Seq<char>| #[trigger] attributes.contains(a) implies n.member_float(
            a,
        ) is None by {
            let w = choose|w: Seq<char>| #[trigger]
                watchers(m, sensor).contains(w) && m[w].cfg.sensor_attribute == a;
            assert(!tells(old, sensor, n, w));
        }
    }
}

/// Whether a message of a sensor tells a thermostat something: it lists the
/// sensor, and a number stands under its attribute.
pub open spec fn tells(h: HandleView, sensor: Seq<char>, n: JsonNode, id: Seq<char>) -> bool {
    &&& h.inner.thermostats.contains_key(id)
    &&& h.inner.thermostats[id].cfg.sensor_device_ids.contains(sensor)
    &&& n.member(h.inner.thermostats[id].cfg.sensor_attribute) matches Some(
        JsonNode::Number { .. },
    )
}

/// Where all thermostats that list a sensor read the same attribute, the number
/// under it becomes the sensor's reading.
pub proof fn the_number_under_the_attribute_is_the_reading(
    old: HandleView,
    new: HandleView,
    sensor: Seq<char>,
    n: JsonNode,
    r: Seq<String>,
    id: Seq<char>,
)
    requires
        sensor_outcome(old, new, sensor, n, r),
        tells(old, sensor, n, id),
        forall|k: Seq<char>| #[trigger]
            old.inner.thermostats.contains_key(k)
                && old.inner.thermostats[k].cfg.sensor_device_ids.contains(sensor)
                ==> old.inner.thermostats[k].cfg.sensor_attribute
                == old.inner.thermostats[id].cfg.sensor_attribute,
    ensures
        n.member(old.inner.thermostats[id].cfg.sensor_attribute) matches Some(
            JsonNode::Number { float, .. },
        ) && new.inner.sensor_cache == old.inner.sensor_cache.insert(sensor, float),
{
    a_message_becomes_a_reading(old, new, sensor, n, r, id);
    let k = choose|k: Seq<char>|
        {
            &&& #[trigger] tells(old, sensor, n, k)
            &&& new.inner.sensor_cache.contains_key(sensor)
            &&& n.member(old.inner.thermostats[k].cfg.sensor_attribute) matches Some(
                JsonNode::Number { float, .. },
            ) && new.inner.sensor_cache[sensor] == float
        };
    let float = n.member(old.inner.thermostats[id].cfg.sensor_attribute)->0->float;
    assert(new.inner.sensor_cache =~= old.inner.sensor_cache.insert(sensor, float));
}

/// The readings of some sensors are those of the first ones and then those of
/// the others: of one sensor its reading, where it was read, and else nothing.
pub proof fn readings_are_in_the_order_of_the_sensors(
    a: Seq<Seq<char>>,
    b: Seq<Seq<char>>,
    s: Seq<char>,
    cache: Map<Seq<char>, Quantity>,
)
    ensures
        readings_of(a + b, cache) == readings_of(a, cache) + readings_of(b, cache),
        cache.contains_key(s) ==> readings_of(seq![s], cache) == seq![cache[s]],
        !cache.contains_key(s) ==> readings_of(seq![s], cache) == Seq::<Quantity>::empty(),
    decreases b.len(),
{
    assert(seq![s].drop_last() =~= Seq::<Seq<char>>::empty());
    assert(readings_of(seq![s].drop_last(), cache) == Seq::<Quantity>::empty());
    if b.len() == 0 {
        assert(a + b =~= a);
        assert(readings_of(a, cache) + readings_of(b, cache) =~= readings_of(a, cache));
    } else {
        readings_are_in_the_order_of_the_sensors(a, b.drop_last(), s, cache);
        assert((a + b).drop_last() =~= a + b.drop_last());
        assert((a + b).last() == b.last());
        assert(readings_of(a + b, cache) =~= readings_of(a, cache) + readings_of(b, cache));
    }
    if cache.contains_key(s) {
        assert(readings_of(seq![s], cache) =~= seq![cache[s]]);
    }
}

/// A thermostat has a reading exactly where one of its sensors was read.
pub proof fn one_sensor_is_enough(rt: RuntimeView, cache: Map<Seq<char>, Quantity>)
    ensures
        has_readings(rt, cache) <==> exists|i: int|
            0 <= i < rt.cfg.sensor_device_ids.len() && cache.contains_key(
                #[trigger] rt.cfg.sensor_device_ids[i],
            ),
{
    some_was_read(rt.cfg.sensor_device_ids, cache);
}

proof fn some_was_read(sensors: Seq<Seq<char>>, cache: Map<Seq<char>, Quantity>)
    ensures
        readings_of(sensors, cache).len() > 0 <==> exists|i: int|
            0 <= i < sensors.len() && cache.contains_key(#[trigger] sensors[i]),
    decreases sensors.len(),
{
    if sensors.len() > 0 {
        let rest = sensors.drop_last();
        some_was_read(rest, cache);
        if cache.contains_key(sensors.last()) {
            assert(cache.contains_key(sensors[sensors.len() - 1]));
        }
        if exists|i: int| 0 <= i < rest.len() && cache.contains_key(#[trigger] rest[i]) {
            let i = choose|i: int| 0 <= i < rest.len() && cache.contains_key(#[trigger] rest[i]);
            assert(sensors[i] == rest[i]);
        }
        if exists|i: int| 0 <= i < sensors.len() && cache.contains_key(#[trigger] sensors[i]) {
            let i = choose|i: int|
                0 <= i < sensors.len() && cache.contains_key(#[trigger] sensors[i]);
            if i < rest.len() {
                assert(rest[i] == sensors[i]);
            }
        }
    }
}

// ── Recalculation ───────────────────────────────────────────────────────────

/// The control loop is given what the thermostat is configured to and last came
/// to, and the readings of its sensors; for a thermostat that is not there it is
/// given nothing.
pub proof fn the_control_loop_sees_the_thermostat(
    h: HandleView,
    id: Seq<char>,
    r: Option<ControlInputs>,
)
    requires
        inputs_of(h, id, r),
    ensures
        r is Some <==> h.inner.thermostats.contains_key(id),
        r matches Some(inputs) ==> {
            let rt = h.inner.thermostats[id];
            &&& inputs.readings@ == readings_of(rt.cfg.sensor_device_ids, h.inner.sensor_cache)
            &&& inputs.aggregation@ == rt.cfg.aggregation
            &&& inputs.setpoint == rt.cfg.setpoint
            &&& inputs.hysteresis == rt.cfg.hysteresis
            &&& inputs.mode@ == rt.cfg.mode
            &&& inputs.call_for@ == rt.call_for
            &&& inputs.actuator_state == rt.actuator_state
            &&& inputs.min_on_secs == rt.cfg.min_on_secs
            &&& inputs.min_off_secs == rt.cfg.min_off_secs
            &&& inputs.actuator_last_change == rt.actuator_last_change
        },
{
}

/// A setpoint that was just set is the one that the control loop goes by, and so
/// is a mode that was just set, where it is one.
pub proof fn what_was_set_is_what_is_controlled(
    old: HandleView,
    new: HandleView,
    id: Seq<char>,
    n: JsonNode,
    r: Option<Accepted>,
    seen: Option<ControlInputs>,
)
    requires
        old.inner.thermostats.contains_key(id),
        command_outcome(old, new, "thermostat_"@ + id, command_in(n), r),
        inputs_of(new, id, seen),
    ensures
        seen is Some,
        n.member("command"@) == Some(JsonNode::Text("set_setpoint"@)) ==> (n.member("value"@)
            matches Some(JsonNode::Number { float, .. }) ==> seen->0.setpoint == float),
        n.member("command"@) == Some(JsonNode::Text("set_mode"@)) ==> (n.member("value"@)
            matches Some(JsonNode::Text(m)) ==> (m == "heat"@ || m == "cool"@ || m == "off"@)
            ==> seen->0.mode@ == m),
{
    device_stands_for_its_thermostat(id);
    command_names_differ();
}

/// Recalculating a thermostat changes that one alone, by the laws of
/// recalculation and by whether any of its sensors was read. Its device is to
/// publish the state that it then has, and its actuator is sent what is issued.
/// A thermostat that is not there changes nothing.
pub proof fn a_recalculation_is_of_one_thermostat(
    old: HandleView,
    new: HandleView,
    id: Seq<char>,
    ev: EvaluationView,
    r: Option<Recalculation>,
    read: bool,
    k: Seq<char>,
)
    requires
        recalculation_outcome(old, new, id, ev, r),
        read <==> exists|i: int|
            0 <= i < old.inner.thermostats[id].cfg.sensor_device_ids.len()
                && old.inner.sensor_cache.contains_key(
                #[trigger] old.inner.thermostats[id].cfg.sensor_device_ids[i],
            ),
    ensures
        ({
            let was = old.inner.thermostats[id];
            let now = new.inner.thermostats[id];
            if old.inner.thermostats.contains_key(id) {
                &&& new.inner.thermostats.contains_key(id)
                &&& now == recalculated(was, read, ev)
                &&& r matches Some(done) && {
                    &&& done.device_id@ == "thermostat_"@ + id
                    &&& published_now(done.payload@, now)
                    &&& match done.command {
                        Some(c) => issued(was, read, ev) == Some(
                            (c.device_id@, json_content(c.payload)),
                        ),
                        None => issued(was, read, ev) is None,
                    }
                }
            } else {
                r is None && new == old
            }
        }),
        new.inner.thermostats.contains_key(k) <==> old.inner.thermostats.contains_key(k),
        k != id && old.inner.thermostats.contains_key(k) ==> new.inner.thermostats[k]
            == old.inner.thermostats[k],
        new.inner.sensor_cache == old.inner.sensor_cache,
        new.inner.config_path == old.inner.config_path,
        new.plugin_id == old.plugin_id,
        new.snapshot == old.snapshot,
{
    one_sensor_is_enough(old.inner.thermostats[id], old.inner.sensor_cache);
}

/// The thermostats that are tried again every now and then are those with a call
/// pending.
pub proof fn those_with_a_pending_call_wait(m: Thermostats, id: Seq<char>)
    ensures
        waiting(m).contains(id) <==> m.contains_key(id) && m[id].pending_call is Some,
{
}

/// What became of a command to an actuator is noted of the thermostat whose
/// device sent it, and of that one alone, where it has an id and is there. The
/// failure is kept with its message, a success clears it, and the state is to
/// be published again.
pub proof fn what_became_of_a_command_is_noted(
    old: HandleView,
    new: HandleView,
    device_id: Seq<char>,
    id: Seq<char>,
    error: Option<Seq<char>>,
    r: Option<Payload>,
    k: Seq<char>,
)
    requires
        sending_outcome(old, new, device_id, error, r),
    ensures
        device_id == "thermostat_"@ + id && id.len() > 0 && old.inner.thermostats.contains_key(id)
            ==> {
            let now = new.inner.thermostats[id];
            &&& new.inner.thermostats.contains_key(id)
            &&& error is None ==> now.actuator_last_error is None
            &&& error matches Some(message) ==> (now.actuator_last_error matches Some(e)
                && e.message == message && e.timestamp.ordinary())
            &&& RuntimeView {
                actuator_last_error: old.inner.thermostats[id].actuator_last_error,
                ..now
            } == old.inner.thermostats[id]
            &&& r matches Some(p) && published_now(p@, now)
        },
        (forall|t: Seq<char>| #[trigger]
            old.inner.thermostats.contains_key(t) && t.len() > 0 ==> device_id != "thermostat_"@
                + t) ==> r is None && new == old,
        new.inner.thermostats.contains_key(k) <==> old.inner.thermostats.contains_key(k),
        device_id != "thermostat_"@ + k && old.inner.thermostats.contains_key(k)
            ==> new.inner.thermostats[k] == old.inner.thermostats[k],
        new.inner.sensor_cache == old.inner.sensor_cache,
        new.inner.config_path == old.inner.config_path,
        new.plugin_id == old.plugin_id,
        new.snapshot == old.snapshot,
{
    our_devices_are_the_thermostats(old.inner.thermostats, device_id);
    devices_are_named_after_thermostats(device_id, id);
    devices_are_named_after_thermostats(device_id, k);
    if own_devices(old.inner.thermostats).contains(device_id) {
        let t = thermostat_of(device_id)->0;
        devices_are_named_after_thermostats(device_id, t);
    }
}

// ── Retained state ──────────────────────────────────────────────────────────

/// A retained message of a thermostat's device restores that thermostat and
/// nothing else, and one of any other device changes nothing.
pub proof fn a_retained_message_is_for_one_thermostat(
    old: HandleView,
    new: HandleView,
    device_id: Seq<char>,
    told: RetainedView,
    id: Seq<char>,
)
    requires
        restore_outcome(old, new, device_id, told),
    ensures
        device_id == "thermostat_"@ + id && old.inner.thermostats.contains_key(id)
            ==> new.inner.thermostats.contains_key(id) && new.inner.thermostats[id] == restored(
            old.inner.thermostats[id],
            told,
        ),
        device_id != "thermostat_"@ + id && old.inner.thermostats.contains_key(id)
            ==> new.inner.thermostats[id] == old.inner.thermostats[id],
        new.inner.thermostats.contains_key(id) <==> old.inner.thermostats.contains_key(id),
        (forall|t: Seq<char>| #[trigger]
            old.inner.thermostats.contains_key(t) ==> device_id != "thermostat_"@ + t) ==> new
            == old,
        new.inner.sensor_cache == old.inner.sensor_cache,
        new.inner.config_path == old.inner.config_path,
        new.plugin_id == old.plugin_id,
        new.snapshot == old.snapshot,
{
    devices_are_named_after_thermostats(device_id, id);
    if let Some(t) = thermostat_of(device_id) {
        devices_are_named_after_thermostats(device_id, t);
    }
}

// ── Removing ────────────────────────────────────────────────────────────────

/// A thermostat that is there is removed, and nothing else changes but the
/// snapshot. Its device is to be announced as gone and its retained state to be
/// cleared, and those of its sensors are, each once, to be unsubscribed that no
/// other thermostat lists. A thermostat that is not there is named, and nothing
/// changes.
pub proof fn a_thermostat_is_removed(
    old: HandleView,
    new: HandleView,
    id: Seq<char>,
    r: Result<Removed, BridgeError>,
    k: Seq<char>,
    s: Seq<char>,
)
    requires
        removal_outcome(old, new, id, r),
    ensures
        r is Ok <==> old.inner.thermostats.contains_key(id),
        r matches Err(e) ==> (e matches BridgeError::NotFound(x) && x@ == id) && new == old,
        new.inner.thermostats.contains_key(k) <==> old.inner.thermostats.contains_key(k) && k != id,
        k != id && old.inner.thermostats.contains_key(k) ==> new.inner.thermostats[k]
            == old.inner.thermostats[k],
        new.inner.sensor_cache == old.inner.sensor_cache,
        new.inner.config_path == old.inner.config_path,
        new.plugin_id == old.plugin_id,
        r matches Ok(removed) ==> {
            &&& removed.device_id@ == "thermostat_"@ + id
            &&& removed.state_topic@ == "homecore/devices/"@ + ("thermostat_"@ + id) + "/state"@
            &&& texts(removed.sensors_removed@).no_duplicates()
            &&& texts(removed.sensors_removed@).contains(s)
                <==> old.inner.thermostats[id].cfg.sensor_device_ids.contains(s) && !used(new, s)
        },
{
    assert(used(new, s) == sensor_union(new.inner.thermostats).contains(s));
    if let Ok(removed) = r {
        let mine = old.inner.thermostats[id].cfg.sensor_device_ids;
        assert(names(removed.sensors_removed@).contains(s) <==> texts(
            removed.sensors_removed@,
        ).contains(s));
        assert(mine.to_set().contains(s) <==> mine.contains(s));
    }
}

/// Whatever is added, removed, loaded again or set by a command, the snapshot
/// lists the configurations that the thermostats then have.
pub proof fn the_snapshot_follows(old: HandleView, new: HandleView, m: Thermostats)
    requires
        old.became(m, new),
    ensures
        new.inner.thermostats == m,
        lists_configs(new.snapshot, configs_of(m)),
        new.inner.sensor_cache == old.inner.sensor_cache,
        new.inner.config_path == old.inner.config_path,
        new.plugin_id == old.plugin_id,
{
}

} // verus!
