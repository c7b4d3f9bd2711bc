//! What a command message to a thermostat's device does, told by the members of
//! the message and the configuration afterwards.

use super::values::command_names_differ;
use crate::bridge::{command_outcome, Accepted, HandleView};
use crate::config::EntryView;
use crate::json::{strings_of, JsonNode};
use crate::quantity::Quantity;
use crate::runtime::{command_in, device_stands_for_its_thermostat, RuntimeView};
use crate::table::sensor_union;
use crate::text::{has_prefix, names, prefix_goes_back, texts};
use vstd::prelude::*;

verus! {

/// Whether a command message named a command and was carried out on a
/// thermostat, which was there.
pub open spec fn told(
    old: HandleView,
    new: HandleView,
    id: Seq<char>,
    n: JsonNode,
    name: Seq<char>,
    r: Option<Accepted>,
) -> bool {
    &&& old.inner.thermostats.contains_key(id)
    &&& n.member("command"@) == Some(JsonNode::Text(name))
    &&& command_outcome(old, new, "thermostat_"@ + id, command_in(n), r)
}

/// Whether a thermostat has a configuration, and is otherwise as it was, and
/// whether its configuration is to be written back.
pub open spec fn now_has(
    old: HandleView,
    new: HandleView,
    id: Seq<char>,
    cfg: EntryView,
    r: Option<Accepted>,
    write_back: bool,
) -> bool {
    &&& new.inner.thermostats.contains_key(id)
    &&& new.inner.thermostats[id] == RuntimeView { cfg, ..old.inner.thermostats[id] }
    &&& r matches Some(a) && a.therm_id@ == id && a.changed == write_back
}

/// `set_setpoint` sets the setpoint to the number under `value`, whatever number
/// it is; without a number it sets nothing.
pub proof fn set_setpoint_sets_the_setpoint(
    old: HandleView,
    new: HandleView,
    id: Seq<char>,
    n: JsonNode,
    r: Option<Accepted>,
)
    requires
        told(old, new, id, n, "set_setpoint"@, r),
    ensures
        ({
            let cfg = old.inner.thermostats[id].cfg;
            match n.member("value"@) {
                Some(JsonNode::Number { float, .. }) => now_has(
                    old,
                    new,
                    id,
                    EntryView { setpoint: float, ..cfg },
                    r,
                    true,
                ),
                _ => now_has(old, new, id, cfg, r, false),
            }
        }),
{
    command_names_differ();
    device_stands_for_its_thermostat(id);
}

/// `set_mode` sets the mode to the string under `value`, where that is heat, cool
/// or off; with anything else it sets nothing.
pub proof fn set_mode_sets_the_mode(
    old: HandleView,
    new: HandleView,
    id: Seq<char>,
    n: JsonNode,
    r: Option<Accepted>,
)
    requires
        told(old, new, id, n, "set_mode"@, r),
    ensures
        ({
            let cfg = old.inner.thermostats[id].cfg;
            match n.member("value"@) {
                Some(JsonNode::Text(m)) => if m == "heat"@ || m == "cool"@ || m == "off"@ {
                    now_has(old, new, id, EntryView { mode: m, ..cfg }, r, true)
                } else {
                    now_has(old, new, id, cfg, r, false)
                },
                _ => now_has(old, new, id, cfg, r, false),
            }
        }),
{
    command_names_differ();
    device_stands_for_its_thermostat(id);
}

/// `set_hysteresis` sets the hysteresis to the number under `value`, or to zero
/// where that is less than zero or no number; without a number it sets nothing.
pub proof fn set_hysteresis_sets_the_hysteresis(
    old: HandleView,
    new: HandleView,
    id: Seq<char>,
    n: JsonNode,
    r: Option<Accepted>,
)
    requires
        told(old, new, id, n, "set_hysteresis"@, r),
    ensures
        ({
            let cfg = old.inner.thermostats[id].cfg;
            match n.member("value"@) {
                Some(JsonNode::Number { float, .. }) => {
                    let kept = float.bits <= 0x7FF0_0000_0000_0000 || float.bits
                        == 0x8000_0000_0000_0000;
                    let width = if kept {
                        float
                    } else {
                        Quantity { bits: 0 }
                    };
                    now_has(old, new, id, EntryView { hysteresis: width, ..cfg }, r, true)
                },
                _ => now_has(old, new, id, cfg, r, false),
            }
        }),
{
    command_names_differ();
    device_stands_for_its_thermostat(id);
}

/// `set_aggregation` sets the aggregation to the string under `value`, where that
/// is average, min or max; with anything else it sets nothing.
pub proof fn set_aggregation_sets_the_aggregation(
    old: HandleView,
    new: HandleView,
    id: Seq<char>,
    n: JsonNode,
    r: Option<Accepted>,
)
    requires
        told(old, new, id, n, "set_aggregation"@, r),
    ensures
        ({
            let cfg = old.inner.thermostats[id].cfg;
            match n.member("value"@) {
                Some(JsonNode::Text(a)) => if a == "average"@ || a == "min"@ || a == "max"@ {
                    now_has(old, new, id, EntryView { aggregation: a, ..cfg }, r, true)
                } else {
                    now_has(old, new, id, cfg, r, false)
                },
                _ => now_has(old, new, id, cfg, r, false),
            }
        }),
{
    command_names_differ();
    device_stands_for_its_thermostat(id);
}

/// `set_short_cycle` sets the shortest times on and off to the unsigned integers
/// under `min_on_secs` and `min_off_secs`, each where it is given.
pub proof fn set_short_cycle_sets_the_times(
    old: HandleView,
    new: HandleView,
    id: Seq<char>,
    n: JsonNode,
    r: Option<Accepted>,
)
    requires
        told(old, new, id, n, "set_short_cycle"@, r),
    ensures
        ({
            let cfg = old.inner.thermostats[id].cfg;
            let on = match n.member("min_on_secs"@) {
                Some(JsonNode::Number { unsigned, .. }) => unsigned,
                _ => None,
            };
            let off = match n.member("min_off_secs"@) {
                Some(JsonNode::Number { unsigned, .. }) => unsigned,
                _ => None,
            };
            let min_on_secs = if on is Some {
                on->0
            } else {
                cfg.min_on_secs
            };
            let min_off_secs = if off is Some {
                off->0
            } else {
                cfg.min_off_secs
            };
            now_has(
                old,
                new,
                id,
                EntryView { min_on_secs, min_off_secs, ..cfg },
                r,
                on is Some || off is Some,
            )
        }),
{
    command_names_differ();
    device_stands_for_its_thermostat(id);
}

/// `set_sensors` sets the sensors to the strings of the list under `sensor_ids`
/// and the attribute to the string under `attribute`, each where it is given.
pub proof fn set_sensors_sets_the_sensors(
    old: HandleView,
    new: HandleView,
    id: Seq<char>,
    n: JsonNode,
    r: Option<Accepted>,
)
    requires
        told(old, new, id, n, "set_sensors"@, r),
    ensures
        ({
            let cfg = old.inner.thermostats[id].cfg;
            let listed = n.member("sensor_ids"@) matches Some(JsonNode::List(_));
            let named = n.member("attribute"@) matches Some(JsonNode::Text(_));
            let sensor_device_ids = match n.member("sensor_ids"@) {
                Some(JsonNode::List(items)) => strings_of(items),
                _ => cfg.sensor_device_ids,
            };
            let sensor_attribute = match n.member("attribute"@) {
                Some(JsonNode::Text(a)) => a,
                _ => cfg.sensor_attribute,
            };
            now_has(
                old,
                new,
                id,
                EntryView { sensor_device_ids, sensor_attribute, ..cfg },
                r,
                listed || named,
            )
        }),
{
    command_names_differ();
    device_stands_for_its_thermostat(id);
}

/// `set_actuator` sets the actuator's device to the string under `device_id`, and
/// the commands that switch it on and off to whatever stands under `on_cmd` and
/// `off_cmd`, each where it is given.
pub proof fn set_actuator_sets_the_actuator(
    old: HandleView,
    new: HandleView,
    id: Seq<char>,
    n: JsonNode,
    r: Option<Accepted>,
)
    requires
        told(old, new, id, n, "set_actuator"@, r),
    ensures
        ({
            let cfg = old.inner.thermostats[id].cfg;
            let named = n.member("device_id"@) matches Some(JsonNode::Text(_));
            let on = n.member("on_cmd"@);
            let off = n.member("off_cmd"@);
            let actuator_device_id = match n.member("device_id"@) {
                Some(JsonNode::Text(d)) => d,
                _ => cfg.actuator_device_id,
            };
            let actuator_on_cmd = if on is Some {
                on
            } else {
                cfg.actuator_on_cmd
            };
            let actuator_off_cmd = if off is Some {
                off
            } else {
                cfg.actuator_off_cmd
            };
            now_has(
                old,
                new,
                id,
                EntryView { actuator_device_id, actuator_on_cmd, actuator_off_cmd, ..cfg },
                r,
                named || on is Some || off is Some,
            )
        }),
{
    command_names_differ();
    device_stands_for_its_thermostat(id);
}

/// A message with the command `recalculate`, with an empty one or with none sets
/// nothing, and asks for the thermostat to be recalculated.
pub proof fn recalculate_sets_nothing(
    old: HandleView,
    new: HandleView,
    id: Seq<char>,
    n: JsonNode,
    r: Option<Accepted>,
)
    requires
        old.inner.thermostats.contains_key(id),
        match n.member("command"@) {
            Some(JsonNode::Text(name)) => name == "recalculate"@ || name == ""@,
            _ => true,
        },
        command_outcome(old, new, "thermostat_"@ + id, command_in(n), r),
    ensures
        now_has(old, new, id, old.inner.thermostats[id].cfg, r, false),
{
    command_names_differ();
    device_stands_for_its_thermostat(id);
}

/// Any other command is refused, and so is every command to a device that is not
/// the device of a thermostat that is there: nothing changes and nothing is to
/// be done.
pub proof fn other_commands_are_refused(
    old: HandleView,
    new: HandleView,
    device_id: Seq<char>,
    n: JsonNode,
    r: Option<Accepted>,
)
    requires
        command_outcome(old, new, device_id, command_in(n), r),
        (n.member("command"@) matches Some(JsonNode::Text(name)) && name != "set_setpoint"@ && name
            != "set_mode"@ && name != "set_hysteresis"@ && name != "set_aggregation"@ && name
            != "set_short_cycle"@ && name != "set_sensors"@ && name != "set_actuator"@ && name
            != "recalculate"@ && name != ""@) || (forall|id: Seq<char>| #[trigger]
            old.inner.thermostats.contains_key(id) ==> device_id != "thermostat_"@ + id),
    ensures
        new == old,
        r is None,
{
    if has_prefix(device_id, "thermostat_"@) {
        prefix_goes_back("thermostat_"@, device_id);
    }
}

/// No command touches any thermostat but the one whose device it is sent to, nor
/// the readings, nor where the configuration is kept, nor the plugin's id.
pub proof fn a_command_leaves_everything_else(
    old: HandleView,
    new: HandleView,
    id: Seq<char>,
    n: JsonNode,
    r: Option<Accepted>,
)
    requires
        command_outcome(old, new, "thermostat_"@ + id, command_in(n), r),
    ensures
        forall|k: Seq<char>| #[trigger]
            new.inner.thermostats.contains_key(k) <==> old.inner.thermostats.contains_key(k),
        forall|k: Seq<char>| #[trigger]
            old.inner.thermostats.contains_key(k) && k != id ==> new.inner.thermostats[k]
                == old.inner.thermostats[k],
        new.inner.sensor_cache == old.inner.sensor_cache,
        new.inner.config_path == old.inner.config_path,
        new.plugin_id == old.plugin_id,
        new.inner.thermostats.contains_key(id) ==> new.inner.thermostats[id].cfg.id
            == old.inner.thermostats[id].cfg.id && new.inner.thermostats[id].cfg.name
            == old.inner.thermostats[id].cfg.name,
{
    device_stands_for_its_thermostat(id);
}

/// A command asks for exactly the subscriptions that changed, each once: those
/// sensors to subscribe to that some thermostat uses now and none used before,
/// and those to unsubscribe from that none uses any more. Where that names no
/// sensor it asks for none.
pub proof fn a_command_asks_for_what_changed(
    old: HandleView,
    new: HandleView,
    device_id: Seq<char>,
    n: JsonNode,
    r: Option<Accepted>,
    s: Seq<char>,
)
    requires
        command_outcome(old, new, device_id, command_in(n), r),
    ensures
        r matches Some(a) ==> match a.sensors {
            Some(d) => {
                &&& texts(d.added@).no_duplicates()
                &&& texts(d.removed@).no_duplicates()
                &&& texts(d.added@).contains(s) <==> used(new, s) && !used(old, s)
                &&& texts(d.removed@).contains(s) <==> used(old, s) && !used(new, s)
            },
            None => used(old, s) == used(new, s),
        },
        r is None ==> used(old, s) == used(new, s),
{
    assert(used(old, s) == sensor_union(old.inner.thermostats).contains(s));
    assert(used(new, s) == sensor_union(new.inner.thermostats).contains(s));
    if let Some(a) = r {
        if let Some(d) = a.sensors {
            assert(names(d.added@).contains(s) <==> texts(d.added@).contains(s));
            assert(names(d.removed@).contains(s) <==> texts(d.removed@).contains(s));
        }
    }
}

/// Whether some thermostat has a sensor among those that it lists.
pub open spec fn used(h: HandleView, s: Seq<char>) -> bool {
    exists|id: Seq<char>| #[trigger]
        h.inner.thermostats.contains_key(id) && h.inner.thermostats[id].cfg.sensor_device_ids
            .contains(s)
}

} // verus!
