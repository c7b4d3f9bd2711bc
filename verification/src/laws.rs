//! What holds of the bridge across events.

use crate::bridge::{
    add_fault, assembled, carried_out, command_outcome, has_readings, leads, readings_of,
    with_command, Accepted, HandleView, SensorDiff,
};
use crate::config::{
    config_fault, entries, entry_fault, first_fault, no_fault_means_every_entry_is_sound, Config,
    ConfigError, EntryView, SectionView,
};
use crate::instant::Timestamp;
use crate::quantity::Quantity;
use crate::runtime::{
    commands_keep_entries_sound, fresh, goes_stale, locked_out, recalculated, restored,
    with_outcome, CommandView, EvaluationView, RetainedView, RuntimeView,
};
use crate::table::{
    config_list_is_unique, configs_of, listed_sensors, lists_configs, sensor_union,
    thermostats_wf, upserted, waiting, Thermostats,
};
use crate::text::names;
use vstd::prelude::*;

pub mod commands;
pub mod configuration;
pub mod events;
pub mod published;
pub mod recalculation;
pub mod values;

verus! {

// ── Subscriptions ───────────────────────────────────────────────────────────

/// Carrying a difference between two sets of sensors out leads from the one to
/// the other.
pub proof fn differences_lead_there(diff: SensorDiff, from: Set<Seq<char>>, to: Set<Seq<char>>)
    requires
        leads(diff, from, to),
    ensures
        carried_out(diff, from) == to,
{
    assert(carried_out(diff, from) =~= to);
}

/// The subscriptions after a command's difference, if it gives one, was carried
/// out.
pub open spec fn after_command(r: Option<Accepted>, subscribed: Set<Seq<char>>) -> Set<Seq<char>> {
    match r {
        Some(a) => match a.sensors {
            Some(d) => carried_out(d, subscribed),
            None => subscribed,
        },
        None => subscribed,
    }
}

/// Where exactly the sensors in use are subscribed, they are again after any
/// command, once its difference was carried out.
pub proof fn commands_keep_subscriptions(
    old: HandleView,
    new: HandleView,
    device_id: Seq<char>,
    cmd: CommandView,
    r: Option<Accepted>,
)
    requires
        command_outcome(old, new, device_id, cmd, r),
    ensures
        after_command(r, sensor_union(old.inner.thermostats)) == sensor_union(
            new.inner.thermostats,
        ),
{
    if let Some(a) = r {
        if let Some(d) = a.sensors {
            differences_lead_there(
                d,
                sensor_union(old.inner.thermostats),
                sensor_union(new.inner.thermostats),
            );
        }
    }
}

/// Where exactly the sensors in use are subscribed, they are again after a
/// thermostat was added and its new sensors were subscribed.
pub proof fn adding_keeps_subscriptions(m: Thermostats, e: EntryView)
    requires
        !m.contains_key(e.id),
    ensures
        ({
            let after = m.insert(e.id, fresh(e));
            sensor_union(m).union(sensor_union(after).difference(sensor_union(m)))
                == sensor_union(after)
        }),
{
    let after = m.insert(e.id, fresh(e));
    assert forall|s: Seq<char>| sensor_union(m).contains(s) implies sensor_union(after).contains(
        s,
    ) by {
        let id = choose|id: Seq<char>| #[trigger]
            m.contains_key(id) && m[id].cfg.sensor_device_ids.contains(s);
        assert(after.contains_key(id));
    }
    assert(sensor_union(m).union(sensor_union(after).difference(sensor_union(m))) =~= sensor_union(
        after,
    ));
}

/// Where exactly the sensors in use are subscribed, they are again after a
/// thermostat was removed and the sensors that nothing else uses were
/// unsubscribed.
pub proof fn removing_keeps_subscriptions(m: Thermostats, id: Seq<char>)
    requires
        m.contains_key(id),
    ensures
        ({
            let after = m.remove(id);
            sensor_union(m).difference(
                m[id].cfg.sensor_device_ids.to_set().difference(sensor_union(after)),
            ) == sensor_union(after)
        }),
{
    let after = m.remove(id);
    let orphans = m[id].cfg.sensor_device_ids.to_set().difference(sensor_union(after));
    assert forall|s: Seq<char>|
        sensor_union(m).difference(orphans).contains(s) <==> sensor_union(after).contains(s) by {
        if sensor_union(after).contains(s) {
            let k = choose|k: Seq<char>| #[trigger]
                after.contains_key(k) && after[k].cfg.sensor_device_ids.contains(s);
            assert(m.contains_key(k));
        }
        if sensor_union(m).contains(s) && !orphans.contains(s) {
            let k = choose|k: Seq<char>| #[trigger]
                m.contains_key(k) && m[k].cfg.sensor_device_ids.contains(s);
            if k == id {
                assert(m[id].cfg.sensor_device_ids.to_set().contains(s));
            } else {
                assert(after.contains_key(k));
            }
        }
    }
    assert(sensor_union(m).difference(orphans) =~= sensor_union(after));
}

/// No two entries of a list have the same id.
pub open spec fn ids_differ(list: Seq<EntryView>) -> bool {
    forall|i: int, j: int| 0 <= i < j < list.len() ==> list[i].id != list[j].id
}

/// What taking a list of entries over comes to where no id occurs twice: each
/// entry is the configuration of its thermostat, which keeps its state if it was
/// there; every other thermostat is as it was.
proof fn upserted_by_id(m: Thermostats, list: Seq<EntryView>)
    requires
        ids_differ(list),
    ensures
        forall|i: int|
            0 <= i < list.len() ==> upserted(m, list).contains_key((#[trigger] list[i]).id)
                && upserted(m, list)[list[i].id] == (if m.contains_key(list[i].id) {
                m[list[i].id].with_cfg(list[i])
            } else {
                fresh(list[i])
            }),
        forall|id: Seq<char>|
            (forall|i: int| 0 <= i < list.len() ==> (#[trigger] list[i]).id != id) ==> (
            #[trigger] upserted(m, list).contains_key(id) == m.contains_key(id) && (
            m.contains_key(id) ==> upserted(m, list)[id] == m[id])),
    decreases list.len(),
{
    if list.len() > 0 {
        let rest = list.drop_last();
        let e = list.last();
        assert(ids_differ(rest));
        upserted_by_id(m, rest);
        let before = upserted(m, rest);
        assert forall|i: int| 0 <= i < rest.len() implies (#[trigger] rest[i]).id != e.id by {
            assert(rest[i] == list[i]);
        }
        assert(before.contains_key(e.id) == m.contains_key(e.id));
        assert forall|i: int| 0 <= i < list.len() implies upserted(m, list).contains_key(
            (#[trigger] list[i]).id,
        ) && upserted(m, list)[list[i].id] == (if m.contains_key(list[i].id) {
            m[list[i].id].with_cfg(list[i])
        } else {
            fresh(list[i])
        }) by {
            if i < rest.len() {
                assert(rest[i] == list[i]);
                assert(before.contains_key(rest[i].id));
            }
        }
        assert forall|id: Seq<char>|
            (forall|i: int| 0 <= i < list.len() ==> (#[trigger] list[i]).id != id) implies (
        #[trigger] upserted(m, list).contains_key(id) == m.contains_key(id) && (m.contains_key(id)
            ==> upserted(m, list)[id] == m[id])) by {
            assert(list[list.len() - 1].id != id);
            assert forall|i: int| 0 <= i < rest.len() implies (#[trigger] rest[i]).id != id by {
                assert(rest[i] == list[i]);
            }
            assert(before.contains_key(id) == m.contains_key(id));
        }
    }
}

/// Where exactly the sensors in use are subscribed, they are again after a
/// configuration was loaded again and its difference was carried out, provided
/// that the configuration names every thermostat that is there, and none twice.
pub proof fn reloading_keeps_subscriptions(m: Thermostats, list: Seq<EntryView>, diff: SensorDiff)
    requires
        leads(diff, sensor_union(m), listed_sensors(list)),
        ids_differ(list),
        forall|id: Seq<char>| #[trigger]
            m.contains_key(id) ==> exists|i: int|
                0 <= i < list.len() && (#[trigger] list[i]).id == id,
    ensures
        carried_out(diff, sensor_union(m)) == sensor_union(upserted(m, list)),
{
    differences_lead_there(diff, sensor_union(m), listed_sensors(list));
    upserted_by_id(m, list);
    let after = upserted(m, list);
    assert forall|s: Seq<char>|
        listed_sensors(list).contains(s) <==> sensor_union(after).contains(s) by {
        if listed_sensors(list).contains(s) {
            let i = choose|i: int|
                0 <= i < list.len() && (#[trigger] list[i]).sensor_device_ids.contains(s);
            assert(after.contains_key(list[i].id));
        }
        if sensor_union(after).contains(s) {
            let id = choose|id: Seq<char>| #[trigger]
                after.contains_key(id) && after[id].cfg.sensor_device_ids.contains(s);
            if forall|i: int| 0 <= i < list.len() ==> (#[trigger] list[i]).id != id {
                assert(after.contains_key(id) == m.contains_key(id));
            }
            let i = choose|i: int| 0 <= i < list.len() && (#[trigger] list[i]).id == id;
            assert(after[list[i].id].cfg == list[i]);
        }
    }
    assert(listed_sensors(list) =~= sensor_union(after));
}

// ── Adding and removing ─────────────────────────────────────────────────────

/// Removing a thermostat that was just added leaves the thermostats as they
/// were, and the sensors to unsubscribe from are those that were subscribed for
/// it.
pub proof fn removing_undoes_adding(m: Thermostats, e: EntryView)
    requires
        add_fault(m, e) is None,
    ensures
        ({
            let after = m.insert(e.id, fresh(e));
            &&& after.remove(e.id) == m
            &&& after[e.id].cfg.sensor_device_ids.to_set().difference(
                sensor_union(after.remove(e.id)),
            ) == sensor_union(after).difference(sensor_union(m))
        }),
{
    let after = m.insert(e.id, fresh(e));
    assert(after.remove(e.id) =~= m);
    let mine = e.sensor_device_ids.to_set();
    assert forall|s: Seq<char>|
        mine.difference(sensor_union(m)).contains(s) <==> sensor_union(after).difference(
            sensor_union(m),
        ).contains(s) by {
        if mine.contains(s) {
            assert(after.contains_key(e.id));
        }
        if sensor_union(after).contains(s) && !sensor_union(m).contains(s) {
            let id = choose|id: Seq<char>| #[trigger]
                after.contains_key(id) && after[id].cfg.sensor_device_ids.contains(s);
            if id != e.id {
                assert(m.contains_key(id));
            }
        }
    }
    assert(mine.difference(sensor_union(m)) =~= sensor_union(after).difference(sensor_union(m)));
}

/// A command touches no thermostat but the one that it is for, and of that one
/// only the configuration.
pub proof fn commands_touch_one_configuration(m: Thermostats, id: Seq<char>, cmd: CommandView)
    requires
        m.contains_key(id),
    ensures
        with_command(m, id, cmd).dom() == m.dom(),
        with_command(m, id, cmd)[id].with_cfg(m[id].cfg) == m[id],
        forall|other: Seq<char>|
            other != id && m.contains_key(other) ==> #[trigger] with_command(m, id, cmd)[other]
                == m[other],
{
    assert(with_command(m, id, cmd).dom() =~= m.dom());
}

// ── Loading and writing back ────────────────────────────────────────────────

/// Loading a configuration again takes no thermostat away, and leaves every
/// thermostat that is there in the state that it has.
pub proof fn reloading_keeps_state(m: Thermostats, list: Seq<EntryView>, id: Seq<char>)
    requires
        m.contains_key(id),
    ensures
        upserted(m, list).contains_key(id),
        upserted(m, list)[id].with_cfg(m[id].cfg) == m[id],
    decreases list.len(),
{
    if list.len() > 0 {
        reloading_keeps_state(m, list.drop_last(), id);
    }
}

/// Loading what was written back changes nothing, whether the bridge is running
/// or was restarted: a running bridge stays as it is, and a new one has the same
/// thermostats under the same configurations.
pub proof fn writing_back_is_idempotent(m: Thermostats, list: Seq<EntryView>)
    requires
        thermostats_wf(m),
        lists_configs(list, configs_of(m)),
    ensures
        upserted(m, list) == m,
        configs_of(upserted(Map::empty(), list)) == configs_of(m),
{
    let configs = configs_of(m);
    upserted_by_id(m, list);
    let again = upserted(m, list);
    assert forall|i: int| 0 <= i < list.len() implies m.contains_key((#[trigger] list[i]).id)
        && m[list[i].id].cfg == list[i] by {
        assert(list.contains(list[i]));
    }
    assert forall|id: Seq<char>| #[trigger] m.contains_key(id) implies exists|i: int|
        0 <= i < list.len() && (#[trigger] list[i]).id == id by {
        assert(configs.contains_key(m[id].cfg.id));
        assert(list.contains(m[id].cfg));
        let i = choose|i: int| 0 <= i < list.len() && list[i] == m[id].cfg;
        assert(list[i].id == id);
    }
    assert forall|id: Seq<char>| again.contains_key(id) == m.contains_key(id) by {
        if m.contains_key(id) {
            let i = choose|i: int| 0 <= i < list.len() && (#[trigger] list[i]).id == id;
            assert(again.contains_key(list[i].id));
        } else {
            assert forall|i: int| 0 <= i < list.len() implies (#[trigger] list[i]).id != id by {}
        }
    }
    assert forall|id: Seq<char>| #[trigger] again.contains_key(id) implies again[id] == m[id] by {
        let i = choose|i: int| 0 <= i < list.len() && (#[trigger] list[i]).id == id;
        assert(again[list[i].id] == m[id].with_cfg(list[i]));
    }
    assert(again =~= m);
    let empty: Thermostats = Map::empty();
    upserted_by_id(empty, list);
    let restarted = upserted(empty, list);
    assert forall|id: Seq<char>| restarted.contains_key(id) == m.contains_key(id) by {
        if m.contains_key(id) {
            let i = choose|i: int| 0 <= i < list.len() && (#[trigger] list[i]).id == id;
            assert(restarted.contains_key(list[i].id));
        } else {
            assert forall|i: int| 0 <= i < list.len() implies (#[trigger] list[i]).id != id by {}
            assert(!empty.contains_key(id));
        }
    }
    assert forall|id: Seq<char>| #[trigger] restarted.contains_key(id) implies restarted[id].cfg
        == m[id].cfg by {
        let i = choose|i: int| 0 <= i < list.len() && (#[trigger] list[i]).id == id;
        assert(restarted[list[i].id] == fresh(list[i]));
    }
    assert(configs_of(restarted) =~= configs);
}

/// Every thermostat has an entry that a configuration may hold.
pub open spec fn all_sound(m: Thermostats) -> bool {
    forall|id: Seq<char>| #[trigger] m.contains_key(id) ==> entry_fault(m[id].cfg) is None
}

/// What is written back is accepted when it is loaded again, where every
/// thermostat's entry may be held and the hub's section names a plugin.
pub proof fn what_is_written_back_is_accepted(
    m: Thermostats,
    section: SectionView,
    list: Seq<EntryView>,
)
    requires
        all_sound(m),
        lists_configs(list, configs_of(m)),
        section.plugin_id.len() > 0,
    ensures
        config_fault(section, list) is None,
{
    assert forall|i: int| 0 <= i < list.len() implies entry_fault(#[trigger] list[i]) is None by {
        assert(list.contains(list[i]));
        assert(m.contains_key(list[i].id));
    }
    no_fault_means_every_entry_is_sound(list);
}

/// No command makes an entry that may be held one that may not.
pub proof fn commands_keep_all_sound(m: Thermostats, id: Seq<char>, cmd: CommandView)
    requires
        all_sound(m),
        m.contains_key(id),
    ensures
        all_sound(with_command(m, id, cmd)),
{
    commands_keep_entries_sound(m[id].cfg, cmd);
    let after = with_command(m, id, cmd);
    assert forall|k: Seq<char>| #[trigger] after.contains_key(k) implies entry_fault(
        after[k].cfg,
    ) is None by {
        assert(m.contains_key(k));
    }
}

/// A thermostat that is added has an entry that may be held.
pub proof fn adding_keeps_all_sound(m: Thermostats, e: EntryView)
    requires
        all_sound(m),
        add_fault(m, e) is None,
    ensures
        all_sound(m.insert(e.id, fresh(e))),
{
    let more = m.insert(e.id, fresh(e));
    assert forall|k: Seq<char>| #[trigger] more.contains_key(k) implies entry_fault(
        more[k].cfg,
    ) is None by {
        if k != e.id {
            assert(m.contains_key(k));
        }
    }
}

/// A thermostat that is removed takes nothing from the others.
pub proof fn removing_keeps_all_sound(m: Thermostats, gone: Seq<char>)
    requires
        all_sound(m),
    ensures
        all_sound(m.remove(gone)),
{
    let fewer = m.remove(gone);
    assert forall|k: Seq<char>| #[trigger] fewer.contains_key(k) implies entry_fault(
        fewer[k].cfg,
    ) is None by {
        assert(m.contains_key(k));
    }
}

/// Recalculating a thermostat, restoring it or noting an outcome leaves its entry
/// as it is.
pub proof fn other_events_keep_all_sound(
    m: Thermostats,
    id: Seq<char>,
    read: bool,
    ev: EvaluationView,
    told: RetainedView,
    error: Option<Seq<char>>,
    at: Timestamp,
)
    requires
        all_sound(m),
        m.contains_key(id),
    ensures
        all_sound(m.insert(id, recalculated(m[id], read, ev))),
        all_sound(m.insert(id, restored(m[id], told))),
        all_sound(m.insert(id, with_outcome(m[id], error, at))),
{
    same_entries_stay_sound(m, id, recalculated(m[id], read, ev));
    same_entries_stay_sound(m, id, restored(m[id], told));
    same_entries_stay_sound(m, id, with_outcome(m[id], error, at));
}

proof fn same_entries_stay_sound(m: Thermostats, id: Seq<char>, rt: RuntimeView)
    requires
        all_sound(m),
        m.contains_key(id),
        rt.cfg == m[id].cfg,
    ensures
        all_sound(m.insert(id, rt)),
{
    let after = m.insert(id, rt);
    assert forall|k: Seq<char>| #[trigger] after.contains_key(k) implies entry_fault(
        after[k].cfg,
    ) is None by {
        assert(m.contains_key(k));
    }
}

/// Taking an accepted configuration over leaves every entry one that may be
/// held.
pub proof fn accepted_configurations_keep_all_sound(m: Thermostats, list: Seq<EntryView>)
    requires
        all_sound(m),
        first_fault(list) is None,
    ensures
        all_sound(upserted(m, list)),
    decreases list.len(),
{
    if list.len() > 0 {
        let rest = list.drop_last();
        accepted_configurations_keep_all_sound(m, rest);
        let before = upserted(m, rest);
        let after = upserted(m, list);
        assert forall|k: Seq<char>| #[trigger] after.contains_key(k) implies entry_fault(
            after[k].cfg,
        ) is None by {
            if k != list.last().id {
                assert(before.contains_key(k));
            }
        }
    }
}

/// A bridge that was started from an accepted configuration has a plugin id and
/// thermostats whose entries may be held.
pub proof fn a_new_bridge_is_sound(section: SectionView, list: Seq<EntryView>)
    requires
        config_fault(section, list) is None,
    ensures
        section.plugin_id.len() > 0,
        all_sound(upserted(Map::empty(), list)),
{
    let empty: Thermostats = Map::empty();
    assert(all_sound(empty));
    accepted_configurations_keep_all_sound(empty, list);
}

/// A restart is idempotent: what a bridge writes back is accepted when it is
/// loaded, lists exactly the thermostats' configurations, as the snapshot does,
/// and keeps the other sections of the file; a bridge that is started from it has
/// the same thermostats under the same configurations, and a running one that
/// loads it stays as it is.
pub proof fn a_restart_is_idempotent<L>(
    h: HandleView,
    loaded: Result<Config<L>, ConfigError>,
    default_logging: L,
    written: Config<L>,
)
    requires
        h.wf(),
        all_sound(h.inner.thermostats),
        match loaded {
            Ok(c) => config_fault(c.homecore@, entries(c.thermostats@)) is None,
            Err(_) => h.plugin_id.len() > 0,
        },
        assembled(h, loaded, default_logging, written),
    ensures
        config_fault(written.homecore@, entries(written.thermostats@)) is None,
        entries(written.thermostats@) == h.snapshot,
        loaded matches Ok(c) ==> written.homecore == c.homecore && written.logging == c.logging,
        configs_of(upserted(Map::empty(), entries(written.thermostats@))) == configs_of(
            h.inner.thermostats,
        ),
        upserted(h.inner.thermostats, entries(written.thermostats@)) == h.inner.thermostats,
{
    let m = h.inner.thermostats;
    let list = entries(written.thermostats@);
    what_is_written_back_is_accepted(m, written.homecore@, list);
    writing_back_is_idempotent(m, list);
    snapshot_is_the_list(h, list);
}

/// A bridge's snapshot is the list that `get_thermostats` gives and that is
/// written back.
pub proof fn snapshot_is_the_list(h: HandleView, list: Seq<EntryView>)
    requires
        h.wf(),
        lists_configs(list, configs_of(h.inner.thermostats)),
    ensures
        h.snapshot == list,
{
    config_list_is_unique(h.snapshot, list, configs_of(h.inner.thermostats));
}

// ── Readings and lockouts ───────────────────────────────────────────────────

/// A thermostat one of whose sensors was read is not stale.
pub proof fn a_reading_ends_staleness(
    rt: RuntimeView,
    cache: Map<Seq<char>, Quantity>,
    sensor: Seq<char>,
    q: Quantity,
)
    requires
        rt.cfg.sensor_device_ids.contains(sensor),
    ensures
        has_readings(rt, cache.insert(sensor, q)),
        !goes_stale(rt.cfg.mode, has_readings(rt, cache.insert(sensor, q))),
{
    some_reading(rt.cfg.sensor_device_ids, cache.insert(sensor, q), sensor);
}

proof fn some_reading(
    sensors: Seq<Seq<char>>,
    cache: Map<Seq<char>, Quantity>,
    sensor: Seq<char>,
)
    requires
        sensors.contains(sensor),
        cache.contains_key(sensor),
    ensures
        readings_of(sensors, cache).len() > 0,
    decreases sensors.len(),
{
    let i = choose|i: int| 0 <= i < sensors.len() && sensors[i] == sensor;
    if i < sensors.len() - 1 {
        assert(sensors.drop_last()[i] == sensor);
        some_reading(sensors.drop_last(), cache, sensor);
    }
}

/// A call that a lockout holds back is among those that are tried again every
/// now and then, until a recalculation is not held back.
pub proof fn deferred_calls_are_tried_again(
    m: Thermostats,
    id: Seq<char>,
    read: bool,
    ev: EvaluationView,
)
    requires
        m.contains_key(id),
        !goes_stale(m[id].cfg.mode, read),
    ensures
        waiting(m.insert(id, recalculated(m[id], read, ev))).contains(id) <==> locked_out(
            m[id],
            ev,
        ),
{
}

} // verus!
