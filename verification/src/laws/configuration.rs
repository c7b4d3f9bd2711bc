//! Which configurations and which additions are accepted, what a refusal says,
//! and what taking a configuration over comes to.

use super::commands::used;
use crate::bridge::{
    add_fault, addition_outcome, reload_outcome, started, written_back, Added, BridgeError,
    BridgeFault, HandleView, PersistPlan, SensorDiff,
};
use crate::config::{
    config_fault, entries, entry_fault, first_fault, load_outcome,
    no_fault_means_every_entry_is_sound, sorted_by_id, Config, ConfigError, ConfigFault,
    ConfigSource, EntryView, SectionView, ThermostatEntry,
};
use crate::quantity::Quantity;
use crate::runtime::RuntimeView;
use crate::table::{
    configs_of, listed_sensors, lists_configs, sensor_union, thermostats_wf, upserted, Thermostats,
};
use crate::text::{lex_le, names, texts};
use vstd::prelude::*;

verus! {

// ── What is accepted ────────────────────────────────────────────────────────

/// Whether an entry has an id, one of the three modes, one of the three
/// aggregations, and a hysteresis that is not less than zero.
pub open spec fn acceptable(e: EntryView) -> bool {
    &&& e.id != ""@
    &&& e.mode == "heat"@ || e.mode == "cool"@ || e.mode == "off"@
    &&& e.aggregation == "average"@ || e.aggregation == "min"@ || e.aggregation == "max"@
    &&& !(0x8000_0000_0000_0000 < e.hysteresis.bits <= 0xFFF0_0000_0000_0000)
}

proof fn only_the_empty_text_has_no_length(s: Seq<char>)
    ensures
        s.len() == 0 <==> s == ""@,
{
    reveal_strlit("");
    if s.len() == 0 {
        assert(s =~= ""@);
    }
}

/// An entry may be held exactly where it has an id, a mode, an aggregation and a
/// hysteresis that are accepted. Otherwise the first of these that is not is
/// what is wrong with it.
pub proof fn entries_are_accepted_by_their_fields(e: EntryView)
    ensures
        entry_fault(e) is None <==> acceptable(e),
        e.id == ""@ ==> entry_fault(e) == Some(ConfigFault::ThermostatIdRequired),
        e.id != ""@ && !(e.mode == "heat"@ || e.mode == "cool"@ || e.mode == "off"@)
            ==> entry_fault(e) == Some(ConfigFault::UnknownMode { id: e.id, mode: e.mode }),
        e.id != ""@ && (e.mode == "heat"@ || e.mode == "cool"@ || e.mode == "off"@) && !(
        e.aggregation == "average"@ || e.aggregation == "min"@ || e.aggregation == "max"@)
            ==> entry_fault(e) == Some(
            ConfigFault::UnknownAggregation { id: e.id, aggregation: e.aggregation },
        ),
        !acceptable(e) && acceptable(EntryView { hysteresis: Quantity { bits: 0 }, ..e })
            ==> entry_fault(e) == Some(ConfigFault::NegativeHysteresis { id: e.id }),
{
    only_the_empty_text_has_no_length(e.id);
}

/// A configuration is accepted exactly where it names a plugin and every entry
/// may be held.
pub proof fn configurations_are_accepted_by_their_parts(
    section: SectionView,
    list: Seq<EntryView>,
)
    ensures
        config_fault(section, list) is None <==> section.plugin_id != ""@ && forall|i: int|
            0 <= i < list.len() ==> acceptable(#[trigger] list[i]),
        section.plugin_id == ""@ ==> config_fault(section, list) == Some(
            ConfigFault::PluginIdRequired,
        ),
{
    only_the_empty_text_has_no_length(section.plugin_id);
    no_fault_means_every_entry_is_sound(list);
    assert forall|i: int| 0 <= i < list.len() implies (entry_fault(#[trigger] list[i]) is None
        <==> acceptable(list[i])) by {
        entries_are_accepted_by_their_fields(list[i]);
    }
}

/// What is wrong with a configuration that names a plugin is what is wrong with
/// the first entry that may not be held.
pub proof fn the_first_entry_at_fault_is_told(section: SectionView, list: Seq<EntryView>, i: int)
    requires
        section.plugin_id != ""@,
        0 <= i < list.len(),
        !acceptable(list[i]),
        forall|k: int| 0 <= k < i ==> acceptable(#[trigger] list[k]),
    ensures
        config_fault(section, list) == entry_fault(list[i]),
        config_fault(section, list) is Some,
{
    only_the_empty_text_has_no_length(section.plugin_id);
    entries_are_accepted_by_their_fields(list[i]);
    first_fault_at(list, i);
}

proof fn first_fault_at(list: Seq<EntryView>, i: int)
    requires
        0 <= i < list.len(),
        !acceptable(list[i]),
        forall|k: int| 0 <= k < i ==> acceptable(#[trigger] list[k]),
    ensures
        first_fault(list) == entry_fault(list[i]),
    decreases list.len(),
{
    let rest = list.drop_last();
    entries_are_accepted_by_their_fields(list[i]);
    if i < rest.len() {
        assert(rest[i] == list[i]);
        assert forall|k: int| 0 <= k < i implies acceptable(#[trigger] rest[k]) by {
            assert(rest[k] == list[k]);
        }
        first_fault_at(rest, i);
    } else {
        no_fault_means_every_entry_is_sound(rest);
        assert forall|k: int| 0 <= k < rest.len() implies entry_fault(
            #[trigger] rest[k],
        ) is None by {
            assert(rest[k] == list[k]);
            entries_are_accepted_by_their_fields(rest[k]);
        }
    }
}

/// A configuration is loaded exactly where its file could be read and parsed, it
/// names a plugin and every entry may be held; what is loaded is what the file
/// holds. A file that could not be read or parsed is named, with the cause.
pub proof fn what_is_accepted_is_loaded_as_it_is<L>(
    path: Seq<char>,
    source: ConfigSource<L>,
    r: Result<Config<L>, ConfigError>,
)
    requires
        load_outcome(path, source, r),
    ensures
        match source {
            ConfigSource::Unreadable(cause) => r matches Err(e) && (e matches ConfigError::Unreadable {
                path: p,
                cause: c,
            } && p@ == path && c@ == cause@),
            ConfigSource::Unparsable(cause) => r matches Err(e) && (e matches ConfigError::Unparsable {
                path: p,
                cause: c,
            } && p@ == path && c@ == cause@),
            ConfigSource::Parsed(cfg) => {
                let good = cfg.homecore.plugin_id@ != ""@ && forall|i: int|
                    0 <= i < cfg.thermostats@.len() ==> acceptable((#[trigger] cfg.thermostats@[i])@);
                if good {
                    r == Ok::<Config<L>, ConfigError>(cfg)
                } else {
                    r matches Err(e) && config_fault(cfg.homecore@, entries(cfg.thermostats@))
                        == Some(e@)
                }
            },
        },
{
    if let ConfigSource::Parsed(cfg) = source {
        let list = entries(cfg.thermostats@);
        configurations_are_accepted_by_their_parts(cfg.homecore@, list);
        assert forall|i: int| 0 <= i < list.len() implies #[trigger] list[i]
            == cfg.thermostats@[i]@ by {}
        if forall|i: int|
            0 <= i < cfg.thermostats@.len() ==> acceptable((#[trigger] cfg.thermostats@[i])@) {
            assert forall|i: int| 0 <= i < list.len() implies acceptable(#[trigger] list[i]) by {
                assert(acceptable(cfg.thermostats@[i]@));
            }
        }
        if forall|i: int| 0 <= i < list.len() ==> acceptable(#[trigger] list[i]) {
            assert forall|i: int| 0 <= i < cfg.thermostats@.len() implies acceptable(
                (#[trigger] cfg.thermostats@[i])@,
            ) by {
                assert(acceptable(list[i]));
            }
        }
    }
}

/// A list of entries is seen entry by entry, in their order.
pub proof fn entries_are_seen_in_order(list: Seq<ThermostatEntry>)
    ensures
        entries(list).len() == list.len(),
        forall|i: int| 0 <= i < list.len() ==> #[trigger] entries(list)[i] == list[i]@,
{
}

// ── Adding ──────────────────────────────────────────────────────────────────

/// A thermostat is added exactly where its entry may be held and its id is not
/// there yet, and otherwise nothing changes. The entry that is refused is told
/// by the first thing that is wrong with it: its id, its mode, its aggregation,
/// its hysteresis, and then that it is there already.
pub proof fn what_may_be_held_may_be_added(
    old: HandleView,
    new: HandleView,
    e: EntryView,
    r: Result<Added, BridgeError>,
)
    requires
        addition_outcome(old, new, e, r),
    ensures
        r is Ok <==> acceptable(e) && !old.inner.thermostats.contains_key(e.id),
        r is Ok <==> entry_fault(e) is None && !old.inner.thermostats.contains_key(e.id),
        r is Err ==> new == old,
        e.id == ""@ ==> (r matches Err(x) && x is IdRequired),
        e.id != ""@ && !(e.mode == "heat"@ || e.mode == "cool"@ || e.mode == "off"@) ==> (
        r matches Err(BridgeError::InvalidMode(m)) && m@ == e.mode),
        e.id != ""@ && (e.mode == "heat"@ || e.mode == "cool"@ || e.mode == "off"@) && !(
        e.aggregation == "average"@ || e.aggregation == "min"@ || e.aggregation == "max"@) ==> (
        r matches Err(BridgeError::InvalidAggregation(a)) && a@ == e.aggregation),
        !acceptable(e) && acceptable(EntryView { hysteresis: Quantity { bits: 0 }, ..e }) ==> (
        r matches Err(x) && x is NegativeHysteresis),
        acceptable(e) && old.inner.thermostats.contains_key(e.id) ==> (
        r matches Err(BridgeError::AlreadyExists(id)) && id@ == e.id),
{
    only_the_empty_text_has_no_length(e.id);
    entries_are_accepted_by_their_fields(e);
}

/// A thermostat that is added starts idle and off under its entry. Every other
/// thermostat, the readings, the path and the plugin's id stay. What is to be
/// registered is its device, under its name, and what is to be subscribed are,
/// each once, those of its sensors that no thermostat used before.
pub proof fn an_added_thermostat_starts_idle(
    old: HandleView,
    new: HandleView,
    e: EntryView,
    r: Result<Added, BridgeError>,
    k: Seq<char>,
    s: Seq<char>,
)
    requires
        addition_outcome(old, new, e, r),
        r is Ok,
    ensures
        new.inner.thermostats.contains_key(k) <==> old.inner.thermostats.contains_key(k) || k
            == e.id,
        k != e.id && old.inner.thermostats.contains_key(k) ==> new.inner.thermostats[k]
            == old.inner.thermostats[k],
        starts_under(new.inner.thermostats[e.id], e),
        new.inner.sensor_cache == old.inner.sensor_cache,
        new.inner.config_path == old.inner.config_path,
        new.plugin_id == old.plugin_id,
        r matches Ok(added) && added.therm_id@ == e.id && added.device_id@ == "thermostat_"@ + e.id
            && added.display_name@ == e.name && texts(added.sensors_added@).no_duplicates() && (
        texts(added.sensors_added@).contains(s) <==> e.sensor_device_ids.contains(s) && !used(
            old,
            s,
        )),
{
    let m = old.inner.thermostats;
    let after = new.inner.thermostats;
    assert(used(old, s) == sensor_union(m).contains(s));
    assert(used(new, s) == sensor_union(after).contains(s));
    if let Ok(added) = r {
        assert(names(added.sensors_added@).contains(s) <==> texts(added.sensors_added@).contains(s));
    }
    if e.sensor_device_ids.contains(s) {
        assert(after.contains_key(e.id));
    }
    if used(new, s) && !e.sensor_device_ids.contains(s) {
        let id = choose|id: Seq<char>| #[trigger]
            after.contains_key(id) && after[id].cfg.sensor_device_ids.contains(s);
        assert(m.contains_key(id));
    }
}

/// Whether a thermostat is idle and off under a configuration, knowing nothing
/// and having done nothing.
pub open spec fn starts_under(rt: RuntimeView, cfg: EntryView) -> bool {
    &&& rt.cfg == cfg
    &&& rt.call_for == "idle"@
    &&& !rt.call_is_live
    &&& !rt.actuator_state
    &&& rt.current_temperature is None
    &&& rt.actuator_last_change is None
    &&& rt.pending_call is None
    &&& rt.lockout_until is None
    &&& rt.actuator_last_error is None
}

/// What is wrong with an entry that is to be added is what is wrong with it in a
/// configuration, and otherwise only that its id is there already.
pub proof fn adding_asks_what_loading_asks(m: Thermostats, e: EntryView)
    ensures
        entry_fault(e) is Some ==> add_fault(m, e) is Some,
        entry_fault(e) is None && !m.contains_key(e.id) ==> add_fault(m, e) is None,
        entry_fault(e) is None && m.contains_key(e.id) ==> add_fault(m, e) == Some(
            BridgeFault::AlreadyExists(e.id),
        ),
{
}

// ── What a refusal says ─────────────────────────────────────────────────────

/// A refusal to add or remove says what is wrong, and with what.
pub proof fn refusals_name_what_is_wrong(s: Seq<char>, e: BridgeError)
    ensures
        BridgeFault::IdRequired.told() == "thermostat id is required"@,
        BridgeFault::InvalidMode(s).told() == "invalid mode: "@ + s,
        BridgeFault::InvalidAggregation(s).told() == "invalid aggregation: "@ + s,
        BridgeFault::NegativeHysteresis.told() == "hysteresis must be non-negative"@,
        BridgeFault::AlreadyExists(s).told() == "thermostat already exists: "@ + s,
        BridgeFault::NotFound(s).told() == "thermostat not found: "@ + s,
        match e {
            BridgeError::IdRequired => e@ is IdRequired,
            BridgeError::InvalidMode(m) => e@ == BridgeFault::InvalidMode(m@),
            BridgeError::InvalidAggregation(a) => e@ == BridgeFault::InvalidAggregation(a@),
            BridgeError::NegativeHysteresis => e@ is NegativeHysteresis,
            BridgeError::AlreadyExists(id) => e@ == BridgeFault::AlreadyExists(id@),
            BridgeError::NotFound(id) => e@ == BridgeFault::NotFound(id@),
        },
{
}

/// A refusal of a configuration says which file or which thermostat it is about,
/// and what is wrong.
pub proof fn refused_configurations_are_explained(
    path: Seq<char>,
    cause: Seq<char>,
    id: Seq<char>,
    s: Seq<char>,
)
    ensures
        (ConfigFault::Unreadable { path, cause }).told() == "Cannot read config file "@ + path
            + ": "@ + cause,
        (ConfigFault::Unparsable { path, cause }).told() == "Config parse error in "@ + path + ": "@
            + cause,
        ConfigFault::PluginIdRequired.told() == "homecore.plugin_id is required"@,
        ConfigFault::ThermostatIdRequired.told() == "thermostat id is required"@,
        (ConfigFault::UnknownMode { id, mode: s }).told() == "thermostat "@ + id
            + ": mode must be heat|cool|off (got "@ + s + ")"@,
        (ConfigFault::UnknownAggregation { id, aggregation: s }).told() == "thermostat "@ + id
            + ": aggregation must be average|min|max (got "@ + s + ")"@,
        (ConfigFault::NegativeHysteresis { id }).told() == "thermostat "@ + id
            + ": hysteresis must be non-negative"@,
{
}

// ── Taking a configuration over ─────────────────────────────────────────────

/// The last entry of a list with an id is the configuration of the thermostat
/// with that id afterwards. A thermostat that was there keeps everything but its
/// configuration; one that was not starts idle and off.
pub proof fn the_last_entry_with_an_id_counts(m: Thermostats, list: Seq<EntryView>, i: int)
    requires
        0 <= i < list.len(),
        forall|k: int| i < k < list.len() ==> (#[trigger] list[k]).id != list[i].id,
    ensures
        ({
            let id = list[i].id;
            let after = upserted(m, list);
            &&& after.contains_key(id)
            &&& after[id].cfg == list[i]
            &&& m.contains_key(id) ==> RuntimeView { cfg: m[id].cfg, ..after[id] } == m[id]
            &&& !m.contains_key(id) ==> starts_under(after[id], list[i])
        }),
    decreases list.len(),
{
    let rest = list.drop_last();
    let id = list[i].id;
    if i < rest.len() {
        assert(rest[i] == list[i]);
        assert(list[list.len() - 1].id != id);
        assert forall|k: int| i < k < rest.len() implies (#[trigger] rest[k]).id != rest[i].id by {
            assert(rest[k] == list[k]);
        }
        the_last_entry_with_an_id_counts(m, rest, i);
    } else {
        taken_over_or_as_it_was(m, rest, id);
    }
}

/// Whatever entries are taken over, a thermostat has the state that it had, and
/// one that was not there is idle and off.
proof fn taken_over_or_as_it_was(m: Thermostats, list: Seq<EntryView>, id: Seq<char>)
    ensures
        ({
            let after = upserted(m, list);
            &&& m.contains_key(id) ==> after.contains_key(id) && RuntimeView {
                cfg: m[id].cfg,
                ..after[id]
            } == m[id]
            &&& !m.contains_key(id) && after.contains_key(id) ==> starts_under(
                after[id],
                after[id].cfg,
            )
        }),
    decreases list.len(),
{
    if list.len() > 0 {
        taken_over_or_as_it_was(m, list.drop_last(), id);
    }
}

/// A thermostat that no entry of a list names is as it was, or not there still.
pub proof fn what_is_not_named_stays(m: Thermostats, list: Seq<EntryView>, id: Seq<char>)
    requires
        forall|k: int| 0 <= k < list.len() ==> (#[trigger] list[k]).id != id,
    ensures
        upserted(m, list).contains_key(id) <==> m.contains_key(id),
        m.contains_key(id) ==> upserted(m, list)[id] == m[id],
    decreases list.len(),
{
    if list.len() > 0 {
        let rest = list.drop_last();
        assert(list[list.len() - 1].id != id);
        assert forall|k: int| 0 <= k < rest.len() implies (#[trigger] rest[k]).id != id by {
            assert(rest[k] == list[k]);
        }
        what_is_not_named_stays(m, rest, id);
    }
}

/// A bridge starts with one thermostat for each id in its configuration, idle and
/// off under the last entry with that id, with no others, with no reading, under
/// the plugin's id, and with the path of the configuration.
pub proof fn a_bridge_starts_from_its_configuration(
    new: HandleView,
    section: SectionView,
    list: Seq<EntryView>,
    path: Seq<char>,
    id: Seq<char>,
)
    requires
        started(new, section, list, path),
    ensures
        new.inner.thermostats.contains_key(id) <==> exists|i: int|
            0 <= i < list.len() && (#[trigger] list[i]).id == id,
        forall|i: int|
            0 <= i < list.len() && (#[trigger] list[i]).id == id && (forall|k: int|
                i < k < list.len() ==> (#[trigger] list[k]).id != id) ==> starts_under(
                new.inner.thermostats[id],
                list[i],
            ),
        forall|s: Seq<char>| !new.inner.sensor_cache.contains_key(s),
        new.inner.config_path == path,
        new.plugin_id == section.plugin_id,
{
    let empty: Thermostats = Map::empty();
    if exists|i: int| 0 <= i < list.len() && (#[trigger] list[i]).id == id {
        let i = last_with(list, id);
        the_last_entry_with_an_id_counts(empty, list, i);
    } else {
        what_is_not_named_stays(empty, list, id);
    }
    assert forall|i: int|
        0 <= i < list.len() && (#[trigger] list[i]).id == id && (forall|k: int|
            i < k < list.len() ==> (#[trigger] list[k]).id != id) implies starts_under(
        new.inner.thermostats[id],
        list[i],
    ) by {
        the_last_entry_with_an_id_counts(empty, list, i);
    }
}

proof fn last_with(list: Seq<EntryView>, id: Seq<char>) -> (i: int)
    requires
        exists|i: int| 0 <= i < list.len() && (#[trigger] list[i]).id == id,
    ensures
        0 <= i < list.len(),
        list[i].id == id,
        forall|k: int| i < k < list.len() ==> (#[trigger] list[k]).id != id,
    decreases list.len(),
{
    if list.last().id == id {
        list.len() - 1
    } else {
        let rest = list.drop_last();
        let j = choose|j: int| 0 <= j < list.len() && (#[trigger] list[j]).id == id;
        assert(rest[j].id == id);
        let i = last_with(rest, id);
        assert forall|k: int| i < k < list.len() implies (#[trigger] list[k]).id != id by {
            if k < rest.len() {
                assert(rest[k] == list[k]);
            }
        }
        i
    }
}

/// Loading a configuration again gives every thermostat that it names the last
/// entry with its id, in the state that it was in, or idle and off where it is
/// new. It leaves every other thermostat, the readings, the path and the
/// plugin's id. The subscriptions to change lead, each once, from the sensors in
/// use to those that the configuration lists.
pub proof fn loading_again_takes_the_configuration_over(
    old: HandleView,
    new: HandleView,
    list: Seq<EntryView>,
    diff: SensorDiff,
    id: Seq<char>,
    s: Seq<char>,
)
    requires
        reload_outcome(old, new, list, diff),
    ensures
        forall|i: int|
            0 <= i < list.len() && (#[trigger] list[i]).id == id && (forall|k: int|
                i < k < list.len() ==> (#[trigger] list[k]).id != id) ==> {
                let was = old.inner.thermostats;
                let now = new.inner.thermostats;
                &&& now.contains_key(id)
                &&& was.contains_key(id) ==> now[id] == RuntimeView { cfg: list[i], ..was[id] }
                &&& !was.contains_key(id) ==> starts_under(now[id], list[i])
            },
        (forall|i: int| 0 <= i < list.len() ==> (#[trigger] list[i]).id != id) ==> (
        new.inner.thermostats.contains_key(id) <==> old.inner.thermostats.contains_key(id)) && (
        old.inner.thermostats.contains_key(id) ==> new.inner.thermostats[id]
            == old.inner.thermostats[id]),
        new.inner.sensor_cache == old.inner.sensor_cache,
        new.inner.config_path == old.inner.config_path,
        new.plugin_id == old.plugin_id,
        texts(diff.added@).no_duplicates(),
        texts(diff.removed@).no_duplicates(),
        texts(diff.added@).contains(s) <==> listed(list, s) && !used(old, s),
        texts(diff.removed@).contains(s) <==> used(old, s) && !listed(list, s),
{
    let m = old.inner.thermostats;
    assert forall|i: int|
        0 <= i < list.len() && (#[trigger] list[i]).id == id && (forall|k: int|
            i < k < list.len() ==> (#[trigger] list[k]).id != id) implies ({
        let was = old.inner.thermostats;
        let now = new.inner.thermostats;
        &&& now.contains_key(id)
        &&& was.contains_key(id) ==> now[id] == RuntimeView { cfg: list[i], ..was[id] }
        &&& !was.contains_key(id) ==> starts_under(now[id], list[i])
    }) by {
        the_last_entry_with_an_id_counts(m, list, i);
    }
    if forall|i: int| 0 <= i < list.len() ==> (#[trigger] list[i]).id != id {
        what_is_not_named_stays(m, list, id);
    }
    assert(names(diff.added@).contains(s) <==> texts(diff.added@).contains(s));
    assert(names(diff.removed@).contains(s) <==> texts(diff.removed@).contains(s));
    assert(used(old, s) == sensor_union(m).contains(s));
    assert(listed(list, s) == listed_sensors(list).contains(s));
}

/// Whether some entry of a list has a sensor among those that it lists.
pub open spec fn listed(list: Seq<EntryView>, s: Seq<char>) -> bool {
    exists|i: int| 0 <= i < list.len() && (#[trigger] list[i]).sensor_device_ids.contains(s)
}

// ── Listing and writing back ────────────────────────────────────────────────

/// A list of the thermostats' configurations holds each of them once, and
/// nothing else, in the order of their ids.
pub proof fn every_configuration_is_listed_once(
    m: Thermostats,
    list: Seq<EntryView>,
    id: Seq<char>,
    i: int,
    j: int,
)
    requires
        thermostats_wf(m),
        lists_configs(list, configs_of(m)),
    ensures
        m.contains_key(id) <==> exists|k: int| 0 <= k < list.len() && (#[trigger] list[k]).id == id,
        0 <= i < list.len() ==> m.contains_key(list[i].id) && list[i] == m[list[i].id].cfg,
        0 <= i < j < list.len() ==> list[i].id != list[j].id && lex_le(list[i].id, list[j].id),
{
    assert(sorted_by_id(list));
    if 0 <= i < list.len() {
        assert(list.contains(list[i]));
    }
    if m.contains_key(id) {
        assert(configs_of(m).contains_key(m[id].cfg.id));
        assert(list.contains(m[id].cfg));
        let k = choose|k: int| 0 <= k < list.len() && list[k] == m[id].cfg;
        assert(list[k].id == id);
    }
    if exists|k: int| 0 <= k < list.len() && (#[trigger] list[k]).id == id {
        let k = choose|k: int| 0 <= k < list.len() && (#[trigger] list[k]).id == id;
        assert(list.contains(list[k]));
    }
}

/// What is written back goes to the file that the configuration was loaded from,
/// by way of another one, and holds the configuration of every thermostat as it
/// is. The other sections are those of the file; where it could not be loaded,
/// they are the plugin's id at the local broker, anonymously, with a heartbeat a
/// minute, and the default for the rest.
pub proof fn what_is_written_back<L>(
    h: HandleView,
    loaded: Result<Config<L>, ConfigError>,
    default_logging: L,
    plan: PersistPlan<L>,
    id: Seq<char>,
)
    requires
        h.wf(),
        written_back(h, loaded, default_logging, plan),
    ensures
        plan.path@ == h.inner.config_path,
        plan.partial_path@ == h.inner.config_path + ".partial"@,
        plan.partial_path@ != plan.path@,
        h.inner.thermostats.contains_key(id) <==> exists|k: int|
            0 <= k < plan.config.thermostats@.len() && (
            #[trigger] plan.config.thermostats@[k])@.id == id,
        forall|k: int|
            0 <= k < plan.config.thermostats@.len() ==> (#[trigger] plan.config.thermostats@[k])@
                == h.inner.thermostats[plan.config.thermostats@[k]@.id].cfg,
        loaded matches Ok(c) ==> plan.config.homecore == c.homecore && plan.config.logging
            == c.logging,
        loaded is Err ==> {
            &&& plan.config.homecore.plugin_id@ == h.plugin_id
            &&& plan.config.homecore.broker_host@ == "127.0.0.1"@
            &&& plan.config.homecore.broker_port == 1883
            &&& plan.config.homecore.password@ == ""@
            &&& plan.config.homecore.heartbeat_secs == 60
            &&& plan.config.logging == default_logging
        },
{
    reveal_strlit(".partial");
    assert(plan.partial_path@.len() == plan.path@.len() + 8);
    let list = entries(plan.config.thermostats@);
    assert forall|k: int| 0 <= k < list.len() implies #[trigger] list[k]
        == plan.config.thermostats@[k]@ by {}
    every_configuration_is_listed_once(h.inner.thermostats, list, id, 0, 0);
    if h.inner.thermostats.contains_key(id) {
        let k = choose|k: int| 0 <= k < list.len() && (#[trigger] list[k]).id == id;
        assert(plan.config.thermostats@[k]@.id == id);
    }
    if exists|k: int|
        0 <= k < plan.config.thermostats@.len() && (#[trigger] plan.config.thermostats@[k])@.id
            == id {
        let k = choose|k: int|
            0 <= k < plan.config.thermostats@.len() && (
            #[trigger] plan.config.thermostats@[k])@.id == id;
        assert(list[k].id == id);
    }
    assert forall|k: int| 0 <= k < plan.config.thermostats@.len() implies (
    #[trigger] plan.config.thermostats@[k])@
        == h.inner.thermostats[plan.config.thermostats@[k]@.id].cfg by {
        every_configuration_is_listed_once(h.inner.thermostats, list, id, k, k);
        assert(list[k] == plan.config.thermostats@[k]@);
    }
}

} // verus!
