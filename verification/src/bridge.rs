//! The bridge: every thermostat, the last reading of every sensor, and what is
//! to be published, subscribed and written back after each event.

use crate::config::{
    entries, is_known_aggregation, is_known_mode, known_aggregation, known_mode, Config,
    ConfigError, EntryView, HomecoreSection, SectionView, ThermostatEntry,
};
use crate::instant::{utc_now, Timestamp};
use crate::json::{json_content, member_float, JsonNode, Payload};
use crate::quantity::Quantity;
use crate::runtime::{
    command_in, commands_keep_entries_sound, configured, device_id_of, device_of,
    device_stands_for_its_thermostat, fresh, issued, lockout_fits,
    nothing_set_means_nothing_changed, opt_command, opt_valid, published_now, read_command,
    read_retained, recalculated, restored, retained_in, sets_something, state_of, state_topic,
    thermostat_id_of, thermostat_of, with_outcome, ActuatorCommand, Command, CommandView,
    Evaluation, EvaluationView, Retained, RetainedView, Runtime, RuntimeView,
};
use crate::table::{
    configs_of, listed_sensors, lists_configs, own_devices, sensor_union, thermostats_wf,
    upserted, waiting, watchers, ThermostatTable, Thermostats,
};
use crate::text::{
    add_text, each_once, joined, missing_from, names, opt_text, prefix_goes_back, texts,
};
use serde_json::Value;
use vstd::hash_map::StringHashMap;
use vstd::prelude::*;

verus! {

/// The thermostats, the last reading of each sensor, and where the
/// configuration is kept.
pub struct Bridge {
    thermostats: ThermostatTable,
    sensor_cache: StringHashMap<Quantity>,
    config_path: String,
}

/// The bridge, with the id under which it is known to the hub and a list of
/// the thermostats' configurations that can be handed out without waiting.
pub struct BridgeHandle {
    inner: Bridge,
    plugin_id: String,
    snapshot: Vec<ThermostatEntry>,
}

/// What a management handler asks of the bridge.
pub enum BridgeTask {
    RecalculateAll,
    ReloadConfig,
    AddThermostat { entry: Box<ThermostatEntry> },
    RemoveThermostat { id: String },
}

pub struct BridgeView {
    pub thermostats: Thermostats,
    pub sensor_cache: Map<Seq<char>, Quantity>,
    pub config_path: Seq<char>,
}

pub struct HandleView {
    pub inner: BridgeView,
    pub plugin_id: Seq<char>,
    pub snapshot: Seq<EntryView>,
}

impl View for Bridge {
    type V = BridgeView;

    closed spec fn view(&self) -> BridgeView {
        BridgeView {
            thermostats: self.thermostats@,
            sensor_cache: self.sensor_cache@,
            config_path: self.config_path@,
        }
    }
}

impl View for BridgeHandle {
    type V = HandleView;

    closed spec fn view(&self) -> HandleView {
        HandleView {
            inner: self.inner@,
            plugin_id: self.plugin_id@,
            snapshot: entries(self.snapshot@),
        }
    }
}

impl HandleView {
    /// Every thermostat is well formed and stands under its id, and the
    /// snapshot lists their configurations.
    pub open spec fn wf(self) -> bool {
        &&& thermostats_wf(self.inner.thermostats)
        &&& lists_configs(self.snapshot, configs_of(self.inner.thermostats))
    }

    /// This bridge with other thermostats, whose configurations a new snapshot
    /// lists.
    pub open spec fn became(self, m: Thermostats, new: HandleView) -> bool {
        &&& new.inner == BridgeView { thermostats: m, ..self.inner }
        &&& new.plugin_id == self.plugin_id
        &&& lists_configs(new.snapshot, configs_of(m))
    }
}

/// Sensors to subscribe to and sensors to unsubscribe from.
pub struct SensorDiff {
    pub added: Vec<String>,
    pub removed: Vec<String>,
}

/// Whether a difference leads from one set of sensors to another, naming each
/// sensor once.
pub open spec fn leads(diff: SensorDiff, from: Set<Seq<char>>, to: Set<Seq<char>>) -> bool {
    &&& texts(diff.added@).no_duplicates()
    &&& texts(diff.removed@).no_duplicates()
    &&& names(diff.added@) == to.difference(from)
    &&& names(diff.removed@) == from.difference(to)
}

/// A set of subscriptions after a difference was carried out on it.
pub open spec fn carried_out(diff: SensorDiff, subscribed: Set<Seq<char>>) -> Set<Seq<char>> {
    subscribed.union(names(diff.added@)).difference(names(diff.removed@))
}

/// Whether a bridge is the one that starts from a configuration: of two entries
/// with one id the later one counts, and nothing was read yet.
pub open spec fn started(
    new: HandleView,
    section: SectionView,
    list: Seq<EntryView>,
    config_path: Seq<char>,
) -> bool {
    &&& new.inner.thermostats == upserted(Map::empty(), list)
    &&& new.inner.sensor_cache == Map::<Seq<char>, Quantity>::empty()
    &&& new.inner.config_path == config_path
    &&& new.plugin_id == section.plugin_id
}

fn sensor_diff(from: &Vec<String>, to: &Vec<String>) -> (r: SensorDiff)
    requires
        texts(from@).no_duplicates(),
        texts(to@).no_duplicates(),
    ensures
        leads(r, names(from@), names(to@)),
{
    SensorDiff { added: missing_from(to, from), removed: missing_from(from, to) }
}

impl BridgeHandle {
    pub closed spec fn wf(self) -> bool {
        &&& self.inner.thermostats.wf()
        &&& lists_configs(entries(self.snapshot@), configs_of(self.inner.thermostats@))
    }

    /// A bridge that is well formed is so in all that can be said of it; in
    /// particular its snapshot always lists the configurations of its
    /// thermostats as they are.
    pub proof fn snapshot_is_current(self)
        requires
            self.wf(),
        ensures
            self@.wf(),
    {
        self.inner.thermostats.wf_of_map();
    }

    fn refresh_snapshot(&mut self)
        requires
            old(self).inner.thermostats.wf(),
        ensures
            final(self).wf(),
            final(self).inner == old(self).inner,
            final(self).plugin_id == old(self).plugin_id,
    {
        self.snapshot = self.inner.thermostats.configs();
    }

    /// A bridge for a configuration. Of two entries with one id the later one
    /// counts.
    pub fn new<L>(cfg: &Config<L>, config_path: &str) -> (r: BridgeHandle)
        ensures
            r.wf(),
            started(r@, cfg.homecore@, entries(cfg.thermostats@), config_path@),
    {
        let mut thermostats = ThermostatTable::new();
        thermostats.upsert_all(&cfg.thermostats);
        let snapshot = thermostats.configs();
        BridgeHandle {
            inner: Bridge {
                thermostats,
                sensor_cache: StringHashMap::new(),
                config_path: config_path.to_owned(),
            },
            plugin_id: cfg.homecore.plugin_id.clone(),
            snapshot,
        }
    }

    /// The configurations of the thermostats, to be handed out at once.
    pub fn snapshot(&self) -> (r: &Vec<ThermostatEntry>)
        ensures
            entries(r@) == self@.snapshot,
    {
        &self.snapshot
    }

    /// The configurations of the thermostats, in the order of their ids.
    pub fn get_thermostats(&self) -> (r: Vec<ThermostatEntry>)
        requires
            self.wf(),
        ensures
            lists_configs(entries(r@), configs_of(self@.inner.thermostats)),
    {
        self.inner.thermostats.configs()
    }
}

// ── Events ──────────────────────────────────────────────────────────────────

/// The thermostats after one of them, if its device is among them, was changed.
pub open spec fn with_device(
    m: Thermostats,
    device_id: Seq<char>,
    change: spec_fn(RuntimeView) -> RuntimeView,
) -> Thermostats {
    match thermostat_of(device_id) {
        Some(id) => if m.contains_key(id) {
            m.insert(id, change(m[id]))
        } else {
            m
        },
        None => m,
    }
}

/// What a retained message of a device comes to.
pub open spec fn restore_outcome(
    old: HandleView,
    new: HandleView,
    device_id: Seq<char>,
    told: RetainedView,
) -> bool {
    new == (HandleView {
        inner: BridgeView {
            thermostats: with_device(
                old.inner.thermostats,
                device_id,
                |rt: RuntimeView| restored(rt, told),
            ),
            ..old.inner
        },
        ..old
    })
}

/// The configurations stay as they are where one thermostat changes in
/// anything else.
proof fn configs_unchanged(m: Thermostats, id: Seq<char>, rt: RuntimeView)
    requires
        m.contains_key(id),
        rt.cfg == m[id].cfg,
    ensures
        configs_of(m.insert(id, rt)) == configs_of(m),
{
    assert(configs_of(m.insert(id, rt)) =~= configs_of(m));
}

impl BridgeHandle {
    /// Takes over what a retained message tells of one of our devices.
    pub fn restore_device(&mut self, device_id: &str, told: Retained)
        requires
            old(self).wf(),
            opt_valid(told.actuator_last_change),
        ensures
            final(self).wf(),
            restore_outcome(old(self)@, final(self)@, device_id@, told@),
    {
        let ghost m = self@.inner.thermostats;
        if let Some(id) = thermostat_id_of(device_id) {
            if let Some(rt) = self.inner.thermostats.get_mut(id) {
                rt.restore(told);
                proof {
                    configs_unchanged(m, id@, restored(m[id@], told@));
                }
            }
        }
    }

    /// A retained state message of one of our devices: it restores what was
    /// known of the actuator before a restart. It may come after fresh state was
    /// published, since it replaces nothing that was set since the start.
    pub fn on_own_state_restored(&mut self, device_id: &str, payload: &Value)
        requires
            old(self).wf(),
        ensures
            final(self).wf(),
            restore_outcome(
                old(self)@,
                final(self)@,
                device_id@,
                retained_in(json_content(*payload)),
            ),
    {
        let told = read_retained(payload);
        self.restore_device(device_id, told);
    }
}

// ── Sensors ─────────────────────────────────────────────────────────────────

/// The attributes under which some thermostat reads a sensor.
pub open spec fn attributes_of(m: Thermostats, sensor: Seq<char>) -> Set<Seq<char>> {
    Set::new(
        |a: Seq<char>|
            exists|id: Seq<char>| #[trigger]
                watchers(m, sensor).contains(id) && m[id].cfg.sensor_attribute == a,
    )
}

/// Whether a message holds a number under one of some attributes.
pub open spec fn has_number(message: JsonNode, attributes: Set<Seq<char>>) -> bool {
    exists|a: Seq<char>| #[trigger]
        attributes.contains(a) && message.member_float(a) is Some
}

/// Whether a reading is the number that a message holds under one of some
/// attributes.
pub open spec fn is_number_of(
    q: Quantity,
    message: JsonNode,
    attributes: Set<Seq<char>>,
) -> bool {
    exists|a: Seq<char>| #[trigger]
        attributes.contains(a) && message.member_float(a) == Some(q)
}

/// A bridge after a sensor was read.
pub open spec fn with_reading(h: HandleView, sensor: Seq<char>, q: Quantity) -> HandleView {
    HandleView {
        inner: BridgeView { sensor_cache: h.inner.sensor_cache.insert(sensor, q), ..h.inner },
        ..h
    }
}

/// What a state message of a sensor comes to.
pub open spec fn sensor_outcome(
    old: HandleView,
    new: HandleView,
    sensor: Seq<char>,
    message: JsonNode,
    r: Seq<String>,
) -> bool {
    let attributes = attributes_of(old.inner.thermostats, sensor);
    &&& texts(r).no_duplicates()
    &&& names(r) == watchers(old.inner.thermostats, sensor)
    &&& if has_number(message, attributes) {
        exists|q: Quantity| #[trigger]
            is_number_of(q, message, attributes) && new == with_reading(old, sensor, q)
    } else {
        new == old
    }
}

/// The readings of the sensors that a thermostat uses, in their order; a sensor
/// that was not read is left out.
pub open spec fn readings_of(
    sensors: Seq<Seq<char>>,
    cache: Map<Seq<char>, Quantity>,
) -> Seq<Quantity>
    decreases sensors.len(),
{
    if sensors.len() == 0 {
        Seq::empty()
    } else {
        let before = readings_of(sensors.drop_last(), cache);
        if cache.contains_key(sensors.last()) {
            before.push(cache[sensors.last()])
        } else {
            before
        }
    }
}

impl BridgeHandle {
    /// The attributes under which some thermostat reads a sensor, each once.
    pub fn attributes(&self, sensor_id: &str) -> (r: Vec<String>)
        requires
            self.wf(),
        ensures
            texts(r@).no_duplicates(),
            names(r@) == attributes_of(self@.inner.thermostats, sensor_id@),
    {
        let ids = self.inner.thermostats.watching(sensor_id);
        let ghost m = self@.inner.thermostats;
        let mut r: Vec<String> = Vec::new();
        for i in 0..ids.len()
            invariant
                self.wf(),
                m == self.inner.thermostats@,
                names(ids@) == watchers(m, sensor_id@),
                texts(r@).no_duplicates(),
                forall|a: Seq<char>| #[trigger]
                    names(r@).contains(a) <==> exists|k: int|
                        0 <= k < i && m[(#[trigger] texts(ids@)[k])].cfg.sensor_attribute == a,
        {
            assert(texts(ids@)[i as int] == ids@[i as int]@);
            assert(names(ids@).contains(ids@[i as int]@));
            if let Some(rt) = self.inner.thermostats.get(ids[i].as_str()) {
                add_text(&mut r, &rt.cfg.sensor_attribute);
            }
        }
        proof {
            assert forall|a: Seq<char>|
                names(r@).contains(a) <==> attributes_of(m, sensor_id@).contains(a) by {
                if names(r@).contains(a) {
                    let k = choose|k: int|
                        0 <= k < ids@.len() && m[(#[trigger] texts(
                            ids@,
                        )[k])].cfg.sensor_attribute == a;
                    assert(watchers(m, sensor_id@).contains(texts(ids@)[k]));
                }
                if attributes_of(m, sensor_id@).contains(a) {
                    let id = choose|id: Seq<char>| #[trigger]
                        watchers(m, sensor_id@).contains(id) && m[id].cfg.sensor_attribute == a;
                    assert(texts(ids@).contains(id));
                    let k = choose|k: int| 0 <= k < texts(ids@).len() && texts(ids@)[k] == id;
                    assert(m[texts(ids@)[k]].cfg.sensor_attribute == a);
                }
            }
            assert(names(r@) =~= attributes_of(m, sensor_id@));
        }
        r
    }

    /// Keeps the last reading of a sensor.
    pub fn note_reading(&mut self, sensor_id: &str, value: Quantity)
        requires
            old(self).wf(),
        ensures
            final(self).wf(),
            final(self)@ == with_reading(old(self)@, sensor_id@, value),
    {
        self.inner.sensor_cache.insert(sensor_id.to_owned(), value);
    }

    /// A state message of a sensor: the number that it holds under one of the
    /// attributes that are read from the sensor becomes its last reading. Gives
    /// the thermostats to recalculate, which are those that use the sensor.
    /// Where numbers stand under several of the attributes, which of them is
    /// kept is not stated.
    pub fn on_sensor_state(&mut self, sensor_id: &str, payload: &Value) -> (r: Vec<String>)
        requires
            old(self).wf(),
        ensures
            final(self).wf(),
            sensor_outcome(old(self)@, final(self)@, sensor_id@, json_content(*payload), r@),
    {
        let attributes = self.attributes(sensor_id);
        let ghost before = self@;
        let ghost message = json_content(*payload);
        let mut i: usize = 0;
        let mut found: Option<Quantity> = None;
        while i < attributes.len() && found.is_none()
            invariant
                i <= attributes@.len(),
                message == json_content(*payload),
                found is None ==> forall|k: int|
                    0 <= k < i ==> message.member_float(#[trigger] texts(attributes@)[k]) is None,
                found matches Some(q) ==> is_number_of(q, message, names(attributes@)),
            decreases attributes@.len() - i,
        {
            found = member_float(payload, attributes[i].as_str());
            proof {
                let a = attributes@[i as int]@;
                assert(texts(attributes@)[i as int] == a);
                assert(names(attributes@).contains(a));
            }
            i += 1;
        }
        match found {
            Some(q) => {
                self.note_reading(sensor_id, q);
                proof {
                    let a = choose|a: Seq<char>| #[trigger]
                        names(attributes@).contains(a) && message.member_float(a) == Some(q);
                    assert(attributes_of(before.inner.thermostats, sensor_id@).contains(a));
                }
            },
            None => {
                proof {
                    assert forall|a: Seq<char>| #[trigger]
                        names(attributes@).contains(a) implies message.member_float(a) is None by {
                        let k = choose|k: int|
                            0 <= k < texts(attributes@).len() && texts(attributes@)[k] == a;
                        assert(message.member_float(texts(attributes@)[k]) is None);
                    }
                }
            },
        }
        self.inner.thermostats.watching(sensor_id)
    }

    /// The sensors that some thermostat uses, each once.
    pub fn all_sensor_ids(&self) -> (r: Vec<String>)
        requires
            self.wf(),
        ensures
            texts(r@).no_duplicates(),
            names(r@) == sensor_union(self@.inner.thermostats),
    {
        self.inner.thermostats.sensors()
    }
}

// ── Devices ─────────────────────────────────────────────────────────────────

/// A device to be registered with the hub.
pub struct Registration {
    pub device_id: String,
    pub name: String,
}

pub open spec fn registrations(list: Seq<Registration>) -> Seq<(Seq<char>, Seq<char>)> {
    list.map_values(|r: Registration| (r.device_id@, r.name@))
}

/// Whether a list names every thermostat's device once, with the thermostat's
/// name.
pub open spec fn lists_devices(list: Seq<(Seq<char>, Seq<char>)>, m: Thermostats) -> bool {
    &&& forall|i: int, j: int| 0 <= i < j < list.len() ==> list[i].0 != list[j].0
    &&& forall|d: Seq<char>, n: Seq<char>| #[trigger]
        list.contains((d, n)) <==> own_devices(m).contains(d) && n == m[thermostat_of(
            d,
        )->0].cfg.name
}

/// Whether a payload is the state of one of our devices; other devices have
/// none.
pub open spec fn state_of_device(
    m: Thermostats,
    device_id: Seq<char>,
    r: Option<Payload>,
) -> bool {
    &&& r is Some <==> own_devices(m).contains(device_id)
    &&& r matches Some(p) ==> published_now(p@, m[thermostat_of(device_id)->0])
}

impl BridgeHandle {
    /// The devices of the thermostats, each to be registered, subscribed for
    /// commands and announced as available.
    pub fn register_all(&self) -> (r: Vec<Registration>)
        requires
            self.wf(),
        ensures
            lists_devices(registrations(r@), self@.inner.thermostats),
    {
        let ids = self.inner.thermostats.ids();
        let ghost m = self@.inner.thermostats;
        let mut r: Vec<Registration> = Vec::new();
        for i in 0..ids.len()
            invariant
                self.wf(),
                m == self.inner.thermostats@,
                names(ids@) == m.dom(),
                registrations(r@) == Seq::new(
                    i as nat,
                    |k: int| (device_of(texts(ids@)[k]), m[texts(ids@)[k]].cfg.name),
                ),
        {
            assert(texts(ids@)[i as int] == ids@[i as int]@);
            assert(names(ids@).contains(ids@[i as int]@));
            if let Some(rt) = self.inner.thermostats.get(ids[i].as_str()) {
                let ghost before = registrations(r@);
                r.push(Registration { device_id: rt.device_id(), name: rt.cfg.name.clone() });
                assert(registrations(r@) =~= before.push(
                    (device_of(ids@[i as int]@), m[ids@[i as int]@].cfg.name),
                ));
            }
        }
        proof {
            let list = registrations(r@);
            assert forall|i: int, j: int| 0 <= i < j < list.len() implies list[i].0
                != list[j].0 by {
                device_stands_for_its_thermostat(texts(ids@)[i]);
                device_stands_for_its_thermostat(texts(ids@)[j]);
            }
            assert forall|d: Seq<char>, n: Seq<char>| #[trigger]
                list.contains((d, n)) <==> own_devices(m).contains(d) && n == m[thermostat_of(
                    d,
                )->0].cfg.name by {
                if list.contains((d, n)) {
                    let k = choose|k: int| 0 <= k < list.len() && list[k] == (d, n);
                    device_stands_for_its_thermostat(texts(ids@)[k]);
                    assert(names(ids@).contains(texts(ids@)[k]));
                }
                if own_devices(m).contains(d) && n == m[thermostat_of(d)->0].cfg.name {
                    let id = thermostat_of(d)->0;
                    assert(names(ids@).contains(id));
                    let k = choose|k: int| 0 <= k < texts(ids@).len() && texts(ids@)[k] == id;
                    assert(list[k] == (d, n));
                }
            }
        }
        r
    }

    /// The state that one of our devices publishes at this time.
    pub fn device_state(&self, device_id: &str) -> (r: Option<Payload>)
        requires
            self.wf(),
        ensures
            state_of_device(self@.inner.thermostats, device_id@, r),
    {
        match thermostat_id_of(device_id) {
            Some(id) => {
                proof {
                    prefix_goes_back("thermostat_"@, device_id@);
                }
                match self.inner.thermostats.get(id) {
                    Some(rt) => Some(rt.state_payload()),
                    None => None,
                }
            },
            None => None,
        }
    }

    /// The devices of the thermostats, each once.
    pub fn all_own_device_ids(&self) -> (r: Vec<String>)
        requires
            self.wf(),
        ensures
            texts(r@).no_duplicates(),
            names(r@) == own_devices(self@.inner.thermostats),
    {
        let ids = self.inner.thermostats.ids();
        let ghost m = self@.inner.thermostats;
        let mut r: Vec<String> = Vec::new();
        for i in 0..ids.len()
            invariant
                texts(r@) == Seq::new(i as nat, |k: int| device_of(texts(ids@)[k])),
        {
            let ghost before = texts(r@);
            r.push(device_id_of(ids[i].as_str()));
            assert(texts(r@) =~= before.push(device_of(texts(ids@)[i as int])));
        }
        proof {
            assert forall|i: int, j: int| 0 <= i < j < texts(r@).len() implies texts(r@)[i]
                != texts(r@)[j] by {
                device_stands_for_its_thermostat(texts(ids@)[i]);
                device_stands_for_its_thermostat(texts(ids@)[j]);
            }
            assert forall|d: Seq<char>| names(r@).contains(d) <==> own_devices(m).contains(d) by {
                if names(r@).contains(d) {
                    let k = choose|k: int| 0 <= k < texts(r@).len() && texts(r@)[k] == d;
                    device_stands_for_its_thermostat(texts(ids@)[k]);
                    assert(names(ids@).contains(texts(ids@)[k]));
                }
                if own_devices(m).contains(d) {
                    let id = thermostat_of(d)->0;
                    assert(names(ids@).contains(id));
                    let k = choose|k: int| 0 <= k < texts(ids@).len() && texts(ids@)[k] == id;
                    assert(texts(r@)[k] == d);
                }
            }
            assert(names(r@) =~= own_devices(m));
        }
        r
    }
}

// ── Commands ────────────────────────────────────────────────────────────────

/// What is to be done after a command that was carried out: the subscriptions
/// to change, where the sensors in use have changed, the configuration to write
/// back, where something was set, and the thermostat to recalculate.
pub struct Accepted {
    pub therm_id: String,
    pub changed: bool,
    pub sensors: Option<SensorDiff>,
}

/// Whether a command is for one of our thermostats, and is known.
pub open spec fn accepts(m: Thermostats, device_id: Seq<char>, cmd: CommandView) -> bool {
    &&& thermostat_of(device_id) matches Some(id) && m.contains_key(id)
    &&& !(cmd is Unknown)
}

/// The thermostats after a command to one of them.
pub open spec fn with_command(m: Thermostats, id: Seq<char>, cmd: CommandView) -> Thermostats {
    m.insert(id, m[id].with_cfg(configured(m[id].cfg, cmd)))
}

/// What a command comes to. One that is not accepted changes nothing.
pub open spec fn command_outcome(
    old: HandleView,
    new: HandleView,
    device_id: Seq<char>,
    cmd: CommandView,
    r: Option<Accepted>,
) -> bool {
    let m = old.inner.thermostats;
    if accepts(m, device_id, cmd) {
        let id = thermostat_of(device_id)->0;
        let after = with_command(m, id, cmd);
        &&& old.became(after, new)
        &&& r matches Some(a) && {
            &&& a.therm_id@ == id
            &&& a.changed == sets_something(cmd)
            &&& a.sensors is Some <==> sensor_union(m) != sensor_union(after)
            &&& a.sensors matches Some(d) ==> leads(d, sensor_union(m), sensor_union(after))
        }
    } else {
        r is None && new == old
    }
}

impl BridgeHandle {
    /// Carries a command to one of our devices out.
    pub fn run_command(&mut self, device_id: &str, cmd: Command) -> (r: Option<Accepted>)
        requires
            old(self).wf(),
        ensures
            final(self).wf(),
            command_outcome(old(self)@, final(self)@, device_id@, cmd@, r),
    {
        let ghost m = self@.inner.thermostats;
        let id = match thermostat_id_of(device_id) {
            Some(id) => id,
            None => {
                return None;
            },
        };
        if let Command::Unknown = cmd {
            return None;
        }
        let from = self.inner.thermostats.sensors();
        let ghost view = cmd@;
        let changed = match self.inner.thermostats.get_mut(id) {
            Some(rt) => {
                proof {
                    commands_keep_entries_sound(m[id@].cfg, view);
                }
                rt.configure(cmd)
            },
            None => {
                return None;
            },
        };
        let to = self.inner.thermostats.sensors();
        let ghost after = self@.inner.thermostats;
        assert(after == with_command(m, id@, view));
        if changed {
            self.refresh_snapshot();
        } else {
            proof {
                nothing_set_means_nothing_changed(m[id@].cfg, view);
                configs_unchanged(m, id@, after[id@]);
            }
        }
        let diff = sensor_diff(&from, &to);
        let differs = diff.added.len() > 0 || diff.removed.len() > 0;
        proof {
            sets_differ(diff, names(from@), names(to@));
        }
        Some(
            Accepted {
                therm_id: id.to_owned(),
                changed,
                sensors: if differs {
                    Some(diff)
                } else {
                    None
                },
            },
        )
    }

    /// A command message to one of our devices.
    pub fn on_device_command(&mut self, device_id: &str, payload: &Value) -> (r: Option<Accepted>)
        requires
            old(self).wf(),
        ensures
            final(self).wf(),
            command_outcome(
                old(self)@,
                final(self)@,
                device_id@,
                command_in(json_content(*payload)),
                r,
            ),
    {
        let cmd = read_command(payload);
        self.run_command(device_id, cmd)
    }
}

/// Two sets of sensors differ exactly where a difference between them names
/// any sensor.
proof fn sets_differ(diff: SensorDiff, from: Set<Seq<char>>, to: Set<Seq<char>>)
    requires
        leads(diff, from, to),
    ensures
        from != to <==> diff.added@.len() > 0 || diff.removed@.len() > 0,
{
    if diff.added@.len() > 0 {
        let s = texts(diff.added@)[0];
        assert(names(diff.added@).contains(s));
    }
    if diff.removed@.len() > 0 {
        let s = texts(diff.removed@)[0];
        assert(names(diff.removed@).contains(s));
    }
    if diff.added@.len() == 0 && diff.removed@.len() == 0 {
        assert forall|s: Seq<char>| from.contains(s) <==> to.contains(s) by {
            assert(!names(diff.added@).contains(s));
            assert(!names(diff.removed@).contains(s));
        }
        assert(from =~= to);
    }
}

// ── Recalculation ───────────────────────────────────────────────────────────

/// What the control loop goes by: the readings of a thermostat's sensors, how
/// it is configured, what it last called for and how long its actuator has been
/// as it is.
pub struct ControlInputs {
    pub readings: Vec<Quantity>,
    pub aggregation: String,
    pub setpoint: Quantity,
    pub hysteresis: Quantity,
    pub mode: String,
    pub call_for: String,
    pub actuator_state: bool,
    pub min_on_secs: u64,
    pub min_off_secs: u64,
    pub actuator_last_change: Option<Timestamp>,
    pub now: Timestamp,
}

/// Whether there is a reading of any of a thermostat's sensors.
pub open spec fn has_readings(rt: RuntimeView, cache: Map<Seq<char>, Quantity>) -> bool {
    readings_of(rt.cfg.sensor_device_ids, cache).len() > 0
}

/// Whether the control loop is given what is known of a thermostat; there is
/// nothing to give for one that is not there.
pub open spec fn inputs_of(h: HandleView, id: Seq<char>, r: Option<ControlInputs>) -> bool {
    let rt = h.inner.thermostats[id];
    &&& r is Some <==> h.inner.thermostats.contains_key(id)
    &&& r matches Some(inputs) ==> {
        &&& inputs.readings@ == readings_of(rt.cfg.sensor_device_ids, h.inner.sensor_cache)
        &&& inputs.aggregation@ == rt.cfg.aggregation
        &&& inputs.setpoint == rt.cfg.setpoint
        &&& inputs.hysteresis == rt.cfg.hysteresis
        &&& inputs.mode@ == rt.cfg.mode
        &&& inputs.call_for@ == rt.call_for
        &&& inputs.actuator_state == rt.actuator_state
        &&& inputs.min_on_secs == rt.cfg.min_on_secs
        &&& inputs.min_off_secs == rt.cfg.min_off_secs
        &&& inputs.actuator_last_change == rt.actuator_last_change
        &&& inputs.now.ordinary()
    }
}

/// A bridge with one thermostat changed in anything but its configuration.
pub open spec fn with_thermostat(h: HandleView, id: Seq<char>, rt: RuntimeView) -> HandleView {
    HandleView {
        inner: BridgeView { thermostats: h.inner.thermostats.insert(id, rt), ..h.inner },
        ..h
    }
}

/// What is to be published after a recalculation: the state first, and then the
/// command to the actuator, if there is one.
pub struct Recalculation {
    pub device_id: String,
    pub payload: Payload,
    pub command: Option<ActuatorCommand>,
}

/// What recalculating a thermostat comes to. One that is not there changes
/// nothing.
pub open spec fn recalculation_outcome(
    old: HandleView,
    new: HandleView,
    id: Seq<char>,
    ev: EvaluationView,
    r: Option<Recalculation>,
) -> bool {
    let rt = old.inner.thermostats[id];
    let read = has_readings(rt, old.inner.sensor_cache);
    let after = recalculated(rt, read, ev);
    if old.inner.thermostats.contains_key(id) {
        &&& new == with_thermostat(old, id, after)
        &&& r matches Some(done) && {
            &&& done.device_id@ == device_of(id)
            &&& published_now(done.payload@, after)
            &&& opt_command(done.command) == issued(rt, read, ev)
        }
    } else {
        r is None && new == old
    }
}

/// What it comes to that an actuator command of a device was sent, or could not
/// be.
pub open spec fn sending_outcome(
    old: HandleView,
    new: HandleView,
    device_id: Seq<char>,
    error: Option<Seq<char>>,
    r: Option<Payload>,
) -> bool {
    let m = old.inner.thermostats;
    let id = thermostat_of(device_id)->0;
    if own_devices(m).contains(device_id) && id.len() > 0 {
        exists|at: Timestamp|
            at.ordinary() && {
                let after = #[trigger] with_outcome(m[id], error, at);
                &&& new == with_thermostat(old, id, after)
                &&& r matches Some(p) && published_now(p@, after)
            }
    } else {
        r is None && new == old
    }
}

impl BridgeHandle {
    fn readings(&self, rt: &Runtime) -> (r: Vec<Quantity>)
        ensures
            r@ == readings_of(rt@.cfg.sensor_device_ids, self@.inner.sensor_cache),
    {
        let ids = &rt.cfg.sensor_device_ids;
        let ghost cache = self@.inner.sensor_cache;
        let mut r: Vec<Quantity> = Vec::new();
        for i in 0..ids.len()
            invariant
                cache == self.inner.sensor_cache@,
                r@ == readings_of(texts(ids@).take(i as int), cache),
        {
            proof {
                let next = texts(ids@).take(i + 1);
                assert(next.drop_last() =~= texts(ids@).take(i as int));
                assert(next.last() == ids@[i as int]@);
            }
            if let Some(q) = self.inner.sensor_cache.get(ids[i].as_str()) {
                r.push(*q);
            }
        }
        assert(texts(ids@).take(ids@.len() as int) =~= texts(ids@));
        r
    }

    /// What the control loop is to go by for a thermostat, at this time.
    pub fn control_inputs(&self, therm_id: &str) -> (r: Option<ControlInputs>)
        requires
            self.wf(),
        ensures
            inputs_of(self@, therm_id@, r),
    {
        match self.inner.thermostats.get(therm_id) {
            Some(rt) => Some(
                ControlInputs {
                    readings: self.readings(rt),
                    aggregation: rt.cfg.aggregation.clone(),
                    setpoint: rt.cfg.setpoint,
                    hysteresis: rt.cfg.hysteresis,
                    mode: rt.cfg.mode.clone(),
                    call_for: rt.call_for.clone(),
                    actuator_state: rt.actuator_state,
                    min_on_secs: rt.cfg.min_on_secs,
                    min_off_secs: rt.cfg.min_off_secs,
                    actuator_last_change: rt.actuator_last_change,
                    now: utc_now(),
                },
            ),
            None => None,
        }
    }

    /// Recalculates a thermostat from what the control loop makes of its
    /// readings. A thermostat that is not there changes nothing. Where a lockout
    /// is to be noted, its end has to lie within the calendar.
    pub fn recalculate(&mut self, therm_id: &str, ev: &Evaluation) -> (r: Option<Recalculation>)
        requires
            old(self).wf(),
            ev@.now.ordinary(),
            old(self)@.inner.thermostats.contains_key(therm_id@) ==> lockout_fits(
                old(self)@.inner.thermostats[therm_id@],
                has_readings(
                    old(self)@.inner.thermostats[therm_id@],
                    old(self)@.inner.sensor_cache,
                ),
                ev@,
            ),
        ensures
            final(self).wf(),
            recalculation_outcome(old(self)@, final(self)@, therm_id@, ev@, r),
    {
        let ghost m = self@.inner.thermostats;
        let read = match self.inner.thermostats.get(therm_id) {
            Some(rt) => self.readings(rt).len() > 0,
            None => {
                return None;
            },
        };
        match self.inner.thermostats.get_mut(therm_id) {
            Some(rt) => {
                let command = rt.recalculate(read, ev);
                let payload = rt.state_payload();
                let device_id = rt.device_id();
                proof {
                    configs_unchanged(m, therm_id@, recalculated(m[therm_id@], read, ev@));
                }
                Some(Recalculation { device_id, payload, command })
            },
            None => None,
        }
    }

    /// Notes whether the actuator command of one of our devices could be sent,
    /// and gives the state to publish again.
    pub fn record_actuator_outcome(&mut self, device_id: &str, error: Option<String>) -> (r: Option<
        Payload,
    >)
        requires
            old(self).wf(),
        ensures
            final(self).wf(),
            sending_outcome(old(self)@, final(self)@, device_id@, opt_text(error), r),
    {
        let ghost m = self@.inner.thermostats;
        let ghost told = opt_text(error);
        match thermostat_id_of(device_id) {
            Some(id) => {
                proof {
                    prefix_goes_back("thermostat_"@, device_id@);
                }
                if id.is_empty() {
                    return None;
                }
                match self.inner.thermostats.get_mut(id) {
                    Some(rt) => {
                        let at = utc_now();
                        rt.record_outcome(error, at);
                        let payload = rt.state_payload();
                        proof {
                            configs_unchanged(m, id@, with_outcome(m[id@], told, at));
                        }
                        Some(payload)
                    },
                    None => None,
                }
            },
            None => None,
        }
    }

    /// The thermostats to recalculate at start and whenever all are to be
    /// reconciled: every one, once.
    pub fn recalculate_all(&self) -> (r: Vec<String>)
        requires
            self.wf(),
        ensures
            texts(r@).no_duplicates(),
            names(r@) == self@.inner.thermostats.dom(),
    {
        self.inner.thermostats.ids()
    }

    /// The thermostats to recalculate every now and then: those that have a
    /// call waiting for a lockout to end, each once.
    pub fn tick(&self) -> (r: Vec<String>)
        requires
            self.wf(),
        ensures
            texts(r@).no_duplicates(),
            names(r@) == waiting(self@.inner.thermostats),
    {
        self.inner.thermostats.with_pending_call()
    }
}

// ── Configuration ───────────────────────────────────────────────────────────

/// How the hub is reached where the configuration file can no longer be read.
pub open spec fn fallback_section(plugin_id: Seq<char>) -> SectionView {
    SectionView {
        plugin_id,
        broker_host: "127.0.0.1"@,
        broker_port: 1883,
        password: ""@,
        heartbeat_secs: 60,
    }
}

/// A configuration to be written to `partial_path` and then renamed to `path`.
pub struct PersistPlan<L> {
    pub config: Config<L>,
    pub partial_path: String,
    pub path: String,
}

/// Whether a configuration holds the thermostats of a bridge, and for the rest
/// what was loaded or, where nothing could be loaded, the fallback.
pub open spec fn assembled<L>(
    h: HandleView,
    loaded: Result<Config<L>, ConfigError>,
    default_logging: L,
    r: Config<L>,
) -> bool {
    &&& lists_configs(entries(r.thermostats@), configs_of(h.inner.thermostats))
    &&& match loaded {
        Ok(cfg) => r.homecore == cfg.homecore && r.logging == cfg.logging,
        Err(_) => r.homecore@ == fallback_section(h.plugin_id) && r.logging == default_logging,
    }
}

/// Whether a plan writes a bridge back: to the file that it was loaded from, by
/// way of another.
pub open spec fn written_back<L>(
    h: HandleView,
    loaded: Result<Config<L>, ConfigError>,
    default_logging: L,
    plan: PersistPlan<L>,
) -> bool {
    &&& assembled(h, loaded, default_logging, plan.config)
    &&& plan.path@ == h.inner.config_path
    &&& plan.partial_path@ == h.inner.config_path + ".partial"@
}

/// What loading a configuration again comes to.
pub open spec fn reload_outcome(
    old: HandleView,
    new: HandleView,
    list: Seq<EntryView>,
    diff: SensorDiff,
) -> bool {
    &&& old.became(upserted(old.inner.thermostats, list), new)
    &&& leads(diff, sensor_union(old.inner.thermostats), listed_sensors(list))
}

impl BridgeHandle {
    /// Where the configuration is kept.
    pub fn config_path(&self) -> (r: &str)
        ensures
            r@ == self@.inner.config_path,
    {
        self.inner.config_path.as_str()
    }

    /// The configuration as it is now: the thermostats from here, in the order
    /// of their ids, and the other sections from the file.
    pub fn assemble_config<L>(
        &self,
        loaded: Result<Config<L>, ConfigError>,
        default_logging: L,
    ) -> (r: Config<L>)
        requires
            self.wf(),
        ensures
            assembled(self@, loaded, default_logging, r),
    {
        let thermostats = self.inner.thermostats.configs();
        match loaded {
            Ok(cfg) => Config { homecore: cfg.homecore, logging: cfg.logging, thermostats },
            Err(_) => Config {
                homecore: HomecoreSection {
                    plugin_id: self.plugin_id.clone(),
                    broker_host: "127.0.0.1".to_owned(),
                    broker_port: 1883,
                    password: "".to_owned(),
                    heartbeat_secs: 60,
                },
                logging: default_logging,
                thermostats,
            },
        }
    }

    /// What to write back, and where, so that a restart finds the thermostats as
    /// they are.
    pub fn persist_config<L>(
        &self,
        loaded: Result<Config<L>, ConfigError>,
        default_logging: L,
    ) -> (r: PersistPlan<L>)
        requires
            self.wf(),
        ensures
            written_back(self@, loaded, default_logging, r),
    {
        let config = self.assemble_config(loaded, default_logging);
        PersistPlan {
            config,
            partial_path: joined(self.inner.config_path.as_str(), ".partial"),
            path: self.inner.config_path.clone(),
        }
    }

    /// Takes a configuration that was loaded again over. A thermostat that is
    /// there keeps its state, and one that the configuration does not name stays
    /// as it is. Gives the subscriptions to change, from the sensors that were in
    /// use to those that the configuration names.
    pub fn reload_config<L>(&mut self, new_cfg: &Config<L>) -> (r: SensorDiff)
        requires
            old(self).wf(),
        ensures
            final(self).wf(),
            reload_outcome(old(self)@, final(self)@, entries(new_cfg.thermostats@), r),
    {
        let from = self.inner.thermostats.sensors();
        let to = sensors_listed(&new_cfg.thermostats);
        self.inner.thermostats.upsert_all(&new_cfg.thermostats);
        self.refresh_snapshot();
        sensor_diff(&from, &to)
    }
}

/// The sensors that some entry lists, each once.
fn sensors_listed(list: &Vec<ThermostatEntry>) -> (r: Vec<String>)
    ensures
        texts(r@).no_duplicates(),
        names(r@) == listed_sensors(entries(list@)),
{
    let mut r: Vec<String> = Vec::new();
    assert(names(r@) =~= listed_sensors(entries(list@).take(0)));
    for i in 0..list.len()
        invariant
            texts(r@).no_duplicates(),
            names(r@) == listed_sensors(entries(list@).take(i as int)),
    {
        let ghost sofar = entries(list@).take(i as int);
        let ghost next = entries(list@).take(i + 1);
        let mine = each_once(&list[i].sensor_device_ids);
        let ghost before = names(r@);
        for j in 0..mine.len()
            invariant
                texts(r@).no_duplicates(),
                names(r@) == before.union(texts(mine@).take(j as int).to_set()),
        {
            let ghost held = texts(mine@).take(j as int);
            add_text(&mut r, &mine[j]);
            proof {
                assert(texts(mine@).take(j + 1) =~= held.push(mine@[j as int]@));
                held.lemma_push_to_set_commute(mine@[j as int]@);
                assert(names(r@) =~= before.union(texts(mine@).take(j + 1).to_set()));
            }
        }
        proof {
            assert(texts(mine@).take(mine@.len() as int) =~= texts(mine@));
            let e = list@[i as int]@;
            assert(next[i as int] == e);
            assert forall|s: Seq<char>|
                names(r@).contains(s) <==> listed_sensors(next).contains(s) by {
                assert(names(mine@).contains(s) <==> e.sensor_device_ids.contains(s));
                if listed_sensors(sofar).contains(s) {
                    let k = choose|k: int|
                        0 <= k < sofar.len() && (#[trigger] sofar[k]).sensor_device_ids.contains(s);
                    assert(next[k] == sofar[k]);
                }
                if listed_sensors(next).contains(s) {
                    let k = choose|k: int|
                        0 <= k < next.len() && (#[trigger] next[k]).sensor_device_ids.contains(s);
                    if k < i {
                        assert(sofar[k] == next[k]);
                    }
                }
            }
            assert(names(r@) =~= listed_sensors(next));
        }
    }
    assert(entries(list@).take(list@.len() as int) =~= entries(list@));
    r
}

// ── Adding and removing ─────────────────────────────────────────────────────

/// Why a thermostat is not added or removed.
pub enum BridgeError {
    IdRequired,
    InvalidMode(String),
    InvalidAggregation(String),
    NegativeHysteresis,
    AlreadyExists(String),
    NotFound(String),
}

pub enum BridgeFault {
    IdRequired,
    InvalidMode(Seq<char>),
    InvalidAggregation(Seq<char>),
    NegativeHysteresis,
    AlreadyExists(Seq<char>),
    NotFound(Seq<char>),
}

impl View for BridgeError {
    type V = BridgeFault;

    open spec fn view(&self) -> BridgeFault {
        match self {
            BridgeError::IdRequired => BridgeFault::IdRequired,
            BridgeError::InvalidMode(m) => BridgeFault::InvalidMode(m@),
            BridgeError::InvalidAggregation(a) => BridgeFault::InvalidAggregation(a@),
            BridgeError::NegativeHysteresis => BridgeFault::NegativeHysteresis,
            BridgeError::AlreadyExists(id) => BridgeFault::AlreadyExists(id@),
            BridgeError::NotFound(id) => BridgeFault::NotFound(id@),
        }
    }
}

impl BridgeFault {
    /// What a user is told.
    pub open spec fn told(self) -> Seq<char> {
        match self {
            BridgeFault::IdRequired => "thermostat id is required"@,
            BridgeFault::InvalidMode(m) => "invalid mode: "@ + m,
            BridgeFault::InvalidAggregation(a) => "invalid aggregation: "@ + a,
            BridgeFault::NegativeHysteresis => "hysteresis must be non-negative"@,
            BridgeFault::AlreadyExists(id) => "thermostat already exists: "@ + id,
            BridgeFault::NotFound(id) => "thermostat not found: "@ + id,
        }
    }
}

impl BridgeError {
    /// What a user is told.
    pub fn message(&self) -> (r: String)
        ensures
            r@ == self@.told(),
    {
        match self {
            BridgeError::IdRequired => "thermostat id is required".to_owned(),
            BridgeError::InvalidMode(m) => joined("invalid mode: ", m.as_str()),
            BridgeError::InvalidAggregation(a) => joined("invalid aggregation: ", a.as_str()),
            BridgeError::NegativeHysteresis => "hysteresis must be non-negative".to_owned(),
            BridgeError::AlreadyExists(id) => joined("thermostat already exists: ", id.as_str()),
            BridgeError::NotFound(id) => joined("thermostat not found: ", id.as_str()),
        }
    }
}

/// Why an entry cannot be added as a thermostat, if it cannot: what may be added
/// is what a configuration may hold, under an id that is not there yet.
pub open spec fn add_fault(m: Thermostats, e: EntryView) -> Option<BridgeFault> {
    if e.id.len() == 0 {
        Some(BridgeFault::IdRequired)
    } else if !known_mode(e.mode) {
        Some(BridgeFault::InvalidMode(e.mode))
    } else if !known_aggregation(e.aggregation) {
        Some(BridgeFault::InvalidAggregation(e.aggregation))
    } else if e.hysteresis.below_zero() {
        Some(BridgeFault::NegativeHysteresis)
    } else if m.contains_key(e.id) {
        Some(BridgeFault::AlreadyExists(e.id))
    } else {
        None
    }
}

/// What is to be done after a thermostat was added: the sensors to subscribe
/// to and the device to register.
pub struct Added {
    pub therm_id: String,
    pub device_id: String,
    pub display_name: String,
    pub sensors_added: Vec<String>,
}

/// What is to be done after a thermostat was removed: the sensors that nothing
/// uses any more to unsubscribe from, the device to announce as gone, and the
/// topic on which its retained state is to be cleared.
pub struct Removed {
    pub device_id: String,
    pub state_topic: String,
    pub sensors_removed: Vec<String>,
}

/// What adding a thermostat comes to. What is refused changes nothing.
pub open spec fn addition_outcome(
    old: HandleView,
    new: HandleView,
    entry: EntryView,
    r: Result<Added, BridgeError>,
) -> bool {
    let m = old.inner.thermostats;
    let after = m.insert(entry.id, fresh(entry));
    match add_fault(m, entry) {
        Some(fault) => r matches Err(e) && e@ == fault && new == old,
        None => {
            &&& old.became(after, new)
            &&& r matches Ok(added) && {
                &&& added.therm_id@ == entry.id
                &&& added.device_id@ == device_of(entry.id)
                &&& added.display_name@ == entry.name
                &&& texts(added.sensors_added@).no_duplicates()
                &&& names(added.sensors_added@) == sensor_union(after).difference(sensor_union(m))
            }
        },
    }
}

/// What removing a thermostat comes to. One that is not there changes nothing.
pub open spec fn removal_outcome(
    old: HandleView,
    new: HandleView,
    id: Seq<char>,
    r: Result<Removed, BridgeError>,
) -> bool {
    let m = old.inner.thermostats;
    let after = m.remove(id);
    if m.contains_key(id) {
        &&& old.became(after, new)
        &&& r matches Ok(removed) && {
            &&& removed.device_id@ == device_of(id)
            &&& removed.state_topic@ == state_of(device_of(id))
            &&& texts(removed.sensors_removed@).no_duplicates()
            &&& names(removed.sensors_removed@) == m[id].cfg.sensor_device_ids.to_set().difference(
                sensor_union(after),
            )
        }
    } else {
        r matches Err(e) && e@ == BridgeFault::NotFound(id) && new == old
    }
}

impl BridgeHandle {
    /// Adds a thermostat, unless its entry is not accepted or its id is there
    /// already. What is refused changes nothing.
    pub fn add_thermostat(&mut self, entry: ThermostatEntry) -> (r: Result<Added, BridgeError>)
        requires
            old(self).wf(),
        ensures
            final(self).wf(),
            addition_outcome(old(self)@, final(self)@, entry@, r),
    {
        if entry.id.as_str().is_empty() {
            return Err(BridgeError::IdRequired);
        }
        if !is_known_mode(entry.mode.as_str()) {
            return Err(BridgeError::InvalidMode(entry.mode));
        }
        if !is_known_aggregation(entry.aggregation.as_str()) {
            return Err(BridgeError::InvalidAggregation(entry.aggregation));
        }
        if entry.hysteresis.is_below_zero() {
            return Err(BridgeError::NegativeHysteresis);
        }
        let therm_id = entry.id.clone();
        let display_name = entry.name.clone();
        if self.inner.thermostats.contains(therm_id.as_str()) {
            return Err(BridgeError::AlreadyExists(therm_id));
        }
        let from = self.inner.thermostats.sensors();
        self.inner.thermostats.insert(Runtime::new(entry));
        let to = self.inner.thermostats.sensors();
        self.refresh_snapshot();
        Ok(
            Added {
                device_id: device_id_of(therm_id.as_str()),
                therm_id,
                display_name,
                sensors_added: missing_from(&to, &from),
            },
        )
    }

    /// Removes a thermostat, where it is there.
    pub fn remove_thermostat(&mut self, therm_id: &str) -> (r: Result<Removed, BridgeError>)
        requires
            old(self).wf(),
        ensures
            final(self).wf(),
            removal_outcome(old(self)@, final(self)@, therm_id@, r),
    {
        match self.inner.thermostats.remove(therm_id) {
            Some(rt) => {
                self.refresh_snapshot();
                let mine = each_once(&rt.cfg.sensor_device_ids);
                let still_used = self.inner.thermostats.sensors();
                let device_id = device_id_of(therm_id);
                Ok(
                    Removed {
                        state_topic: state_topic(device_id.as_str()),
                        device_id,
                        sensors_removed: missing_from(&mine, &still_used),
                    },
                )
            },
            None => {
                assert(self@.inner.thermostats =~= old(self)@.inner.thermostats);
                Err(BridgeError::NotFound(therm_id.to_owned()))
            },
        }
    }
}

} // verus!
