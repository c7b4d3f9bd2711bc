//! The configuration: its sections, its defaults and when it is accepted.

use crate::json::{duplicate_opt_value, opt_content, JsonNode};
use crate::quantity::{Quantity, ONE};
use crate::text::{
    at_most, duplicate_list, joined, lex_antisymmetric, lex_le, lex_total, lex_transitive,
    same_text, texts,
};
use serde_json::Value;
use vstd::prelude::*;

verus! {

/// A configuration. `L` is the logging section, which is carried along and
/// never read.
pub struct Config<L> {
    pub homecore: HomecoreSection,
    pub logging: L,
    pub thermostats: Vec<ThermostatEntry>,
}

/// How the hub is reached. The broker takes `plugin_id` as the user name; an
/// empty password is an anonymous login.
pub struct HomecoreSection {
    pub plugin_id: String,
    pub broker_host: String,
    pub broker_port: u16,
    pub password: String,
    pub heartbeat_secs: u64,
}

/// One thermostat as it is configured.
pub struct ThermostatEntry {
    pub id: String,
    pub name: String,
    pub sensor_device_ids: Vec<String>,
    pub sensor_attribute: String,
    pub aggregation: String,
    pub setpoint: Quantity,
    pub hysteresis: Quantity,
    pub mode: String,
    pub actuator_device_id: String,
    pub actuator_on_cmd: Option<Value>,
    pub actuator_off_cmd: Option<Value>,
    pub min_on_secs: u64,
    pub min_off_secs: u64,
}

pub struct SectionView {
    pub plugin_id: Seq<char>,
    pub broker_host: Seq<char>,
    pub broker_port: u16,
    pub password: Seq<char>,
    pub heartbeat_secs: u64,
}

pub struct EntryView {
    pub id: Seq<char>,
    pub name: Seq<char>,
    pub sensor_device_ids: Seq<Seq<char>>,
    pub sensor_attribute: Seq<char>,
    pub aggregation: Seq<char>,
    pub setpoint: Quantity,
    pub hysteresis: Quantity,
    pub mode: Seq<char>,
    pub actuator_device_id: Seq<char>,
    pub actuator_on_cmd: Option<JsonNode>,
    pub actuator_off_cmd: Option<JsonNode>,
    pub min_on_secs: u64,
    pub min_off_secs: u64,
}

impl View for HomecoreSection {
    type V = SectionView;

    open spec fn view(&self) -> SectionView {
        SectionView {
            plugin_id: self.plugin_id@,
            broker_host: self.broker_host@,
            broker_port: self.broker_port,
            password: self.password@,
            heartbeat_secs: self.heartbeat_secs,
        }
    }
}

impl View for ThermostatEntry {
    type V = EntryView;

    open spec fn view(&self) -> EntryView {
        EntryView {
            id: self.id@,
            name: self.name@,
            sensor_device_ids: texts(self.sensor_device_ids@),
            sensor_attribute: self.sensor_attribute@,
            aggregation: self.aggregation@,
            setpoint: self.setpoint,
            hysteresis: self.hysteresis,
            mode: self.mode@,
            actuator_device_id: self.actuator_device_id@,
            actuator_on_cmd: opt_content(self.actuator_on_cmd),
            actuator_off_cmd: opt_content(self.actuator_off_cmd),
            min_on_secs: self.min_on_secs,
            min_off_secs: self.min_off_secs,
        }
    }
}

/// The contents of a list of entries.
pub open spec fn entries(list: Seq<ThermostatEntry>) -> Seq<EntryView> {
    list.map_values(|e: ThermostatEntry| e@)
}

pub open spec fn known_mode(mode: Seq<char>) -> bool {
    mode == "heat"@ || mode == "cool"@ || mode == "off"@
}

pub open spec fn known_aggregation(aggregation: Seq<char>) -> bool {
    aggregation == "average"@ || aggregation == "min"@ || aggregation == "max"@
}

pub fn is_known_mode(mode: &str) -> (r: bool)
    ensures
        r == known_mode(mode@),
{
    same_text(mode, "heat") || same_text(mode, "cool") || same_text(mode, "off")
}

pub fn is_known_aggregation(aggregation: &str) -> (r: bool)
    ensures
        r == known_aggregation(aggregation@),
{
    same_text(aggregation, "average") || same_text(aggregation, "min") || same_text(
        aggregation,
        "max",
    )
}

pub fn default_heartbeat_secs() -> (r: u64)
    ensures
        r == 60,
{
    60
}

pub fn default_sensor_attribute() -> (r: String)
    ensures
        r@ == "temperature"@,
{
    "temperature".to_owned()
}

pub fn default_aggregation() -> (r: String)
    ensures
        r@ == "average"@,
{
    "average".to_owned()
}

pub fn default_hysteresis() -> (r: Quantity)
    ensures
        r.bits == ONE,
{
    Quantity { bits: ONE }
}

pub fn default_mode() -> (r: String)
    ensures
        r@ == "off"@,
{
    "off".to_owned()
}

impl ThermostatEntry {
    pub fn duplicate(&self) -> (r: ThermostatEntry)
        ensures
            r@ == self@,
    {
        ThermostatEntry {
            id: self.id.clone(),
            name: self.name.clone(),
            sensor_device_ids: duplicate_list(&self.sensor_device_ids),
            sensor_attribute: self.sensor_attribute.clone(),
            aggregation: self.aggregation.clone(),
            setpoint: self.setpoint,
            hysteresis: self.hysteresis,
            mode: self.mode.clone(),
            actuator_device_id: self.actuator_device_id.clone(),
            actuator_on_cmd: duplicate_opt_value(&self.actuator_on_cmd),
            actuator_off_cmd: duplicate_opt_value(&self.actuator_off_cmd),
            min_on_secs: self.min_on_secs,
            min_off_secs: self.min_off_secs,
        }
    }
}

/// Why a configuration is not accepted.
pub enum ConfigError {
    Unreadable { path: String, cause: String },
    Unparsable { path: String, cause: String },
    PluginIdRequired,
    ThermostatIdRequired,
    UnknownMode { id: String, mode: String },
    UnknownAggregation { id: String, aggregation: String },
    NegativeHysteresis { id: String },
}

pub enum ConfigFault {
    Unreadable { path: Seq<char>, cause: Seq<char> },
    Unparsable { path: Seq<char>, cause: Seq<char> },
    PluginIdRequired,
    ThermostatIdRequired,
    UnknownMode { id: Seq<char>, mode: Seq<char> },
    UnknownAggregation { id: Seq<char>, aggregation: Seq<char> },
    NegativeHysteresis { id: Seq<char> },
}

impl View for ConfigError {
    type V = ConfigFault;

    open spec fn view(&self) -> ConfigFault {
        match self {
            ConfigError::Unreadable { path, cause } => ConfigFault::Unreadable {
                path: path@,
                cause: cause@,
            },
            ConfigError::Unparsable { path, cause } => ConfigFault::Unparsable {
                path: path@,
                cause: cause@,
            },
            ConfigError::PluginIdRequired => ConfigFault::PluginIdRequired,
            ConfigError::ThermostatIdRequired => ConfigFault::ThermostatIdRequired,
            ConfigError::UnknownMode { id, mode } => ConfigFault::UnknownMode {
                id: id@,
                mode: mode@,
            },
            ConfigError::UnknownAggregation { id, aggregation } => ConfigFault::UnknownAggregation {
                id: id@,
                aggregation: aggregation@,
            },
            ConfigError::NegativeHysteresis { id } => ConfigFault::NegativeHysteresis { id: id@ },
        }
    }
}

impl ConfigFault {
    /// What a user is told.
    pub open spec fn told(self) -> Seq<char> {
        match self {
            ConfigFault::Unreadable { path, cause } => "Cannot read config file "@ + path + ": "@
                + cause,
            ConfigFault::Unparsable { path, cause } => "Config parse error in "@ + path + ": "@
                + cause,
            ConfigFault::PluginIdRequired => "homecore.plugin_id is required"@,
            ConfigFault::ThermostatIdRequired => "thermostat id is required"@,
            ConfigFault::UnknownMode { id, mode } => "thermostat "@ + id
                + ": mode must be heat|cool|off (got "@ + mode + ")"@,
            ConfigFault::UnknownAggregation { id, aggregation } => "thermostat "@ + id
                + ": aggregation must be average|min|max (got "@ + aggregation + ")"@,
            ConfigFault::NegativeHysteresis { id } => "thermostat "@ + id
                + ": hysteresis must be non-negative"@,
        }
    }
}

impl ConfigError {
    /// What a user is told.
    pub fn message(&self) -> (r: String)
        ensures
            r@ == self@.told(),
    {
        match self {
            ConfigError::Unreadable { path, cause } => {
                let head = joined("Cannot read config file ", path.as_str());
                joined(joined(head.as_str(), ": ").as_str(), cause.as_str())
            },
            ConfigError::Unparsable { path, cause } => {
                let head = joined("Config parse error in ", path.as_str());
                joined(joined(head.as_str(), ": ").as_str(), cause.as_str())
            },
            ConfigError::PluginIdRequired => "homecore.plugin_id is required".to_owned(),
            ConfigError::ThermostatIdRequired => "thermostat id is required".to_owned(),
            ConfigError::UnknownMode { id, mode } => {
                let head = joined("thermostat ", id.as_str());
                let middle = joined(head.as_str(), ": mode must be heat|cool|off (got ");
                joined(joined(middle.as_str(), mode.as_str()).as_str(), ")")
            },
            ConfigError::UnknownAggregation { id, aggregation } => {
                let head = joined("thermostat ", id.as_str());
                let middle = joined(head.as_str(), ": aggregation must be average|min|max (got ");
                joined(joined(middle.as_str(), aggregation.as_str()).as_str(), ")")
            },
            ConfigError::NegativeHysteresis { id } => {
                let head = joined("thermostat ", id.as_str());
                joined(head.as_str(), ": hysteresis must be non-negative")
            },
        }
    }
}

/// The first fault of one entry, if it has any.
pub open spec fn entry_fault(e: EntryView) -> Option<ConfigFault> {
    if e.id.len() == 0 {
        Some(ConfigFault::ThermostatIdRequired)
    } else if !known_mode(e.mode) {
        Some(ConfigFault::UnknownMode { id: e.id, mode: e.mode })
    } else if !known_aggregation(e.aggregation) {
        Some(ConfigFault::UnknownAggregation { id: e.id, aggregation: e.aggregation })
    } else if e.hysteresis.below_zero() {
        Some(ConfigFault::NegativeHysteresis { id: e.id })
    } else {
        None
    }
}

/// The first fault among some entries, in their order.
pub open spec fn first_fault(list: Seq<EntryView>) -> Option<ConfigFault>
    decreases list.len(),
{
    if list.len() == 0 {
        None
    } else {
        match first_fault(list.drop_last()) {
            Some(fault) => Some(fault),
            None => entry_fault(list.last()),
        }
    }
}

/// The first fault of a configuration: the hub's section comes before the
/// thermostats.
pub open spec fn config_fault(section: SectionView, list: Seq<EntryView>) -> Option<ConfigFault> {
    if section.plugin_id.len() == 0 {
        Some(ConfigFault::PluginIdRequired)
    } else {
        first_fault(list)
    }
}

/// What came of reading and parsing a configuration file.
pub enum ConfigSource<L> {
    Unreadable(String),
    Unparsable(String),
    Parsed(Config<L>),
}

/// What loading a configuration from a path comes to.
pub open spec fn load_outcome<L>(
    path: Seq<char>,
    source: ConfigSource<L>,
    r: Result<Config<L>, ConfigError>,
) -> bool {
    &&& r matches Ok(cfg) ==> source == ConfigSource::Parsed(cfg) && config_fault(
        cfg.homecore@,
        entries(cfg.thermostats@),
    ) is None
    &&& match source {
        ConfigSource::Unreadable(cause) => r matches Err(e) && e@ == (ConfigFault::Unreadable {
            path,
            cause: cause@,
        }),
        ConfigSource::Unparsable(cause) => r matches Err(e) && e@ == (ConfigFault::Unparsable {
            path,
            cause: cause@,
        }),
        ConfigSource::Parsed(cfg) => {
            let fault = config_fault(cfg.homecore@, entries(cfg.thermostats@));
            &&& r is Ok <==> fault is None
            &&& r matches Err(e) ==> fault == Some(e@)
        },
    }
}

/// An earlier fault hides what comes after it.
proof fn first_fault_stays(list: Seq<EntryView>, n: int)
    requires
        0 <= n <= list.len(),
        first_fault(list.take(n)) is Some,
    ensures
        first_fault(list) == first_fault(list.take(n)),
    decreases list.len() - n,
{
    if n < list.len() {
        assert(list.take(n + 1).drop_last() =~= list.take(n));
        first_fault_stays(list, n + 1);
    } else {
        assert(list.take(n) =~= list);
    }
}

/// A list without a fault is one whose entries are all without a fault.
pub proof fn no_fault_means_every_entry_is_sound(list: Seq<EntryView>)
    ensures
        first_fault(list) is None <==> forall|i: int|
            0 <= i < list.len() ==> entry_fault(#[trigger] list[i]) is None,
    decreases list.len(),
{
    if list.len() > 0 {
        let rest = list.drop_last();
        no_fault_means_every_entry_is_sound(rest);
        if forall|i: int| 0 <= i < list.len() ==> entry_fault(#[trigger] list[i]) is None {
            assert forall|i: int| 0 <= i < rest.len() implies entry_fault(
                #[trigger] rest[i],
            ) is None by {
                assert(rest[i] == list[i]);
            }
        }
        if first_fault(list) is None {
            assert forall|i: int| 0 <= i < list.len() implies entry_fault(
                #[trigger] list[i],
            ) is None by {
                if i < rest.len() {
                    assert(rest[i] == list[i]);
                }
            }
        }
    }
}

impl ThermostatEntry {
    /// The first fault of this entry, if it has any.
    pub fn fault(&self) -> (r: Option<ConfigError>)
        ensures
            r is Some <==> entry_fault(self@) is Some,
            r matches Some(e) ==> entry_fault(self@) == Some(e@),
    {
        if self.id.as_str().is_empty() {
            Some(ConfigError::ThermostatIdRequired)
        } else if !is_known_mode(self.mode.as_str()) {
            Some(ConfigError::UnknownMode { id: self.id.clone(), mode: self.mode.clone() })
        } else if !is_known_aggregation(self.aggregation.as_str()) {
            Some(
                ConfigError::UnknownAggregation {
                    id: self.id.clone(),
                    aggregation: self.aggregation.clone(),
                },
            )
        } else if self.hysteresis.is_below_zero() {
            Some(ConfigError::NegativeHysteresis { id: self.id.clone() })
        } else {
            None
        }
    }
}

impl<L> Config<L> {
    /// Whether the configuration is accepted; if not, its first fault.
    pub fn validate(&self) -> (r: Result<(), ConfigError>)
        ensures
            r is Ok <==> config_fault(self.homecore@, entries(self.thermostats@)) is None,
            r matches Err(e) ==> config_fault(self.homecore@, entries(self.thermostats@)) == Some(
                e@,
            ),
    {
        if self.homecore.plugin_id.as_str().is_empty() {
            return Err(ConfigError::PluginIdRequired);
        }
        let ghost list = entries(self.thermostats@);
        for i in 0..self.thermostats.len()
            invariant
                list == entries(self.thermostats@),
                self.homecore@.plugin_id.len() > 0,
                first_fault(list.take(i as int)) is None,
        {
            proof {
                assert(list.take(i + 1).drop_last() =~= list.take(i as int));
                assert(list.take(i + 1).last() == self.thermostats@[i as int]@);
            }
            if let Some(e) = self.thermostats[i].fault() {
                proof {
                    first_fault_stays(list, i + 1);
                }
                return Err(e);
            }
        }
        assert(list.take(list.len() as int) =~= list);
        Ok(())
    }

    /// What loading a configuration from `path` comes to: the file has to be
    /// readable, to parse, and to hold an accepted configuration, which is
    /// then handed on as it is.
    pub fn load(path: &str, source: ConfigSource<L>) -> (r: Result<Config<L>, ConfigError>)
        ensures
            load_outcome(path@, source, r),
    {
        match source {
            ConfigSource::Unreadable(cause) => Err(
                ConfigError::Unreadable { path: path.to_owned(), cause },
            ),
            ConfigSource::Unparsable(cause) => Err(
                ConfigError::Unparsable { path: path.to_owned(), cause },
            ),
            ConfigSource::Parsed(cfg) => match cfg.validate() {
                Ok(()) => Ok(cfg),
                Err(e) => Err(e),
            },
        }
    }
}

/// Entries in the order of their ids.
pub open spec fn sorted_by_id(list: Seq<EntryView>) -> bool {
    forall|i: int, j: int|
        0 <= i <= j < list.len() ==> lex_le((#[trigger] list[i]).id, (#[trigger] list[j]).id)
}

/// Puts an entry into its place in a list that is in the order of the ids.
pub fn insert_by_id(list: &mut Vec<ThermostatEntry>, entry: ThermostatEntry)
    requires
        sorted_by_id(entries(old(list)@)),
    ensures
        sorted_by_id(entries(final(list)@)),
        exists|at: int|
            0 <= at <= old(list)@.len() && final(list)@ == #[trigger] old(list)@.insert(at, entry),
{
    let ghost before = list@;
    let mut at: usize = 0;
    while at < list.len() && at_most(list[at].id.as_str(), entry.id.as_str())
        invariant
            list@ == before,
            at <= list@.len(),
            forall|k: int| 0 <= k < at ==> lex_le((#[trigger] list@[k])@.id, entry@.id),
        decreases list@.len() - at,
    {
        at += 1;
    }
    list.insert(at, entry);
    assert(list@ == before.insert(at as int, entry));
    let ghost e0 = entries(before);
    let ghost e1 = entries(list@);
    assert forall|i: int, j: int| 0 <= i <= j < e1.len() implies lex_le(
        (#[trigger] e1[i]).id,
        (#[trigger] e1[j]).id,
    ) by {
        let p = at as int;
        let x = entry@.id;
        lex_total(x, x);
        if i < p {
            assert(e1[i] == e0[i] && e0[i] == before[i]@);
        } else if i > p {
            assert(e1[i] == e0[i - 1]);
        }
        if j < p {
            assert(e1[j] == e0[j]);
        } else if j > p {
            assert(e1[j] == e0[j - 1]);
        }
        if i == p && j > p {
            assert(e0[p] == before[p]@);
            lex_total(before[p]@.id, x);
            assert(lex_le(x, e0[p].id));
            lex_transitive(x, e0[p].id, e0[j - 1].id);
        }
    }
}

/// Two lists in the order of their ids that hold the same entries, no id
/// twice, are the same list.
pub proof fn sorted_list_is_unique(a: Seq<EntryView>, b: Seq<EntryView>)
    requires
        sorted_by_id(a),
        sorted_by_id(b),
        forall|i: int, j: int| 0 <= i < j < a.len() ==> a[i].id != a[j].id,
        forall|i: int, j: int| 0 <= i < j < b.len() ==> b[i].id != b[j].id,
        forall|e: EntryView| a.contains(e) <==> b.contains(e),
    ensures
        a == b,
    decreases a.len(),
{
    if a.len() == 0 {
        if b.len() > 0 {
            assert(b.contains(b[0]));
        }
        assert(a =~= b);
    } else {
        assert(a.contains(a.last()));
        assert(b.contains(a.last()));
        let k = choose|k: int| 0 <= k < b.len() && b[k] == a.last();
        assert(b.contains(b.last()));
        assert(a.contains(b.last()));
        let m = choose|m: int| 0 <= m < a.len() && a[m] == b.last();
        lex_antisymmetric(a.last().id, b.last().id);
        assert(m == a.len() - 1);
        assert(a.last() == b.last());
        let ra = a.drop_last();
        let rb = b.drop_last();
        assert forall|e: EntryView| ra.contains(e) <==> rb.contains(e) by {
            if ra.contains(e) {
                let i = choose|i: int| 0 <= i < ra.len() && ra[i] == e;
                assert(a[i] == e);
                assert(b.contains(e));
                let j = choose|j: int| 0 <= j < b.len() && b[j] == e;
                assert(j < rb.len());
                assert(rb[j] == e);
            }
            if rb.contains(e) {
                let j = choose|j: int| 0 <= j < rb.len() && rb[j] == e;
                assert(b[j] == e);
                assert(a.contains(e));
                let i = choose|i: int| 0 <= i < a.len() && a[i] == e;
                assert(i < ra.len());
                assert(ra[i] == e);
            }
        }
        sorted_list_is_unique(ra, rb);
        assert(a =~= ra.push(a.last()));
        assert(b =~= rb.push(b.last()));
    }
}

} // verus!
