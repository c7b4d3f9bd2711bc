//! The thermostats by their ids: a list of rows in which no id occurs twice,
//! seen as a map.

use crate::config::{
    entries, insert_by_id, sorted_by_id, sorted_list_is_unique, EntryView, ThermostatEntry,
};
use crate::runtime::{device_of, fresh, thermostat_of, Runtime, RuntimeView};
use crate::text::{add_text, contains_text, names, same_text, texts};
use vstd::prelude::*;

verus! {

/// Thermostats by their ids.
pub type Thermostats = Map<Seq<char>, RuntimeView>;

spec fn is_row(rows: Seq<Runtime>, i: int, id: Seq<char>) -> bool {
    0 <= i < rows.len() && rows[i]@.cfg.id == id
}

spec fn row_of(rows: Seq<Runtime>, id: Seq<char>) -> int {
    choose|i: int| is_row(rows, i, id)
}

/// No id occurs twice.
pub closed spec fn distinct(rows: Seq<Runtime>) -> bool {
    forall|i: int, j: int|
        0 <= i < j < rows.len() ==> (#[trigger] rows[i])@.cfg.id != (#[trigger] rows[j])@.cfg.id
}

/// The rows by their ids.
pub closed spec fn table(rows: Seq<Runtime>) -> Thermostats {
    Map::new(
        |id: Seq<char>| exists|i: int| is_row(rows, i, id),
        |id: Seq<char>| rows[row_of(rows, id)]@,
    )
}

/// Every thermostat stands under its id, and is well formed.
pub open spec fn thermostats_wf(m: Thermostats) -> bool {
    forall|id: Seq<char>| #[trigger]
        m.contains_key(id) ==> m[id].cfg.id == id && m[id].wf()
}

/// Rows that can be seen as a map.
pub closed spec fn rows_wf(rows: Seq<Runtime>) -> bool {
    distinct(rows) && forall|i: int| 0 <= i < rows.len() ==> (#[trigger] rows[i])@.wf()
}

proof fn table_at(rows: Seq<Runtime>, i: int)
    requires
        distinct(rows),
        0 <= i < rows.len(),
    ensures
        table(rows).contains_key(rows[i]@.cfg.id),
        table(rows)[rows[i]@.cfg.id] == rows[i]@,
{
    let id = rows[i]@.cfg.id;
    assert(is_row(rows, i, id));
    let k = row_of(rows, id);
    assert(is_row(rows, k, id));
}

proof fn table_has(rows: Seq<Runtime>, id: Seq<char>) -> (i: int)
    requires
        table(rows).contains_key(id),
    ensures
        0 <= i < rows.len(),
        rows[i]@.cfg.id == id,
        table(rows)[id] == rows[i]@,
{
    let i = row_of(rows, id);
    assert(is_row(rows, i, id));
    i
}

proof fn table_is_wf(rows: Seq<Runtime>)
    requires
        rows_wf(rows),
    ensures
        thermostats_wf(table(rows)),
{
    assert forall|id: Seq<char>| #[trigger] table(rows).contains_key(id) implies table(
        rows,
    )[id].cfg.id == id && table(rows)[id].wf() by {
        let i = table_has(rows, id);
    }
}

proof fn table_updated(rows: Seq<Runtime>, i: int, r: Runtime)
    requires
        rows_wf(rows),
        0 <= i < rows.len(),
        r@.cfg.id == rows[i]@.cfg.id,
        r@.wf(),
    ensures
        rows_wf(rows.update(i, r)),
        table(rows.update(i, r)) == table(rows).insert(r@.cfg.id, r@),
{
    let new = rows.update(i, r);
    let id = r@.cfg.id;
    assert(distinct(new));
    assert forall|x: Seq<char>|
        table(new).contains_key(x) == table(rows).insert(id, r@).contains_key(x) by {
        if table(new).contains_key(x) {
            let k = table_has(new, x);
            table_at(rows, k);
        }
        if table(rows).contains_key(x) {
            let k = table_has(rows, x);
            table_at(new, k);
        }
        table_at(new, i);
    }
    assert forall|x: Seq<char>| #[trigger] table(new).contains_key(x) implies table(new)[x]
        == table(rows).insert(id, r@)[x] by {
        let k = table_has(new, x);
        if k != i {
            table_at(rows, k);
        }
    }
    assert(table(new) =~= table(rows).insert(id, r@));
}

proof fn table_pushed(rows: Seq<Runtime>, r: Runtime)
    requires
        rows_wf(rows),
        !table(rows).contains_key(r@.cfg.id),
        r@.wf(),
    ensures
        rows_wf(rows.push(r)),
        table(rows.push(r)) == table(rows).insert(r@.cfg.id, r@),
{
    let new = rows.push(r);
    let id = r@.cfg.id;
    assert forall|i: int, j: int| 0 <= i < j < new.len() implies (#[trigger] new[i])@.cfg.id != (
    #[trigger] new[j])@.cfg.id by {
        table_at(rows, i);
    }
    assert(distinct(new));
    assert forall|x: Seq<char>|
        table(new).contains_key(x) == table(rows).insert(id, r@).contains_key(x) by {
        if table(new).contains_key(x) {
            let k = table_has(new, x);
            if k < rows.len() {
                table_at(rows, k);
            }
        }
        if table(rows).contains_key(x) {
            let k = table_has(rows, x);
            table_at(new, k);
            assert(new[k] == rows[k]);
        }
        table_at(new, rows.len() as int);
    }
    assert forall|x: Seq<char>| #[trigger] table(new).contains_key(x) implies table(new)[x]
        == table(rows).insert(id, r@)[x] by {
        let k = table_has(new, x);
        if k < rows.len() {
            table_at(rows, k);
        }
    }
    assert(table(new) =~= table(rows).insert(id, r@));
}

proof fn table_removed(rows: Seq<Runtime>, i: int)
    requires
        rows_wf(rows),
        0 <= i < rows.len(),
    ensures
        rows_wf(rows.remove(i)),
        table(rows.remove(i)) == table(rows).remove(rows[i]@.cfg.id),
{
    let new = rows.remove(i);
    let id = rows[i]@.cfg.id;
    assert forall|k: int| 0 <= k < new.len() implies #[trigger] new[k] == rows[if k < i {
        k
    } else {
        k + 1
    }] by {}
    assert(distinct(new));
    assert forall|x: Seq<char>|
        table(new).contains_key(x) == table(rows).remove(id).contains_key(x) by {
        if table(new).contains_key(x) {
            let k = table_has(new, x);
            table_at(rows, if k < i { k } else { k + 1 });
        }
        if table(rows).remove(id).contains_key(x) {
            let k = table_has(rows, x);
            table_at(new, if k < i { k } else { k - 1 });
        }
    }
    assert forall|x: Seq<char>| #[trigger] table(new).contains_key(x) implies table(new)[x]
        == table(rows).remove(id)[x] by {
        let k = table_has(new, x);
        table_at(rows, if k < i { k } else { k + 1 });
    }
    assert(table(new) =~= table(rows).remove(id));
}

/// The table of thermostats.
pub struct ThermostatTable {
    rows: Vec<Runtime>,
}

impl View for ThermostatTable {
    type V = Thermostats;

    closed spec fn view(&self) -> Thermostats {
        table(self.rows@)
    }
}

/// The sensors that some thermostat uses.
pub open spec fn sensor_union(m: Thermostats) -> Set<Seq<char>> {
    Set::new(
        |s: Seq<char>|
            exists|id: Seq<char>| #[trigger]
                m.contains_key(id) && m[id].cfg.sensor_device_ids.contains(s),
    )
}

/// The sensors that some entry lists.
pub open spec fn listed_sensors(list: Seq<EntryView>) -> Set<Seq<char>> {
    Set::new(
        |s: Seq<char>|
            exists|i: int|
                0 <= i < list.len() && (#[trigger] list[i]).sensor_device_ids.contains(s),
    )
}

/// The thermostats that use a sensor.
pub open spec fn watchers(m: Thermostats, sensor: Seq<char>) -> Set<Seq<char>> {
    Set::new(
        |id: Seq<char>| m.contains_key(id) && m[id].cfg.sensor_device_ids.contains(sensor),
    )
}

/// The thermostats that have a call waiting for a lockout to end.
pub open spec fn waiting(m: Thermostats) -> Set<Seq<char>> {
    Set::new(|id: Seq<char>| m.contains_key(id) && m[id].pending_call is Some)
}

/// The devices of the thermostats.
pub open spec fn own_devices(m: Thermostats) -> Set<Seq<char>> {
    Set::new(
        |d: Seq<char>| thermostat_of(d) matches Some(id) && m.contains_key(id) && d == device_of(id),
    )
}

/// The configurations of the thermostats.
pub open spec fn configs_of(m: Thermostats) -> Map<Seq<char>, EntryView> {
    Map::new(|id: Seq<char>| m.contains_key(id), |id: Seq<char>| m[id].cfg)
}

/// Whether a list holds the given configurations, each once, in the order of
/// their ids.
pub open spec fn lists_configs(list: Seq<EntryView>, configs: Map<Seq<char>, EntryView>) -> bool {
    &&& sorted_by_id(list)
    &&& forall|i: int, j: int| 0 <= i < j < list.len() ==> list[i].id != list[j].id
    &&& forall|e: EntryView| #[trigger]
        list.contains(e) <==> configs.contains_key(e.id) && configs[e.id] == e
}

/// There is only one such list.
pub proof fn config_list_is_unique(
    a: Seq<EntryView>,
    b: Seq<EntryView>,
    configs: Map<Seq<char>, EntryView>,
)
    requires
        lists_configs(a, configs),
        lists_configs(b, configs),
    ensures
        a == b,
{
    assert forall|e: EntryView| a.contains(e) <==> b.contains(e) by {}
    sorted_list_is_unique(a, b);
}

/// The thermostats after each entry of a list was taken over, in order: a
/// thermostat that is there keeps its state under its new configuration, and
/// one that is not there starts fresh.
pub open spec fn upserted(m: Thermostats, list: Seq<EntryView>) -> Thermostats
    decreases list.len(),
{
    if list.len() == 0 {
        m
    } else {
        let before = upserted(m, list.drop_last());
        let e = list.last();
        before.insert(
            e.id,
            if before.contains_key(e.id) {
                before[e.id].with_cfg(e)
            } else {
                fresh(e)
            },
        )
    }
}

impl ThermostatTable {
    pub closed spec fn wf(self) -> bool {
        rows_wf(self.rows@)
    }

    /// A table that is well formed is a well-formed map.
    pub proof fn wf_of_map(self)
        requires
            self.wf(),
        ensures
            thermostats_wf(self@),
    {
        table_is_wf(self.rows@);
    }

    pub fn new() -> (r: ThermostatTable)
        ensures
            r.wf(),
            r@ == Map::<Seq<char>, RuntimeView>::empty(),
    {
        let r = ThermostatTable { rows: Vec::new() };
        assert(r@ =~= Map::<Seq<char>, RuntimeView>::empty());
        r
    }

    fn position(&self, id: &str) -> (r: Option<usize>)
        requires
            self.wf(),
        ensures
            r is Some <==> self@.contains_key(id@),
            r matches Some(i) ==> i < self.rows@.len() && self.rows@[i as int]@.cfg.id == id@
                && self@[id@] == self.rows@[i as int]@,
    {
        for i in 0..self.rows.len()
            invariant
                self.wf(),
                forall|k: int| 0 <= k < i ==> (#[trigger] self.rows@[k])@.cfg.id != id@,
        {
            if same_text(self.rows[i].cfg.id.as_str(), id) {
                proof {
                    table_at(self.rows@, i as int);
                }
                return Some(i);
            }
        }
        proof {
            if self@.contains_key(id@) {
                let k = table_has(self.rows@, id@);
            }
        }
        None
    }

    pub fn contains(&self, id: &str) -> (r: bool)
        requires
            self.wf(),
        ensures
            r == self@.contains_key(id@),
    {
        self.position(id).is_some()
    }

    /// The thermostat with an id.
    pub fn get(&self, id: &str) -> (r: Option<&Runtime>)
        requires
            self.wf(),
        ensures
            r is Some <==> self@.contains_key(id@),
            r matches Some(rt) ==> rt@ == self@[id@] && rt@.cfg.id == id@ && rt@.wf(),
    {
        match self.position(id) {
            Some(i) => Some(&self.rows[i]),
            None => None,
        }
    }

    /// The thermostat with an id, to be changed in place. It has to keep its
    /// id, and to stay well formed.
    pub fn get_mut(&mut self, id: &str) -> (r: Option<&mut Runtime>)
        requires
            old(self).wf(),
        ensures
            r is Some <==> old(self)@.contains_key(id@),
            r is None ==> *final(self) == *old(self),
            r matches Some(rt) ==> {
                &&& rt@ == old(self)@[id@]
                &&& rt@.cfg.id == id@
                &&& rt@.wf()
                &&& final(rt)@.cfg.id == id@ && final(rt)@.wf() ==> {
                    &&& final(self).wf()
                    &&& final(self)@ == old(self)@.insert(id@, final(rt)@)
                }
            },
    {
        match self.position(id) {
            Some(i) => {
                proof {
                    let ghost_rows = self.rows@;
                    assert forall|r: Runtime| r@.cfg.id == id@ && r@.wf() implies rows_wf(
                        ghost_rows.update(i as int, r),
                    ) && #[trigger] table(ghost_rows.update(i as int, r)) == table(
                        ghost_rows,
                    ).insert(id@, r@) by {
                        table_updated(ghost_rows, i as int, r);
                    }
                }
                Some(&mut self.rows[i])
            },
            None => None,
        }
    }

    /// Adds a thermostat whose id is not there yet.
    pub fn insert(&mut self, rt: Runtime)
        requires
            old(self).wf(),
            !old(self)@.contains_key(rt@.cfg.id),
            rt@.wf(),
        ensures
            final(self).wf(),
            final(self)@ == old(self)@.insert(rt@.cfg.id, rt@),
    {
        proof {
            table_pushed(self.rows@, rt);
        }
        self.rows.push(rt);
    }

    /// Takes a thermostat out, where it is there.
    pub fn remove(&mut self, id: &str) -> (r: Option<Runtime>)
        requires
            old(self).wf(),
        ensures
            final(self).wf(),
            final(self)@ == old(self)@.remove(id@),
            r is Some <==> old(self)@.contains_key(id@),
            r matches Some(rt) ==> rt@ == old(self)@[id@],
    {
        match self.position(id) {
            Some(i) => {
                proof {
                    table_removed(self.rows@, i as int);
                }
                Some(self.rows.remove(i))
            },
            None => {
                assert(self@.remove(id@) =~= self@);
                None
            },
        }
    }

    /// Takes an entry over: as the new configuration of the thermostat with
    /// its id, or else as a fresh thermostat.
    pub fn upsert(&mut self, entry: ThermostatEntry)
        requires
            old(self).wf(),
        ensures
            final(self).wf(),
            final(self)@ == old(self)@.insert(
                entry@.id,
                if old(self)@.contains_key(entry@.id) {
                    old(self)@[entry@.id].with_cfg(entry@)
                } else {
                    fresh(entry@)
                },
            ),
    {
        let id = entry.id.clone();
        if self.contains(id.as_str()) {
            if let Some(rt) = self.get_mut(id.as_str()) {
                rt.cfg = entry;
            }
        } else {
            self.insert(Runtime::new(entry));
        }
    }

    /// Takes each entry of a list over, in order.
    pub fn upsert_all(&mut self, list: &Vec<ThermostatEntry>)
        requires
            old(self).wf(),
        ensures
            final(self).wf(),
            final(self)@ == upserted(old(self)@, entries(list@)),
    {
        let ghost before = self@;
        for i in 0..list.len()
            invariant
                self.wf(),
                self@ == upserted(before, entries(list@).take(i as int)),
        {
            proof {
                assert(entries(list@).take(i + 1).drop_last() =~= entries(list@).take(i as int));
                assert(entries(list@).take(i + 1).last() == list@[i as int]@);
            }
            self.upsert(list[i].duplicate());
        }
        assert(entries(list@).take(list@.len() as int) =~= entries(list@));
    }

    /// The sensors that some thermostat uses, each once.
    pub fn sensors(&self) -> (r: Vec<String>)
        requires
            self.wf(),
        ensures
            texts(r@).no_duplicates(),
            names(r@) == sensor_union(self@),
    {
        let mut r: Vec<String> = Vec::new();
        for i in 0..self.rows.len()
            invariant
                texts(r@).no_duplicates(),
                forall|s: Seq<char>| #[trigger]
                    names(r@).contains(s) <==> exists|k: int|
                        0 <= k < i && (
                        #[trigger] self.rows@[k])@.cfg.sensor_device_ids.contains(s),
        {
            let ids = &self.rows[i].cfg.sensor_device_ids;
            let ghost before = names(r@);
            for j in 0..ids.len()
                invariant
                    ids == &self.rows@[i as int].cfg.sensor_device_ids,
                    texts(r@).no_duplicates(),
                    forall|s: Seq<char>| #[trigger]
                        names(r@).contains(s) <==> before.contains(s) || texts(ids@).take(
                            j as int,
                        ).contains(s),
            {
                let ghost sofar = texts(ids@).take(j as int);
                let ghost next = texts(ids@).take(j + 1);
                let ghost held = names(r@);
                add_text(&mut r, &ids[j]);
                proof {
                    assert(next =~= sofar.push(ids@[j as int]@));
                    assert forall|s: Seq<char>| #[trigger]
                        names(r@).contains(s) <==> before.contains(s) || next.contains(s) by {
                        if sofar.contains(s) {
                            let k = choose|k: int| 0 <= k < sofar.len() && sofar[k] == s;
                            assert(next[k] == s);
                        }
                        if s == ids@[j as int]@ {
                            assert(next[j as int] == s);
                        }
                        if next.contains(s) && s != ids@[j as int]@ {
                            let k = choose|k: int| 0 <= k < next.len() && next[k] == s;
                            assert(sofar[k] == s);
                        }
                        assert(names(r@).contains(s) <==> held.contains(s) || s
                            == ids@[j as int]@);
                    }
                }
            }
            assert(texts(ids@).take(ids@.len() as int) =~= texts(ids@));
            assert(self.rows@[i as int]@.cfg.sensor_device_ids == texts(ids@));
        }
        proof {
            assert forall|s: Seq<char>|
                names(r@).contains(s) <==> sensor_union(self@).contains(s) by {
                if names(r@).contains(s) {
                    let k = choose|k: int|
                        0 <= k < self.rows@.len() && (
                        #[trigger] self.rows@[k])@.cfg.sensor_device_ids.contains(s);
                    table_at(self.rows@, k);
                }
                if sensor_union(self@).contains(s) {
                    let id = choose|id: Seq<char>| #[trigger]
                        self@.contains_key(id) && self@[id].cfg.sensor_device_ids.contains(s);
                    let k = table_has(self.rows@, id);
                }
            }
            assert(names(r@) =~= sensor_union(self@));
        }
        r
    }

    /// The ids of the thermostats, each once.
    pub fn ids(&self) -> (r: Vec<String>)
        requires
            self.wf(),
        ensures
            texts(r@).no_duplicates(),
            names(r@) == self@.dom(),
    {
        let mut r: Vec<String> = Vec::new();
        for i in 0..self.rows.len()
            invariant
                self.wf(),
                texts(r@).no_duplicates(),
                forall|s: Seq<char>| #[trigger]
                    names(r@).contains(s) <==> exists|k: int|
                        0 <= k < i && (#[trigger] self.rows@[k])@.cfg.id == s,
        {
            add_text(&mut r, &self.rows[i].cfg.id);
        }
        proof {
            assert forall|s: Seq<char>| names(r@).contains(s) <==> self@.dom().contains(s) by {
                if names(r@).contains(s) {
                    let k = choose|k: int|
                        0 <= k < self.rows@.len() && (#[trigger] self.rows@[k])@.cfg.id == s;
                    table_at(self.rows@, k);
                }
                if self@.contains_key(s) {
                    let k = table_has(self.rows@, s);
                }
            }
            assert(names(r@) =~= self@.dom());
        }
        r
    }

    /// The ids of the thermostats that use a sensor, each once.
    pub fn watching(&self, sensor: &str) -> (r: Vec<String>)
        requires
            self.wf(),
        ensures
            texts(r@).no_duplicates(),
            names(r@) == watchers(self@, sensor@),
    {
        let mut r: Vec<String> = Vec::new();
        for i in 0..self.rows.len()
            invariant
                self.wf(),
                texts(r@).no_duplicates(),
                forall|s: Seq<char>| #[trigger]
                    names(r@).contains(s) <==> exists|k: int|
                        0 <= k < i && (#[trigger] self.rows@[k])@.cfg.id == s
                            && self.rows@[k]@.cfg.sensor_device_ids.contains(sensor@),
        {
            if contains_text(&self.rows[i].cfg.sensor_device_ids, sensor) {
                add_text(&mut r, &self.rows[i].cfg.id);
            }
        }
        proof {
            assert forall|s: Seq<char>|
                names(r@).contains(s) <==> watchers(self@, sensor@).contains(s) by {
                if names(r@).contains(s) {
                    let k = choose|k: int|
                        0 <= k < self.rows@.len() && (#[trigger] self.rows@[k])@.cfg.id == s
                            && self.rows@[k]@.cfg.sensor_device_ids.contains(sensor@);
                    table_at(self.rows@, k);
                }
                if watchers(self@, sensor@).contains(s) {
                    let k = table_has(self.rows@, s);
                }
            }
            assert(names(r@) =~= watchers(self@, sensor@));
        }
        r
    }

    /// The ids of the thermostats that have a call waiting, each once.
    pub fn with_pending_call(&self) -> (r: Vec<String>)
        requires
            self.wf(),
        ensures
            texts(r@).no_duplicates(),
            names(r@) == waiting(self@),
    {
        let mut r: Vec<String> = Vec::new();
        for i in 0..self.rows.len()
            invariant
                self.wf(),
                texts(r@).no_duplicates(),
                forall|s: Seq<char>| #[trigger]
                    names(r@).contains(s) <==> exists|k: int|
                        0 <= k < i && (#[trigger] self.rows@[k])@.cfg.id == s
                            && self.rows@[k]@.pending_call is Some,
        {
            if self.rows[i].pending_call.is_some() {
                add_text(&mut r, &self.rows[i].cfg.id);
            }
        }
        proof {
            assert forall|s: Seq<char>|
                names(r@).contains(s) <==> waiting(self@).contains(s) by {
                if names(r@).contains(s) {
                    let k = choose|k: int|
                        0 <= k < self.rows@.len() && (#[trigger] self.rows@[k])@.cfg.id == s
                            && self.rows@[k]@.pending_call is Some;
                    table_at(self.rows@, k);
                }
                if waiting(self@).contains(s) {
                    let k = table_has(self.rows@, s);
                }
            }
            assert(names(r@) =~= waiting(self@));
        }
        r
    }

    /// The configurations of the thermostats, in the order of their ids.
    pub fn configs(&self) -> (r: Vec<ThermostatEntry>)
        requires
            self.wf(),
        ensures
            lists_configs(entries(r@), configs_of(self@)),
    {
        let mut r: Vec<ThermostatEntry> = Vec::new();
        for i in 0..self.rows.len()
            invariant
                self.wf(),
                sorted_by_id(entries(r@)),
                forall|a: int, b: int|
                    0 <= a < b < r@.len() ==> entries(r@)[a].id != entries(r@)[b].id,
                forall|e: EntryView| #[trigger]
                    entries(r@).contains(e) <==> exists|k: int|
                        0 <= k < i && (#[trigger] self.rows@[k])@.cfg == e,
        {
            let entry = self.rows[i].cfg.duplicate();
            let ghost new = entry@;
            let ghost before = entries(r@);
            let ghost raw = r@;
            insert_by_id(&mut r, entry);
            proof {
                let at = choose|at: int|
                    0 <= at <= raw.len() && r@ == #[trigger] raw.insert(at, entry);
                let now = entries(r@);
                assert(now =~= before.insert(at, new));
                assert forall|a: int| 0 <= a < before.len() implies (#[trigger] before[a]).id
                    != new.id by {
                    assert(before.contains(before[a]));
                    let k = choose|k: int|
                        0 <= k < i && (#[trigger] self.rows@[k])@.cfg == before[a];
                    assert(self.rows@[k]@.cfg.id != self.rows@[i as int]@.cfg.id);
                }
                assert forall|a: int, b: int| 0 <= a < b < now.len() implies now[a].id
                    != now[b].id by {
                    let pa = if a < at { a } else { a - 1 };
                    let pb = if b < at { b } else { b - 1 };
                    if a != at {
                        assert(now[a] == before[pa]);
                    }
                    if b != at {
                        assert(now[b] == before[pb]);
                    }
                }
                assert forall|e: EntryView| #[trigger]
                    now.contains(e) <==> exists|k: int|
                        0 <= k < i + 1 && (#[trigger] self.rows@[k])@.cfg == e by {
                    if now.contains(e) {
                        let p = choose|p: int| 0 <= p < now.len() && now[p] == e;
                        if p == at {
                            assert(self.rows@[i as int]@.cfg == e);
                        } else {
                            let q = if p < at { p } else { p - 1 };
                            assert(before[q] == e);
                            assert(before.contains(e));
                        }
                    }
                    if exists|k: int| 0 <= k < i + 1 && (#[trigger] self.rows@[k])@.cfg == e {
                        let k = choose|k: int|
                            0 <= k < i + 1 && (#[trigger] self.rows@[k])@.cfg == e;
                        if k == i {
                            assert(now[at] == e);
                        } else {
                            assert(before.contains(e));
                            let q = choose|q: int| 0 <= q < before.len() && before[q] == e;
                            assert(now[if q < at { q } else { q + 1 }] == e);
                        }
                    }
                }
            }
        }
        proof {
            let list = entries(r@);
            let configs = configs_of(self@);
            assert forall|e: EntryView| #[trigger]
                list.contains(e) <==> configs.contains_key(e.id) && configs[e.id] == e by {
                if list.contains(e) {
                    let k = choose|k: int|
                        0 <= k < self.rows@.len() && (#[trigger] self.rows@[k])@.cfg == e;
                    table_at(self.rows@, k);
                }
                if configs.contains_key(e.id) && configs[e.id] == e {
                    let k = table_has(self.rows@, e.id);
                }
            }
        }
        r
    }
}

} // verus!
