//! Quests and their missions: when they count as started or completed by a
//! player's storage values, and which mission description applies.
use vstd::prelude::*;
use std::collections::{BTreeMap, HashMap};
use vstd::std_specs::iter::IteratorSpec;

verus! {

/// A mission of a quest, tracked by one storage value.
#[derive(Debug, Clone)]
pub struct Mission {
    pub name: String,
    pub storage_id: u32,
    pub start_value: i32,
    pub end_value: i32,
    pub ignore_end_value: bool,
    pub main_description: String,
    pub descriptions: BTreeMap<i32, String>,
}

/// A quest: its id, name, the storage value that starts it, and its
/// missions.
#[derive(Debug, Clone)]
pub struct Quest {
    pub id: u16,
    pub name: String,
    pub start_storage_id: u32,
    pub start_storage_value: i32,
    pub missions: Vec<Mission>,
}

/// The value stored under `key`, if any.
pub open spec fn stored(storage: Map<u32, i32>, key: u32) -> Option<i32> {
    if storage.contains_key(key) {
        Some(storage[key])
    } else {
        None
    }
}

/// Whether a mission has started: its storage value reached the start.
pub open spec fn mission_started(m: Mission, storage: Map<u32, i32>) -> bool {
    match stored(storage, m.storage_id) {
        Some(v) => v >= m.start_value,
        None => false,
    }
}

/// Whether a mission is completed: it has an end and its storage value
/// reached it.
pub open spec fn mission_completed(m: Mission, storage: Map<u32, i32>) -> bool {
    !m.ignore_end_value && match stored(storage, m.storage_id) {
        Some(v) => v >= m.end_value,
        None => false,
    }
}

/// Whether a quest has started: its start storage value reached its start.
pub open spec fn quest_started(q: Quest, storage: Map<u32, i32>) -> bool {
    match stored(storage, q.start_storage_id) {
        Some(v) => v >= q.start_storage_value,
        None => false,
    }
}

/// Whether a quest is completed: started, with every mission completed.
pub open spec fn quest_completed(q: Quest, storage: Map<u32, i32>) -> bool {
    quest_started(q, storage) && forall|i: int|
        0 <= i < q.missions@.len() ==> mission_completed(#[trigger] q.missions@[i], storage)
}

/// The largest key of `m` not above `v`, if any.
pub open spec fn floor_key(m: Map<i32, String>, v: i32) -> Option<i32> {
    if exists|k: i32| m.contains_key(k) && k <= v {
        Some(
            choose|k: i32|
                m.contains_key(k) && k <= v && forall|k2: i32| #[trigger]
                    m.contains_key(k2) && k2 <= v ==> k2 <= k,
        )
    } else {
        None
    }
}

/// The description a mission shows for storage value `v`: the one of the
/// largest state not above `v`, else the main description.
pub open spec fn mission_description(m: Mission, v: i32) -> Seq<char> {
    match floor_key(m.descriptions@, v) {
        Some(k) => m.descriptions@[k]@,
        None => m.main_description@,
    }
}

fn lookup(storage: &HashMap<u32, i32>, key: u32) -> (r: Option<i32>)
    ensures
        r == stored(storage@, key),
{
    match storage.get(&key) {
        Some(v) => Some(*v),
        None => None,
    }
}

impl Mission {
    /// Whether the mission has started for a player with these storage
    /// values.
    pub fn is_started(&self, storage: &HashMap<u32, i32>) -> (r: bool)
        ensures
            r == mission_started(*self, storage@),
    {
        match lookup(storage, self.storage_id) {
            Some(v) => v >= self.start_value,
            None => false,
        }
    }

    /// Whether the mission is completed for a player with these storage
    /// values.
    pub fn is_completed(&self, storage: &HashMap<u32, i32>) -> (r: bool)
        ensures
            r == mission_completed(*self, storage@),
    {
        if self.ignore_end_value {
            return false;
        }
        match lookup(storage, self.storage_id) {
            Some(v) => v >= self.end_value,
            None => false,
        }
    }

    /// The description the mission shows for a player with these storage
    /// values (an absent value counts as 0).
    pub fn get_description(&self, storage: &HashMap<u32, i32>) -> (r: &str)
        ensures
            r@ == mission_description(
                *self,
                match stored(storage@, self.storage_id) {
                    Some(v) => v,
                    None => 0,
                },
            ),
    {
        let value = match lookup(storage, self.storage_id) {
            Some(v) => v,
            None => 0,
        };
        let ghost m = self.descriptions@;
        let ghost all = vstd::std_specs::btree::spec_btree_map_iter(&self.descriptions).remaining();
        let mut best: Option<i32> = None;
        for kv in it: self.descriptions.iter()
            invariant
                m == self.descriptions@,
                it.seq() == all,
                match best {
                    Some(b) => m.contains_key(b) && b <= value && forall|j: int|
                        0 <= j < it.index() && *(#[trigger] it.seq()[j]).0 <= value ==> *it.seq()[j].0 <= b,
                    None => forall|j: int| 0 <= j < it.index() ==> *(#[trigger] it.seq()[j]).0 > value,
                },
        {
            let k = *kv.0;
            if k <= value {
                match best {
                    Some(b) => {
                        if k > b {
                            best = Some(k);
                        }
                    },
                    None => {
                        best = Some(k);
                    },
                }
            }
        }
        match best {
            Some(b) => {
                proof {
                    assert forall|k2: i32| #[trigger] m.contains_key(k2) && k2 <= value implies k2 <= b by {
                        assert(all.contains((&k2, &m[k2])));
                    }
                }
                match self.descriptions.get(&b) {
                    Some(d) => d.as_str(),
                    None => vstd::pervasive::unreached(),
                }
            },
            None => {
                proof {
                    assert forall|k2: i32| m.contains_key(k2) implies k2 > value by {
                        assert(all.contains((&k2, &m[k2])));
                    }
                }
                self.main_description.as_str()
            },
        }
    }
}

impl Quest {
    /// Whether the quest has started for a player with these storage
    /// values.
    pub fn is_started(&self, storage: &HashMap<u32, i32>) -> (r: bool)
        ensures
            r == quest_started(*self, storage@),
    {
        match lookup(storage, self.start_storage_id) {
            Some(v) => v >= self.start_storage_value,
            None => false,
        }
    }

    /// Whether the quest is completed for a player with these storage
    /// values.
    pub fn is_completed(&self, storage: &HashMap<u32, i32>) -> (r: bool)
        ensures
            r == quest_completed(*self, storage@),
    {
        if !self.is_started(storage) {
            return false;
        }
        let mut i: usize = 0;
        while i < self.missions.len()
            invariant
                i <= self.missions@.len(),
                forall|j: int| 0 <= j < i ==> mission_completed(#[trigger] self.missions@[j], storage@),
            decreases self.missions@.len() - i,
        {
            if !self.missions[i].is_completed(storage) {
                return false;
            }
            i = i + 1;
        }
        true
    }
}

/// What the first mission from index `j` on that tracks `key` with `value`
/// inside its range says about a storage change from `old_value`: that it
/// is a quest change when the mission has no main description or
/// `old_value` was outside the range. `None` when no mission matches.
pub open spec fn missions_verdict(ms: Seq<Mission>, key: u32, value: i32, old_value: i32, j: int) -> Option<bool>
    decreases ms.len() - j,
{
    if j < 0 || j >= ms.len() {
        None
    } else {
        let m = ms[j];
        if m.storage_id == key && value >= m.start_value && value <= m.end_value {
            Some(m.main_description@.len() == 0 || old_value < m.start_value || old_value > m.end_value)
        } else {
            missions_verdict(ms, key, value, old_value, j + 1)
        }
    }
}

/// Whether a storage change concerns the quests from index `i` on: the
/// first quest started by it, or the first mission that tracks it, decides.
pub open spec fn quests_verdict(qs: Seq<Quest>, key: u32, value: i32, old_value: i32, i: int) -> bool
    decreases qs.len() - i,
{
    if i < 0 || i >= qs.len() {
        false
    } else {
        let q = qs[i];
        if q.start_storage_id == key && q.start_storage_value == value {
            true
        } else {
            match missions_verdict(q.missions@, key, value, old_value, 0) {
                Some(b) => b,
                None => quests_verdict(qs, key, value, old_value, i + 1),
            }
        }
    }
}

/// All quests, in the order of their ids.
#[derive(Debug, Clone)]
pub struct Quests {
    quests: Vec<Quest>,
}

impl View for Quests {
    type V = Seq<Quest>;

    closed spec fn view(&self) -> Seq<Quest> {
        self.quests@
    }
}

impl Default for Quests {
    fn default() -> (q: Self)
        ensures
            q@ == Seq::<Quest>::empty(),
    {
        Quests { quests: Vec::new() }
    }
}

impl Quests {
    /// The first quest with id `id`.
    pub fn get_quest_by_id(&self, id: u16) -> (r: Option<&Quest>)
        ensures
            match r {
                Some(q) => exists|i: int|
                    0 <= i < self@.len() && self@[i] == *q && q.id == id && forall|j: int|
                        0 <= j < i ==> (#[trigger] self@[j]).id != id,
                None => forall|j: int| 0 <= j < self@.len() ==> (#[trigger] self@[j]).id != id,
            },
    {
        let mut i: usize = 0;
        while i < self.quests.len()
            invariant
                i <= self@.len(),
                forall|j: int| 0 <= j < i ==> (#[trigger] self@[j]).id != id,
            decreases self@.len() - i,
        {
            if self.quests[i].id == id {
                return Some(&self.quests[i]);
            }
            i = i + 1;
        }
        None
    }

    /// Whether changing storage `key` from `old_value` to `value` is a
    /// change of quest state the player should be told about (see
    /// `quests_verdict`).
    pub fn is_quest_storage(&self, key: u32, value: i32, old_value: i32) -> (r: bool)
        ensures
            r == quests_verdict(self@, key, value, old_value, 0),
    {
        let mut i: usize = 0;
        while i < self.quests.len()
            invariant
                i <= self@.len(),
                quests_verdict(self@, key, value, old_value, 0) == quests_verdict(
                    self@,
                    key,
                    value,
                    old_value,
                    i as int,
                ),
            decreases self@.len() - i,
        {
            let quest = &self.quests[i];
            if quest.start_storage_id == key && quest.start_storage_value == value {
                return true;
            }
            let mut j: usize = 0;
            while j < quest.missions.len()
                invariant
                    j <= quest.missions@.len(),
                    i < self@.len(),
                    *quest == self@[i as int],
                    !(quest.start_storage_id == key && quest.start_storage_value == value),
                    quests_verdict(self@, key, value, old_value, 0) == quests_verdict(
                        self@,
                        key,
                        value,
                        old_value,
                        i as int,
                    ),
                    missions_verdict(quest.missions@, key, value, old_value, 0) == missions_verdict(
                        quest.missions@,
                        key,
                        value,
                        old_value,
                        j as int,
                    ),
                decreases quest.missions@.len() - j,
            {
                let mission = &quest.missions[j];
                if mission.storage_id == key && value >= mission.start_value && value
                    <= mission.end_value {
                    return mission.main_description.as_str().is_empty() || old_value < mission.start_value
                        || old_value > mission.end_value;
                }
                j = j + 1;
            }
            i = i + 1;
        }
        false
    }

    /// All quests.
    pub fn get_quests(&self) -> (r: &[Quest])
        ensures
            r@ == self@,
    {
        self.quests.as_slice()
    }
}

/// A mission state as the quests file gives it: a storage value and the
/// description shown from it on.
#[derive(Debug, Clone)]
pub struct MissionStateEntry {
    pub id: i32,
    pub description: String,
}

/// A mission as the quests file gives it.
#[derive(Debug, Clone)]
pub struct MissionEntry {
    pub name: String,
    pub storageid: i32,
    pub startvalue: i32,
    pub endvalue: i32,
    pub ignoreendvalue: Option<bool>,
    pub description: Option<String>,
    pub missionstates: Option<Vec<MissionStateEntry>>,
}

/// A quest as the quests file gives it.
#[derive(Debug, Clone)]
pub struct QuestEntry {
    pub name: String,
    pub startstorageid: i32,
    pub startstoragevalue: i32,
    pub missions: Option<Vec<MissionEntry>>,
}

/// The descriptions of mission states, a later state replacing an earlier
/// one with the same value.
pub open spec fn states_map(states: Seq<MissionStateEntry>) -> Map<i32, String>
    decreases states.len(),
{
    if states.len() == 0 {
        Map::empty()
    } else {
        states_map(states.drop_last()).insert(states.last().id, states.last().description)
    }
}

/// Whether `m` is the mission that file entry `e` describes.
pub open spec fn is_mission_of(m: Mission, e: MissionEntry) -> bool {
    &&& m.name == e.name
    &&& m.storage_id == e.storageid as u32
    &&& m.start_value == e.startvalue
    &&& m.end_value == e.endvalue
    &&& m.ignore_end_value == match e.ignoreendvalue {
        Some(b) => b,
        None => false,
    }
    &&& m.main_description@ == match e.description {
        Some(d) => d@,
        None => Seq::empty(),
    }
    &&& m.descriptions@ == match e.missionstates {
        Some(states) => states_map(states@),
        None => Map::empty(),
    }
}

/// The id of the quest at position `index` of the file: its place counted
/// from 1, capped at the largest `u16`.
pub open spec fn quest_id_at(index: int) -> u16 {
    if index + 1 <= u16::MAX {
        (index + 1) as u16
    } else {
        u16::MAX
    }
}

/// Whether `q` is the quest that file entry `e` at position `index`
/// describes.
pub open spec fn is_quest_of(q: Quest, e: QuestEntry, index: int) -> bool {
    &&& q.id == quest_id_at(index)
    &&& q.name == e.name
    &&& q.start_storage_id == e.startstorageid as u32
    &&& q.start_storage_value == e.startstoragevalue
    &&& match e.missions {
        Some(ms) => q.missions@.len() == ms@.len() && forall|j: int|
            0 <= j < ms@.len() ==> is_mission_of(#[trigger] q.missions@[j], ms@[j]),
        None => q.missions@.len() == 0,
    }
}

fn mission_from_entry(e: MissionEntry) -> (m: Mission)
    ensures
        is_mission_of(m, e),
{
    let ghost e0 = e;
    let mut descriptions: BTreeMap<i32, String> = BTreeMap::new();
    match e.missionstates {
        Some(mut states) => {
            let ghost all = states@;
            let total: usize = states.len();
            let mut n: usize = 0;
            while states.len() > 0
                invariant
                    n + states@.len() == all.len(),
                    all.len() == total,
                    states@ == all.skip(n as int),
                    descriptions@ == states_map(all.take(n as int)),
                decreases states@.len(),
            {
                let st = states.remove(0);
                proof {
                    assert(all.take(n + 1).drop_last() =~= all.take(n as int));
                    assert(all.take(n + 1).last() == st);
                    assert(states@ =~= all.skip(n + 1));
                }
                descriptions.insert(st.id, st.description);
                n = n + 1;
            }
            assert(all.take(n as int) =~= all);
        },
        None => {},
    }
    let ghost d = descriptions@;
    let m = Mission {
        name: e.name,
        storage_id: #[verifier::truncate] (e.storageid as u32),
        start_value: e.startvalue,
        end_value: e.endvalue,
        ignore_end_value: match e.ignoreendvalue {
            Some(b) => b,
            None => false,
        },
        main_description: match e.description {
            Some(d) => d,
            None => String::new(),
        },
        descriptions,
    };
    m
}

impl Quests {
    /// The quests the file's entries describe, numbered from 1 in file
    /// order.
    pub fn from_entries(entries: Vec<QuestEntry>) -> (qs: Quests)
        ensures
            qs@.len() == entries@.len(),
            forall|i: int| 0 <= i < entries@.len() ==> is_quest_of(#[trigger] qs@[i], entries@[i], i),
    {
        let ghost all = entries@;
        let total: usize = entries.len();
        let mut entries = entries;
        let mut quests: Vec<Quest> = Vec::new();
        let mut n: usize = 0;
        while entries.len() > 0
            invariant
                n + entries@.len() == all.len(),
                all.len() == total,
                entries@ == all.skip(n as int),
                quests@.len() == n,
                forall|i: int| 0 <= i < n ==> is_quest_of(#[trigger] quests@[i], all[i], i),
            decreases entries@.len(),
        {
            let e = entries.remove(0);
            proof {
                assert(e == all[n as int]);
                assert(entries@ =~= all.skip(n + 1));
            }
            let id: u16 = if n < 65535 { (n + 1) as u16 } else { 65535 };
            let mut missions: Vec<Mission> = Vec::new();
            match e.missions {
                Some(mut ms) => {
                    let ghost mall = ms@;
                    let mtotal: usize = ms.len();
                    let mut k: usize = 0;
                    while ms.len() > 0
                        invariant
                            k + ms@.len() == mall.len(),
                            mall.len() == mtotal,
                            ms@ == mall.skip(k as int),
                            missions@.len() == k,
                            forall|j: int| 0 <= j < k ==> is_mission_of(#[trigger] missions@[j], mall[j]),
                        decreases ms@.len(),
                    {
                        let me = ms.remove(0);
                        proof {
                            assert(me == mall[k as int]);
                            assert(ms@ =~= mall.skip(k + 1));
                        }
                        missions.push(mission_from_entry(me));
                        k = k + 1;
                    }
                },
                None => {},
            }
            quests.push(
                Quest {
                    id,
                    name: e.name,
                    start_storage_id: #[verifier::truncate] (e.startstorageid as u32),
                    start_storage_value: e.startstoragevalue,
                    missions,
                },
            );
            n = n + 1;
        }
        Quests { quests }
    }
}

/// A completed mission whose end is not below its start has started.
pub proof fn law_completed_mission_started(m: Mission, storage: Map<u32, i32>)
    requires
        mission_completed(m, storage),
        m.end_value >= m.start_value,
    ensures
        mission_started(m, storage),
{
}

/// A completed quest has started.
pub proof fn law_completed_quest_started(q: Quest, storage: Map<u32, i32>)
    requires
        quest_completed(q, storage),
    ensures
        quest_started(q, storage),
{
}


/// A quest is not completed while one of its missions is unfinished: it
/// has no end, or its storage value is missing or below its end.
pub proof fn law_unfinished_mission_keeps_quest_open(q: Quest, storage: Map<u32, i32>, i: int)
    requires
        0 <= i < q.missions@.len(),
        q.missions@[i].ignore_end_value || !storage.contains_key(q.missions@[i].storage_id)
            || storage[q.missions@[i].storage_id] < q.missions@[i].end_value,
    ensures
        !quest_completed(q, storage),
{
    assert(!mission_completed(q.missions@[i], storage));
}

/// A quest whose start storage value reached its start, and each of whose
/// missions has an end that its storage value reached, is completed.
pub proof fn law_finished_missions_complete_quest(q: Quest, storage: Map<u32, i32>)
    requires
        storage.contains_key(q.start_storage_id),
        storage[q.start_storage_id] >= q.start_storage_value,
        forall|i: int|
            0 <= i < q.missions@.len() ==> !(#[trigger] q.missions@[i]).ignore_end_value
                && storage.contains_key(q.missions@[i].storage_id) && storage[q.missions@[i].storage_id]
                >= q.missions@[i].end_value,
    ensures
        quest_completed(q, storage),
{
    assert forall|i: int| 0 <= i < q.missions@.len() implies mission_completed(
        #[trigger] q.missions@[i],
        storage,
    ) by {
        assert(!q.missions@[i].ignore_end_value);
    }
}

} // verus!
