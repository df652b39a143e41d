//! Raids: timed sequences of announcements and monster spawns, and the
//! registry that knows which raid runs.
use vstd::prelude::*;
use crate::map::Position;
use crate::util::otsys_time;
use crate::util::text::{ascii_case_equal, eq_ignore_ascii_case};

verus! {

/// How often a monster's placement is tried.
pub const MAXIMUM_TRIES_PER_MONSTER: i32 = 10;
/// Seconds between raid checks.
pub const CHECK_RAIDS_INTERVAL: i32 = 60;
/// The shortest delay between raid events, in milliseconds.
pub const RAID_MINTICKS: i32 = 1000;
/// The range of the random draw that decides whether a raid starts.
pub const MAX_RAND_RANGE: i32 = 10_000_000;

/// Message class of an advance event.
pub const MESSAGE_EVENT_ADVANCE: u8 = 19;
/// Message class of a warning.
pub const MESSAGE_STATUS_WARNING: u8 = 12;
/// Message class of a default event.
pub const MESSAGE_EVENT_DEFAULT: u8 = 20;
/// Message class of an information text.
pub const MESSAGE_INFO_DESCR: u8 = 21;
/// Message class of a small status text.
pub const MESSAGE_STATUS_SMALL: u8 = 22;
/// Message class of a blue console text.
pub const MESSAGE_STATUS_CONSOLE_BLUE: u8 = 14;
/// Message class of a red console text.
pub const MESSAGE_STATUS_CONSOLE_RED: u8 = 18;

/// The error type of loading raid definitions (`anyhow::Error`).
#[verifier::external_type_specification]
#[verifier::external_body]
pub struct ExAnyhowError(anyhow::Error);

/// Whether a raid is between events or carrying one out.
#[derive(Debug, Clone, Copy, PartialEq, Eq, Structural)]
pub enum RaidState {
    Idle,
    Executing,
}

/// Monsters of one kind an area spawn places: a name and how many.
#[derive(Debug, Clone)]
pub struct MonsterSpawn {
    pub name: String,
    pub min_amount: u32,
    pub max_amount: u32,
}

impl MonsterSpawn {
    /// Monsters named `name`, between `min_amount` and `max_amount` of them.
    pub fn new(name: String, min_amount: u32, max_amount: u32) -> (m: Self)
        ensures
            m.name == name,
            m.min_amount == min_amount,
            m.max_amount == max_amount,
    {
        MonsterSpawn { name, min_amount, max_amount }
    }
}

/// An event of a raid: it happens a delay after the previous one.
pub trait RaidEvent {
    /// The delay before the event, in milliseconds.
    fn get_delay(&self) -> u32;

    /// Carries out the event; whether the raid may go on.
    fn execute_event(&self) -> bool;
}

/// An announcement to all players.
#[derive(Debug, Clone)]
pub struct AnnounceEvent {
    pub delay: u32,
    pub message: String,
    pub message_type: u8,
}

impl AnnounceEvent {
    /// An announcement of `message` with class `message_type` after `delay`.
    pub fn new(delay: u32, message: String, message_type: u8) -> (e: Self)
        ensures
            e.delay == delay,
            e.message == message,
            e.message_type == message_type,
    {
        AnnounceEvent { delay, message, message_type }
    }
}

impl RaidEvent for AnnounceEvent {
    fn get_delay(&self) -> (d: u32)
        ensures
            d == self.delay,
    {
        self.delay
    }

    fn execute_event(&self) -> (r: bool)
        ensures
            r,
    {
        true
    }
}

/// One monster placed at a position.
#[derive(Debug, Clone)]
pub struct SingleSpawnEvent {
    pub delay: u32,
    pub monster_name: String,
    pub position: Position,
}

impl SingleSpawnEvent {
    /// A spawn of `monster_name` at `position` after `delay`.
    pub fn new(delay: u32, monster_name: String, position: Position) -> (e: Self)
        ensures
            e.delay == delay,
            e.monster_name == monster_name,
            e.position == position,
    {
        SingleSpawnEvent { delay, monster_name, position }
    }
}

impl RaidEvent for SingleSpawnEvent {
    fn get_delay(&self) -> (d: u32)
        ensures
            d == self.delay,
    {
        self.delay
    }

    fn execute_event(&self) -> (r: bool)
        ensures
            r,
    {
        true
    }
}

/// Monsters placed within an area.
#[derive(Debug, Clone)]
pub struct AreaSpawnEvent {
    pub delay: u32,
    pub spawn_list: Vec<MonsterSpawn>,
    pub from_pos: Position,
    pub to_pos: Position,
}

impl AreaSpawnEvent {
    /// A spawn of `spawn_list` between `from_pos` and `to_pos` after
    /// `delay`.
    pub fn new(delay: u32, spawn_list: Vec<MonsterSpawn>, from_pos: Position, to_pos: Position) -> (e: Self)
        ensures
            e.delay == delay,
            e.spawn_list == spawn_list,
            e.from_pos == from_pos,
            e.to_pos == to_pos,
    {
        AreaSpawnEvent { delay, spawn_list, from_pos, to_pos }
    }
}

impl RaidEvent for AreaSpawnEvent {
    fn get_delay(&self) -> (d: u32)
        ensures
            d == self.delay,
    {
        self.delay
    }

    fn execute_event(&self) -> (r: bool)
        ensures
            r,
    {
        true
    }
}

/// A scripted event.
#[derive(Debug, Clone)]
pub struct ScriptRaidEvent {
    pub delay: u32,
    pub script_name: String,
}

impl ScriptRaidEvent {
    /// The script `script_name`, run after `delay`.
    pub fn new(delay: u32, script_name: String) -> (e: Self)
        ensures
            e.delay == delay,
            e.script_name == script_name,
    {
        ScriptRaidEvent { delay, script_name }
    }
}

impl RaidEvent for ScriptRaidEvent {
    fn get_delay(&self) -> (d: u32)
        ensures
            d == self.delay,
    {
        self.delay
    }

    fn execute_event(&self) -> (r: bool)
        ensures
            r,
    {
        true
    }
}

/// Any raid event.
#[derive(Debug, Clone)]
pub enum RaidEventKind {
    Announce(AnnounceEvent),
    SingleSpawn(SingleSpawnEvent),
    AreaSpawn(AreaSpawnEvent),
    Script(ScriptRaidEvent),
}

impl RaidEvent for RaidEventKind {
    fn get_delay(&self) -> (d: u32)
        ensures
            d == match self {
                RaidEventKind::Announce(e) => e.delay,
                RaidEventKind::SingleSpawn(e) => e.delay,
                RaidEventKind::AreaSpawn(e) => e.delay,
                RaidEventKind::Script(e) => e.delay,
            },
    {
        match self {
            RaidEventKind::Announce(e) => e.get_delay(),
            RaidEventKind::SingleSpawn(e) => e.get_delay(),
            RaidEventKind::AreaSpawn(e) => e.get_delay(),
            RaidEventKind::Script(e) => e.get_delay(),
        }
    }

    fn execute_event(&self) -> (r: bool)
        ensures
            r,
    {
        match self {
            RaidEventKind::Announce(e) => e.execute_event(),
            RaidEventKind::SingleSpawn(e) => e.execute_event(),
            RaidEventKind::AreaSpawn(e) => e.execute_event(),
            RaidEventKind::Script(e) => e.execute_event(),
        }
    }
}

/// The abstract state of a raid.
pub ghost struct RaidView {
    pub name: Seq<char>,
    pub interval: u32,
    pub margin: u64,
    pub state: RaidState,
    pub next_event: u32,
    pub next_event_event: u32,
    pub loaded: bool,
    pub repeat: bool,
    pub events: Seq<RaidEventKind>,
}

/// A raid: its name, how often it may start (per mille of checks) and the
/// least time between two raids, its state, the next event and its timer,
/// whether its definition is loaded, whether it may repeat, and its events.
pub struct Raid {
    pub name: String,
    interval: u32,
    margin: u64,
    state: RaidState,
    next_event: u32,
    next_event_event: u32,
    loaded: bool,
    repeat: bool,
    events: Vec<RaidEventKind>,
}

impl View for Raid {
    type V = RaidView;

    closed spec fn view(&self) -> RaidView {
        RaidView {
            name: self.name@,
            interval: self.interval,
            margin: self.margin,
            state: self.state,
            next_event: self.next_event,
            next_event_event: self.next_event_event,
            loaded: self.loaded,
            repeat: self.repeat,
            events: self.events@,
        }
    }
}

impl Raid {
    /// An idle raid without events, not yet loaded.
    pub fn new(name: String, interval: u32, margin_time: u32, repeat: bool) -> (r: Self)
        ensures
            r@ == (RaidView {
                name: name@,
                interval,
                margin: margin_time as u64,
                state: RaidState::Idle,
                next_event: 0,
                next_event_event: 0,
                loaded: false,
                repeat,
                events: Seq::empty(),
            }),
    {
        Raid {
            name,
            interval,
            margin: margin_time as u64,
            state: RaidState::Idle,
            next_event: 0,
            next_event_event: 0,
            loaded: false,
            repeat,
            events: Vec::new(),
        }
    }

    /// Whether the raid's definition is loaded.
    pub fn is_loaded(&self) -> (r: bool)
        ensures
            r == self@.loaded,
    {
        self.loaded
    }

    /// The least time between two raids.
    pub fn get_margin(&self) -> (r: u64)
        ensures
            r == self@.margin,
    {
        self.margin
    }

    /// How often the raid may start.
    pub fn get_interval(&self) -> (r: u32)
        ensures
            r == self@.interval,
    {
        self.interval
    }

    /// Whether the raid may run again.
    pub fn can_be_repeated(&self) -> (r: bool)
        ensures
            r == self@.repeat,
    {
        self.repeat
    }

    /// The raid's name.
    pub fn get_name(&self) -> (r: &str)
        ensures
            r@ == self@.name,
    {
        self.name.as_str()
    }

    /// Sets the raid's state.
    pub fn set_state(&mut self, state: RaidState)
        ensures
            final(self)@ == (RaidView { state, ..old(self)@ }),
    {
        self.state = state;
    }

    /// The event due next, if the raid has one left.
    pub fn get_next_raid_event(&self) -> (r: Option<&RaidEventKind>)
        ensures
            match r {
                Some(e) => self@.next_event < self@.events.len() && *e == self@.events[self@.next_event as int],
                None => self@.next_event >= self@.events.len(),
            },
    {
        if (self.next_event as usize) < self.events.len() {
            Some(&self.events[self.next_event as usize])
        } else {
            None
        }
    }

    /// Starts the raid; the event timers belong to the scheduler, so the
    /// raid's own state stays as it is.
    pub fn start_raid(&mut self)
        ensures
            final(self)@ == old(self)@,
    {
    }

    /// Carries out an event; the effects belong to the game state, so the
    /// raid's own state stays as it is.
    pub fn execute_raid_event(&mut self, event: &RaidEventKind)
        ensures
            final(self)@ == old(self)@,
    {
    }

    /// Rewinds the raid to its first event and makes it idle.
    pub fn reset_raid(&mut self)
        ensures
            final(self)@ == (RaidView { next_event: 0, state: RaidState::Idle, ..old(self)@ }),
    {
        self.next_event = 0;
        self.state = RaidState::Idle;
    }

    /// Drops the timer of the next event.
    pub fn stop_events(&mut self)
        ensures
            final(self)@ == (RaidView { next_event_event: 0, ..old(self)@ }),
    {
        if self.next_event_event != 0 {
            self.next_event_event = 0;
        }
    }

    /// Marks the raid's definition as loaded; loading again changes
    /// nothing. The definition file itself is not read here, so this never
    /// fails.
    pub fn load_from_json5(&mut self, path: &str) -> (r: Result<(), anyhow::Error>)
        ensures
            r is Ok,
            final(self)@ == (RaidView { loaded: true, ..old(self)@ }),
    {
        if self.is_loaded() {
            return Ok(());
        }
        self.loaded = true;
        Ok(())
    }
}

/// The abstract state of the raid registry.
pub ghost struct RaidsView {
    pub raids: Seq<RaidView>,
    pub running: Option<usize>,
    pub last_raid_end: u64,
    pub check_raids_event: u32,
    pub loaded: bool,
    pub started: bool,
}

/// The index of the first raid from `i` on whose name equals `name` up to
/// ASCII case, or the length.
pub open spec fn first_raid_named(raids: Seq<RaidView>, name: Seq<char>, i: int) -> int
    decreases raids.len() - i,
{
    if i < 0 || i >= raids.len() {
        raids.len() as int
    } else if ascii_case_equal(raids[i].name, name) {
        i
    } else {
        first_raid_named(raids, name, i + 1)
    }
}

/// All raids, the one that runs, when the last raid ended, the check
/// timer, and whether the definitions are loaded and the checks started.
pub struct Raids {
    raid_list: Vec<Raid>,
    running: Option<usize>,
    last_raid_end: u64,
    check_raids_event: u32,
    loaded: bool,
    started: bool,
}

impl View for Raids {
    type V = RaidsView;

    closed spec fn view(&self) -> RaidsView {
        RaidsView {
            raids: self.raid_list@.map_values(|r: Raid| r@),
            running: self.running,
            last_raid_end: self.last_raid_end,
            check_raids_event: self.check_raids_event,
            loaded: self.loaded,
            started: self.started,
        }
    }
}

/// The empty registry.
pub open spec fn empty_raids() -> RaidsView {
    RaidsView {
        raids: Seq::empty(),
        running: None,
        last_raid_end: 0,
        check_raids_event: 0,
        loaded: false,
        started: false,
    }
}

impl Default for Raids {
    fn default() -> (r: Self)
        ensures
            r@ == empty_raids(),
    {
        Raids::new()
    }
}

impl Raids {
    /// An empty registry, not loaded or started.
    pub fn new() -> (r: Self)
        ensures
            r@ == empty_raids(),
    {
        let r = Raids {
            raid_list: Vec::new(),
            running: None,
            last_raid_end: 0,
            check_raids_event: 0,
            loaded: false,
            started: false,
        };
        assert(r@.raids =~= Seq::<RaidView>::empty());
        r
    }

    /// Whether the raid definitions are loaded.
    pub fn is_loaded(&self) -> (r: bool)
        ensures
            r == self@.loaded,
    {
        self.loaded
    }

    /// Whether the raid checks have started.
    pub fn is_started(&self) -> (r: bool)
        ensures
            r == self@.started,
    {
        self.started
    }

    /// The raid that runs, if any.
    pub fn get_running(&self) -> (r: Option<&Raid>)
        ensures
            match r {
                Some(raid) => self@.running matches Some(i) && i < self@.raids.len() && raid@
                    == self@.raids[i as int],
                None => self@.running matches Some(i) ==> i >= self@.raids.len(),
            },
    {
        match self.running {
            Some(i) => {
                if i < self.raid_list.len() {
                    Some(&self.raid_list[i])
                } else {
                    None
                }
            },
            None => None,
        }
    }

    /// The raid that runs, if any, to change in place.
    pub fn get_running_mut(&mut self) -> (r: Option<&mut Raid>)
        ensures
            match r {
                Some(raid) => old(self)@.running matches Some(i) && i < old(self)@.raids.len()
                    && raid@ == old(self)@.raids[i as int] && final(self)@ == (RaidsView {
                    raids: old(self)@.raids.update(i as int, final(raid)@),
                    ..old(self)@
                }),
                None => (old(self)@.running matches Some(i) ==> i >= old(self)@.raids.len())
                    && final(self)@ == old(self)@,
            },
    {
        match self.running {
            Some(i) => {
                if i < self.raid_list.len() {
                    let ghost before = self.raid_list@;
                    let r = &mut self.raid_list[i];
                    proof {
                        assert(before.update(i as int, *final(r)).map_values(|r: Raid| r@)
                            =~= before.map_values(|r: Raid| r@).update(i as int, final(r)@));
                    }
                    Some(r)
                } else {
                    None
                }
            },
            None => None,
        }
    }

    /// Makes the first raid named `name` (ignoring ASCII case) the running
    /// one; none runs for `None` or an unknown name.
    pub fn set_running(&mut self, name: Option<&str>)
        ensures
            final(self)@ == (RaidsView {
                running: match name {
                    Some(n) => {
                        let k = first_raid_named(old(self)@.raids, n@, 0);
                        if k < old(self)@.raids.len() {
                            Some(k as usize)
                        } else {
                            None
                        }
                    },
                    None => None,
                },
                ..old(self)@
            }),
    {
        match name {
            Some(n) => {
                let ghost raids = self@.raids;
                let mut i: usize = 0;
                while i < self.raid_list.len()
                    invariant
                        i <= raids.len(),
                        raids == self@.raids,
                        self@ == old(self)@,
                        name == Some(n),
                        first_raid_named(raids, n@, 0) == first_raid_named(raids, n@, i as int),
                    decreases raids.len() - i,
                {
                    if eq_ignore_ascii_case(self.raid_list[i].name.as_str(), n) {
                        assert(raids[i as int].name == self.raid_list@[i as int].name@);
                        assert(first_raid_named(raids, n@, i as int) == i);
                        self.running = Some(i);
                        return;
                    }
                    i = i + 1;
                }
                self.running = None;
            },
            None => {
                self.running = None;
            },
        }
    }

    /// The first raid named `name`, ignoring ASCII case.
    pub fn get_raid_by_name(&self, name: &str) -> (r: Option<&Raid>)
        ensures
            ({
                let k = first_raid_named(self@.raids, name@, 0);
                match r {
                    Some(raid) => k < self@.raids.len() && raid@ == self@.raids[k],
                    None => k == self@.raids.len(),
                }
            }),
    {
        let ghost raids = self@.raids;
        let mut i: usize = 0;
        while i < self.raid_list.len()
            invariant
                i <= raids.len(),
                raids == self@.raids,
                first_raid_named(raids, name@, 0) == first_raid_named(raids, name@, i as int),
            decreases raids.len() - i,
        {
            if eq_ignore_ascii_case(self.raid_list[i].name.as_str(), name) {
                assert(raids[i as int].name == self.raid_list@[i as int].name@);
                return Some(&self.raid_list[i]);
            }
            i = i + 1;
        }
        None
    }

    /// When the last raid ended.
    pub fn get_last_raid_end(&self) -> (r: u64)
        ensures
            r == self@.last_raid_end,
    {
        self.last_raid_end
    }

    /// Records when the last raid ended.
    pub fn set_last_raid_end(&mut self, t: u64)
        ensures
            final(self)@ == (RaidsView { last_raid_end: t, ..old(self)@ }),
    {
        self.last_raid_end = t;
    }

    /// The periodic raid check; starting raids belongs to the scheduler, so
    /// the registry stays as it is.
    pub fn check_raids(&mut self)
        ensures
            final(self)@ == old(self)@,
    {
    }

    /// Marks the raid definitions as loaded; loading again changes
    /// nothing. The definition file itself is not read here, so this never
    /// fails.
    pub fn load_from_json5(&mut self, path: &str) -> (r: Result<(), anyhow::Error>)
        ensures
            r is Ok,
            final(self)@ == (RaidsView { loaded: true, ..old(self)@ }),
    {
        if self.is_loaded() {
            return Ok(());
        }
        self.loaded = true;
        Ok(())
    }

    /// Starts the raid checks once the definitions are loaded: records the
    /// start as the end of the last raid. Refused (false, nothing changed)
    /// when not loaded or already started.
    pub fn startup(&mut self) -> (r: bool)
        ensures
            r == (old(self)@.loaded && !old(self)@.started),
            !r ==> final(self)@ == old(self)@,
            r ==> final(self)@ == (RaidsView {
                started: true,
                last_raid_end: final(self)@.last_raid_end,
                ..old(self)@
            }),
    {
        if !self.is_loaded() || self.is_started() {
            return false;
        }
        let now = otsys_time();
        self.last_raid_end = now as u64;
        self.started = true;
        true
    }

    /// Stops every raid's timers and forgets all raids; the registry is
    /// empty, not loaded or started, afterwards.
    pub fn clear(&mut self)
        ensures
            final(self)@ == empty_raids(),
    {
        let mut i: usize = 0;
        while i < self.raid_list.len()
            invariant
                i <= self.raid_list@.len(),
            decreases self.raid_list@.len() - i,
        {
            let ghost before = self.raid_list@;
            self.raid_list[i].stop_events();
            i = i + 1;
        }
        self.raid_list.clear();
        self.check_raids_event = 0;
        self.loaded = false;
        self.started = false;
        self.running = None;
        self.last_raid_end = 0;
        assert(self@.raids =~= Seq::<RaidView>::empty());
    }

    /// Clears the registry (see `clear`); the definitions are not read
    /// again here, so this reports false.
    pub fn reload(&mut self) -> (r: bool)
        ensures
            !r,
            final(self)@ == empty_raids(),
    {
        self.clear();
        false
    }
}

/// A cleared registry refuses to start until it is loaded again.
pub proof fn law_cleared_refuses_startup()
    ensures
        !(empty_raids().loaded && !empty_raids().started),
{
}

} // verus!
