//! Parties: the leader, members and invitees, shared experience, and the
//! shield each player sees on another.
use vstd::prelude::*;
use std::collections::BTreeMap;
use crate::map::Position;
use crate::util::otsys_time;

verus! {

/// How far (in x and y) a member may be from the leader to share
/// experience.
pub const EXPERIENCE_SHARE_RANGE: i32 = 30;
/// How many floors a member may be from the leader to share experience.
pub const EXPERIENCE_SHARE_FLOORS: i32 = 1;

/// The abstract content of a party.
pub ghost struct PartyView {
    pub leader_id: u32,
    pub members: Seq<u32>,
    pub invitees: Seq<u32>,
    pub ticks: Map<u32, i64>,
    pub shared_exp_active: bool,
    pub shared_exp_enabled: bool,
}

/// A party: its leader, members and invitees in order, when each member
/// last earned points, and whether shared experience is switched on
/// (active) and currently working (enabled).
pub struct Party {
    pub leader_id: u32,
    member_ids: Vec<u32>,
    invite_ids: Vec<u32>,
    ticks_map: BTreeMap<u32, i64>,
    shared_exp_active: bool,
    shared_exp_enabled: bool,
}

impl View for Party {
    type V = PartyView;

    closed spec fn view(&self) -> PartyView {
        PartyView {
            leader_id: self.leader_id,
            members: self.member_ids@,
            invitees: self.invite_ids@,
            ticks: self.ticks_map@,
            shared_exp_active: self.shared_exp_active,
            shared_exp_enabled: self.shared_exp_enabled,
        }
    }
}

/// The first index of `x` in `s`, if any.
pub open spec fn first_index(s: Seq<u32>, x: u32) -> Option<int> {
    if s.contains(x) {
        Some(choose|i: int| 0 <= i < s.len() && s[i] == x && forall|j: int| 0 <= j < i ==> s[j] != x)
    } else {
        None
    }
}

impl Party {
    /// A party of `leader_id` with no members or invitees and shared
    /// experience off.
    pub fn new(leader_id: u32) -> (p: Self)
        ensures
            p@ == (PartyView {
                leader_id,
                members: Seq::empty(),
                invitees: Seq::empty(),
                ticks: Map::empty(),
                shared_exp_active: false,
                shared_exp_enabled: false,
            }),
    {
        Party {
            leader_id,
            member_ids: Vec::new(),
            invite_ids: Vec::new(),
            ticks_map: BTreeMap::new(),
            shared_exp_active: false,
            shared_exp_enabled: false,
        }
    }

    /// The leader.
    pub fn get_leader_id(&self) -> (r: u32)
        ensures
            r == self@.leader_id,
    {
        self.leader_id
    }

    /// The members, in the order they joined (the leader is not among them).
    pub fn get_members(&self) -> (r: &[u32])
        ensures
            r@ == self@.members,
    {
        self.member_ids.as_slice()
    }

    /// The invitees, in the order they were invited.
    pub fn get_invitees(&self) -> (r: &[u32])
        ensures
            r@ == self@.invitees,
    {
        self.invite_ids.as_slice()
    }

    /// The invitees, to change in place.
    pub fn invite_ids_mut(&mut self) -> (r: &mut Vec<u32>)
        ensures
            r@ == old(self)@.invitees,
            final(self)@ == (PartyView { invitees: final(r)@, ..old(self)@ }),
    {
        &mut self.invite_ids
    }

    /// The members, to change in place.
    pub fn member_ids_mut(&mut self) -> (r: &mut Vec<u32>)
        ensures
            r@ == old(self)@.members,
            final(self)@ == (PartyView { members: final(r)@, ..old(self)@ }),
    {
        &mut self.member_ids
    }

    /// Records whether shared experience currently works.
    pub fn set_shared_exp_enabled(&mut self, enabled: bool)
        ensures
            final(self)@ == (PartyView { shared_exp_enabled: enabled, ..old(self)@ }),
    {
        self.shared_exp_enabled = enabled;
    }

    /// Records whether shared experience is switched on.
    pub fn set_shared_exp_active(&mut self, active: bool)
        ensures
            final(self)@ == (PartyView { shared_exp_active: active, ..old(self)@ }),
    {
        self.shared_exp_active = active;
    }

    /// When `player_id` last earned points, if recorded.
    pub fn get_player_tick(&self, player_id: u32) -> (r: Option<i64>)
        ensures
            r == if self@.ticks.contains_key(player_id) {
                Some(self@.ticks[player_id])
            } else {
                None
            },
    {
        match self.ticks_map.get(&player_id) {
            Some(t) => Some(*t),
            None => None,
        }
    }

    /// Makes `leader_id` the leader.
    pub fn set_leader_id(&mut self, leader_id: u32)
        ensures
            final(self)@ == (PartyView { leader_id, ..old(self)@ }),
    {
        self.leader_id = leader_id;
    }

    /// The number of members.
    pub fn get_member_count(&self) -> (r: usize)
        ensures
            r == self@.members.len(),
    {
        self.member_ids.len()
    }

    /// The number of invitees.
    pub fn get_invitation_count(&self) -> (r: usize)
        ensures
            r == self@.invitees.len(),
    {
        self.invite_ids.len()
    }

    /// Whether `player_id` is invited.
    pub fn is_player_invited(&self, player_id: u32) -> (r: bool)
        ensures
            r == self@.invitees.contains(player_id),
    {
        let mut i: usize = 0;
        while i < self.invite_ids.len()
            invariant
                i <= self@.invitees.len(),
                forall|j: int| 0 <= j < i ==> self@.invitees[j] != player_id,
            decreases self@.invitees.len() - i,
        {
            if self.invite_ids[i] == player_id {
                assert(self@.invitees[i as int] == player_id);
                return true;
            }
            i = i + 1;
        }
        false
    }

    /// Whether the party has neither members nor invitees.
    pub fn is_empty(&self) -> (r: bool)
        ensures
            r == (self@.members.len() == 0 && self@.invitees.len() == 0),
    {
        self.member_ids.len() == 0 && self.invite_ids.len() == 0
    }

    /// Whether shared experience is switched on.
    pub fn is_shared_experience_active(&self) -> (r: bool)
        ensures
            r == self@.shared_exp_active,
    {
        self.shared_exp_active
    }

    /// Whether shared experience currently works.
    pub fn is_shared_experience_enabled(&self) -> (r: bool)
        ensures
            r == self@.shared_exp_enabled,
    {
        self.shared_exp_enabled
    }

    /// Withdraws the first invitation of `player_id`; a party left with
    /// neither members nor invitees is disbanded. Returns whether there was
    /// an invitation.
    pub fn remove_invite(&mut self, player_id: u32, remove_from_player: bool) -> (r: bool)
        ensures
            r == old(self)@.invitees.contains(player_id),
            !r ==> final(self)@ == old(self)@,
            r ==> ({
                let i = first_index(old(self)@.invitees, player_id)->0;
                let rest = old(self)@.invitees.remove(i);
                if old(self)@.members.len() == 0 && rest.len() == 0 {
                    final(self)@ == (PartyView {
                        members: Seq::empty(),
                        invitees: Seq::empty(),
                        ..old(self)@
                    })
                } else {
                    final(self)@ == (PartyView { invitees: rest, ..old(self)@ })
                }
            }),
    {
        let ghost inv = self@.invitees;
        let mut i: usize = 0;
        while i < self.invite_ids.len()
            invariant
                i <= inv.len(),
                inv == self@.invitees,
                self@ == old(self)@,
                forall|j: int| 0 <= j < i ==> inv[j] != player_id,
            decreases inv.len() - i,
        {
            if self.invite_ids[i] == player_id {
                proof {
                    assert(inv.contains(player_id)) by {
                        assert(inv[i as int] == player_id);
                    }
                    let k = first_index(inv, player_id)->0;
                    assert(k == i) by {
                        if k < i {
                            assert(inv[k] != player_id);
                        } else if k > i {
                            assert(inv[i as int] == player_id);
                        }
                    }
                }
                self.invite_ids.remove(i);
                if self.is_empty() {
                    self.disband();
                }
                return true;
            }
            i = i + 1;
        }
        false
    }

    /// Records that `player_id` earned points now (nothing for zero points).
    pub fn update_player_ticks(&mut self, player_id: u32, points: u32)
        ensures
            points == 0 ==> final(self)@ == old(self)@,
            points != 0 ==> final(self)@ == (PartyView {
                ticks: old(self)@.ticks.insert(player_id, final(self)@.ticks[player_id]),
                ..old(self)@
            }) && final(self)@.ticks[player_id] >= 0,
    {
        if points != 0 {
            let now = otsys_time();
            self.ticks_map.insert(player_id, now);
        }
    }

    /// Forgets when `player_id` last earned points.
    pub fn clear_player_points(&mut self, player_id: u32)
        ensures
            final(self)@ == (PartyView { ticks: old(self)@.ticks.remove(player_id), ..old(self)@ }),
    {
        self.ticks_map.remove(&player_id);
    }

    /// Removes all members and invitees.
    pub fn disband(&mut self)
        ensures
            final(self)@ == (PartyView { members: Seq::empty(), invitees: Seq::empty(), ..old(self)@ }),
    {
        self.member_ids.clear();
        self.invite_ids.clear();
    }
}

/// No shield.
pub const SHIELD_NONE: u8 = 0;
/// The leader of a party that invited the viewer.
pub const SHIELD_WHITEYELLOW: u8 = 1;
/// A player the viewer's party invited.
pub const SHIELD_WHITEBLUE: u8 = 2;
/// A member of the viewer's party.
pub const SHIELD_BLUE: u8 = 3;
/// The leader of the viewer's party.
pub const SHIELD_YELLOW: u8 = 4;
/// A member, shared experience working.
pub const SHIELD_BLUE_SHAREDEXP: u8 = 5;
/// The leader, shared experience working.
pub const SHIELD_YELLOW_SHAREDEXP: u8 = 6;
/// A member who keeps shared experience from working.
pub const SHIELD_BLUE_NOSHAREDEXP_BLINK: u8 = 7;
/// The leader, who keeps shared experience from working.
pub const SHIELD_YELLOW_NOSHAREDEXP_BLINK: u8 = 8;
/// A member, shared experience on but not working.
pub const SHIELD_BLUE_NOSHAREDEXP: u8 = 9;
/// The leader, shared experience on but not working.
pub const SHIELD_YELLOW_NOSHAREDEXP: u8 = 10;

/// What the shield a viewer sees on a target depends on: the leaders of
/// their parties, the shared-experience state of the viewer's party,
/// whether the target could share experience in it, and the invitations
/// between the two parties.
#[derive(Debug, Clone, Copy, PartialEq, Eq, Structural)]
pub struct ShieldFacts {
    pub observer_party: Option<u32>,
    pub target_party: Option<u32>,
    pub shared_active: bool,
    pub shared_enabled: bool,
    pub target_can_share: bool,
    pub observer_party_invited_target: bool,
    pub target_party_invited_observer: bool,
}

/// The shield `observer_id` sees on `target_id`.
pub open spec fn party_shield(observer_id: u32, target_id: u32, f: ShieldFacts) -> u8 {
    let in_observer_party = match f.observer_party {
        Some(leader) => target_id == leader || f.target_party == Some(leader),
        None => false,
    };
    if f.observer_party is Some && in_observer_party {
        let leader = f.observer_party->0;
        let is_leader = target_id == leader;
        if f.shared_active {
            if f.shared_enabled {
                if is_leader { SHIELD_YELLOW_SHAREDEXP } else { SHIELD_BLUE_SHAREDEXP }
            } else if f.target_can_share {
                if is_leader { SHIELD_YELLOW_NOSHAREDEXP } else { SHIELD_BLUE_NOSHAREDEXP }
            } else {
                if is_leader { SHIELD_YELLOW_NOSHAREDEXP_BLINK } else { SHIELD_BLUE_NOSHAREDEXP_BLINK }
            }
        } else {
            if is_leader { SHIELD_YELLOW } else { SHIELD_BLUE }
        }
    } else if f.observer_party == Some(observer_id) && f.observer_party_invited_target {
        SHIELD_WHITEBLUE
    } else if f.target_party == Some(target_id) && f.target_party_invited_observer {
        SHIELD_WHITEYELLOW
    } else {
        SHIELD_NONE
    }
}

/// The shield `observer_id` sees on `target_id` (see `party_shield`).
pub fn get_party_shield(observer_id: u32, target_id: u32, facts: &ShieldFacts) -> (s: u8)
    ensures
        s == party_shield(observer_id, target_id, *facts),
{
    if let Some(leader_id) = facts.observer_party {
        if target_id == leader_id {
            if facts.shared_active {
                if facts.shared_enabled {
                    return SHIELD_YELLOW_SHAREDEXP;
                }
                if facts.target_can_share {
                    return SHIELD_YELLOW_NOSHAREDEXP;
                }
                return SHIELD_YELLOW_NOSHAREDEXP_BLINK;
            }
            return SHIELD_YELLOW;
        }
        if facts.target_party == Some(leader_id) {
            if facts.shared_active {
                if facts.shared_enabled {
                    return SHIELD_BLUE_SHAREDEXP;
                }
                if facts.target_can_share {
                    return SHIELD_BLUE_NOSHAREDEXP;
                }
                return SHIELD_BLUE_NOSHAREDEXP_BLINK;
            }
            return SHIELD_BLUE;
        }
        if observer_id == leader_id && facts.observer_party_invited_target {
            return SHIELD_WHITEBLUE;
        }
    }
    if let Some(t_leader) = facts.target_party {
        if target_id == t_leader && facts.target_party_invited_observer {
            return SHIELD_WHITEYELLOW;
        }
    }
    SHIELD_NONE
}

/// What deciding whether a player can share experience in a party depends
/// on: the number of members, the player's level against the lowest level
/// allowed (two thirds of the party's highest, rounded up), where the
/// player and the leader stand, whether the player is exempt from the
/// activity check, when the player last earned points, the time now, and
/// how long a player stays active after earning points.
#[derive(Debug, Clone, Copy, PartialEq, Eq, Structural)]
pub struct ShareFacts {
    pub member_count: usize,
    pub player_level: u32,
    pub min_level: u32,
    pub leader_pos: Position,
    pub player_pos: Position,
    pub exempt_from_activity: bool,
    pub last_tick: Option<i64>,
    pub now: i64,
    pub pz_locked: i64,
}

/// The distance between two coordinates.
pub open spec fn coord_distance(a: int, b: int) -> int {
    if a >= b { a - b } else { b - a }
}

/// Whether a player may share experience: the party has members, the
/// player's level is high enough, the player is within range of the
/// leader, and the player earned points lately (unless exempt).
pub open spec fn may_share_experience(f: ShareFacts) -> bool {
    &&& f.member_count > 0
    &&& f.player_level >= f.min_level
    &&& coord_distance(f.leader_pos.x as int, f.player_pos.x as int) <= EXPERIENCE_SHARE_RANGE
    &&& coord_distance(f.leader_pos.y as int, f.player_pos.y as int) <= EXPERIENCE_SHARE_RANGE
    &&& coord_distance(f.leader_pos.z as int, f.player_pos.z as int) <= EXPERIENCE_SHARE_FLOORS
    &&& (f.exempt_from_activity || match f.last_tick {
        Some(t) => f.now - t <= f.pz_locked,
        None => false,
    })
}

fn distance(a: u16, b: u16) -> (d: i32)
    ensures
        d == coord_distance(a as int, b as int),
{
    if a >= b {
        (a - b) as i32
    } else {
        (b - a) as i32
    }
}

/// Whether a player may share experience (see `may_share_experience`);
/// the time since the last points must fit in an `i64`.
pub fn can_use_shared_experience(facts: &ShareFacts) -> (r: bool)
    requires
        facts.last_tick matches Some(t) ==> i64::MIN <= facts.now - t <= i64::MAX,
    ensures
        r == may_share_experience(*facts),
{
    if facts.member_count == 0 {
        return false;
    }
    if facts.player_level < facts.min_level {
        return false;
    }
    let dx = distance(facts.leader_pos.x, facts.player_pos.x);
    let dy = distance(facts.leader_pos.y, facts.player_pos.y);
    let dz = distance(facts.leader_pos.z as u16, facts.player_pos.z as u16);
    if dx > EXPERIENCE_SHARE_RANGE || dy > EXPERIENCE_SHARE_RANGE || dz > EXPERIENCE_SHARE_FLOORS {
        return false;
    }
    if !facts.exempt_from_activity {
        match facts.last_tick {
            None => {
                return false;
            },
            Some(t) => {
                let diff = facts.now - t;
                if diff > facts.pz_locked {
                    return false;
                }
            },
        }
    }
    true
}

/// Whether shared experience can work: the leader and every member may
/// share.
pub fn can_enable_shared_experience(leader_can_share: bool, members_can_share: &[bool]) -> (r: bool)
    ensures
        r == (leader_can_share && forall|i: int|
            0 <= i < members_can_share@.len() ==> #[trigger] members_can_share@[i]),
{
    if !leader_can_share {
        return false;
    }
    let mut i: usize = 0;
    while i < members_can_share.len()
        invariant
            i <= members_can_share@.len(),
            forall|j: int| 0 <= j < i ==> #[trigger] members_can_share@[j],
        decreases members_can_share@.len() - i,
    {
        if !members_can_share[i] {
            return false;
        }
        i = i + 1;
    }
    true
}

/// Within one party without shared experience, every member sees the
/// leader as yellow and every other member as blue.
pub proof fn law_party_colours(observer_id: u32, target_id: u32, f: ShieldFacts, leader: u32)
    requires
        f.observer_party == Some(leader),
        !f.shared_active,
        target_id == leader || f.target_party == Some(leader),
    ensures
        party_shield(observer_id, target_id, f) == if target_id == leader {
            SHIELD_YELLOW
        } else {
            SHIELD_BLUE
        },
{
}

/// A player in no party sees no shield, except on the leader of a party
/// that invited him.
pub proof fn law_outsider_sees_invitations_only(observer_id: u32, target_id: u32, f: ShieldFacts)
    requires
        f.observer_party is None,
    ensures
        party_shield(observer_id, target_id, f) == SHIELD_NONE || party_shield(observer_id, target_id, f)
            == SHIELD_WHITEYELLOW,
        party_shield(observer_id, target_id, f) == SHIELD_WHITEYELLOW <==> (f.target_party == Some(
            target_id,
        ) && f.target_party_invited_observer),
{
}


/// A player who is not exempt and earned the last points longer ago than
/// the protection-zone lock time may not share experience, whatever else
/// holds.
pub proof fn law_inactive_member_cannot_share(f: ShareFacts, t: i64)
    requires
        !f.exempt_from_activity,
        f.last_tick == Some(t),
        f.now - t > f.pz_locked,
    ensures
        !may_share_experience(f),
{
}

/// A player who is not exempt and never earned points may not share
/// experience.
pub proof fn law_member_without_points_cannot_share(f: ShareFacts)
    requires
        !f.exempt_from_activity,
        f.last_tick is None,
    ensures
        !may_share_experience(f),
{
}

/// A player of a party with members, of the level required, standing where
/// the leader stands, and exempt or active within the lock time, may share
/// experience.
pub proof fn law_active_member_at_leader_shares(f: ShareFacts)
    requires
        f.member_count > 0,
        f.player_level >= f.min_level,
        f.player_pos == f.leader_pos,
        f.exempt_from_activity || (f.last_tick matches Some(t) && f.now - t <= f.pz_locked),
    ensures
        may_share_experience(f),
{
}

} // verus!
