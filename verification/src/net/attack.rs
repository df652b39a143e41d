//! Whether a player may attack the creature he picked: protection and
//! no-PvP zones, combat flags, attackable creatures and secure mode.
use vstd::prelude::*;
use crate::map::Position;
use crate::map::grid::{GameMap, MapView, tile_has};
use crate::map::tile::{CreatureId, TILESTATE_NOPVPZONE, TILESTATE_PROTECTIONZONE, TILESTATE_PVPZONE};

verus! {

/// What the rules on attacking look at besides the map.
#[derive(Debug, Clone, Copy, PartialEq, Eq)]
pub struct AttackFacts {
    pub creature_id: CreatureId,
    /// The creature picked; 0 stops attacking.
    pub target_id: CreatureId,
    /// Whether the picked creature exists.
    pub target_exists: bool,
    /// Whether the attacker is a player.
    pub attacker_is_player: bool,
    pub attacker_pos: Position,
    pub target_pos: Position,
    /// Whether the attacker's group ignores protection zones.
    pub ignore_protection_zone: bool,
    /// Whether the attacker's group may not fight.
    pub cannot_use_combat: bool,
    /// Whether the picked creature can be attacked at all.
    pub target_attackable: bool,
    /// Whether the picked creature is a player.
    pub target_is_player: bool,
    /// Whether the picked creature is a player or a player's summon.
    pub target_is_player_combat: bool,
    /// Whether the attacker has secure mode on.
    pub secure_mode: bool,
    /// Whether the picked player shows no skull to the attacker.
    pub target_unmarked: bool,
    /// Whether the attacker was attacking something.
    pub had_target: bool,
}

/// Why an attack is refused.
#[derive(Debug, Clone, Copy, PartialEq, Eq)]
pub enum AttackRefusal {
    Oneself,
    FromProtectionZone,
    TargetInProtectionZone,
    FromNoPvpZone,
    NotAttackable,
    SecureMode,
}

impl AttackRefusal {
    /// The message the player gets.
    pub fn text(&self) -> (r: &'static str)
        ensures
            r@ == match *self {
                AttackRefusal::Oneself => "You may not attack this player."@,
                AttackRefusal::FromProtectionZone => "You may not attack from a protection zone."@,
                AttackRefusal::TargetInProtectionZone =>
                    "You may not attack a person in a protection zone."@,
                AttackRefusal::FromNoPvpZone =>
                    "You may not attack a person while in a no-PvP zone."@,
                AttackRefusal::NotAttackable => "You may not attack this creature."@,
                AttackRefusal::SecureMode =>
                    "Turn secure mode off if you really want to attack unmarked players."@,
            },
    {
        match self {
            AttackRefusal::Oneself => "You may not attack this player.",
            AttackRefusal::FromProtectionZone => "You may not attack from a protection zone.",
            AttackRefusal::TargetInProtectionZone =>
                "You may not attack a person in a protection zone.",
            AttackRefusal::FromNoPvpZone => "You may not attack a person while in a no-PvP zone.",
            AttackRefusal::NotAttackable => "You may not attack this creature.",
            AttackRefusal::SecureMode =>
                "Turn secure mode off if you really want to attack unmarked players.",
        }
    }
}

/// What comes of picking a creature to attack.
#[derive(Debug, Clone, Copy, PartialEq, Eq)]
pub enum AttackOutcome {
    /// Nothing happens.
    Ignore,
    /// The picked creature is gone: the client's target is cleared.
    TargetGone,
    /// The player is told `why` and the client's target is cleared.
    Refused { why: AttackRefusal },
    /// The player attacks the picked creature (stops attacking for 0); the
    /// client's target is cleared where `clear_target` holds.
    Attack { clear_target: bool },
}

/// Why a player may not attack the picked creature, if he may not: not
/// himself; unless his group ignores protection zones, not from or into a
/// protection zone, and a player (or a player's summon) not from a no-PvP
/// zone or into one; not where his group may not fight or the creature
/// cannot be attacked; and with secure mode on, not an unmarked player
/// unless both stand in a PvP zone.
pub open spec fn attack_refusal_of(v: MapView, f: AttackFacts) -> Option<AttackRefusal> {
    if f.creature_id == f.target_id {
        Some(AttackRefusal::Oneself)
    } else if !f.ignore_protection_zone && tile_has(v, f.attacker_pos, TILESTATE_PROTECTIONZONE) {
        Some(AttackRefusal::FromProtectionZone)
    } else if !f.ignore_protection_zone && tile_has(v, f.target_pos, TILESTATE_PROTECTIONZONE) {
        Some(AttackRefusal::TargetInProtectionZone)
    } else if !f.ignore_protection_zone && f.target_is_player_combat && tile_has(
        v,
        f.attacker_pos,
        TILESTATE_NOPVPZONE,
    ) {
        Some(AttackRefusal::FromNoPvpZone)
    } else if !f.ignore_protection_zone && f.target_is_player_combat && tile_has(
        v,
        f.target_pos,
        TILESTATE_NOPVPZONE,
    ) {
        Some(AttackRefusal::TargetInProtectionZone)
    } else if f.cannot_use_combat || !f.target_attackable {
        Some(AttackRefusal::NotAttackable)
    } else if f.target_is_player && f.secure_mode && !(tile_has(v, f.attacker_pos, TILESTATE_PVPZONE)
        && tile_has(v, f.target_pos, TILESTATE_PVPZONE)) && f.target_unmarked {
        Some(AttackRefusal::SecureMode)
    } else {
        None
    }
}

/// What comes of picking a creature to attack: nothing without a player;
/// a gone creature clears the client's target; a player's attack may be
/// refused (see `attack_refusal_of`); else the attack target is set, and
/// stopping an attack that was going on clears the client's target.
pub open spec fn attack_outcome_of(v: MapView, f: AttackFacts) -> AttackOutcome {
    if f.creature_id == 0 {
        AttackOutcome::Ignore
    } else if f.target_id != 0 && !f.target_exists {
        AttackOutcome::TargetGone
    } else if f.target_id != 0 && f.attacker_is_player && attack_refusal_of(v, f) is Some {
        AttackOutcome::Refused { why: attack_refusal_of(v, f).unwrap() }
    } else {
        AttackOutcome::Attack { clear_target: f.target_id == 0 && f.had_target }
    }
}

fn attack_refusal(map: &GameMap, f: &AttackFacts) -> (r: Option<AttackRefusal>)
    ensures
        r == attack_refusal_of(map@, *f),
{
    if f.creature_id == f.target_id {
        return Some(AttackRefusal::Oneself);
    }
    if !f.ignore_protection_zone {
        if map.has_flag_at(f.attacker_pos, TILESTATE_PROTECTIONZONE) {
            return Some(AttackRefusal::FromProtectionZone);
        }
        if map.has_flag_at(f.target_pos, TILESTATE_PROTECTIONZONE) {
            return Some(AttackRefusal::TargetInProtectionZone);
        }
        if f.target_is_player_combat {
            if map.has_flag_at(f.attacker_pos, TILESTATE_NOPVPZONE) {
                return Some(AttackRefusal::FromNoPvpZone);
            }
            if map.has_flag_at(f.target_pos, TILESTATE_NOPVPZONE) {
                return Some(AttackRefusal::TargetInProtectionZone);
            }
        }
    }
    if f.cannot_use_combat || !f.target_attackable {
        return Some(AttackRefusal::NotAttackable);
    }
    if f.target_is_player && f.secure_mode {
        let both_pvp = map.has_flag_at(f.attacker_pos, TILESTATE_PVPZONE) && map.has_flag_at(
            f.target_pos,
            TILESTATE_PVPZONE,
        );
        if !both_pvp && f.target_unmarked {
            return Some(AttackRefusal::SecureMode);
        }
    }
    None
}

/// What comes of picking a creature to attack (see `attack_outcome_of`).
pub fn decide_attack(map: &GameMap, f: &AttackFacts) -> (r: AttackOutcome)
    ensures
        r == attack_outcome_of(map@, *f),
{
    if f.creature_id == 0 {
        return AttackOutcome::Ignore;
    }
    if f.target_id != 0 {
        if !f.target_exists {
            return AttackOutcome::TargetGone;
        }
        if f.attacker_is_player {
            match attack_refusal(map, f) {
                Some(why) => {
                    return AttackOutcome::Refused { why };
                },
                None => {},
            }
        }
    }
    AttackOutcome::Attack { clear_target: f.target_id == 0 && f.had_target }
}

} // verus!
