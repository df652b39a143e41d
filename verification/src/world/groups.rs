//! Player groups (player, tutor, gamemaster, ...): their rights as flag
//! bits, the names of the flags in the groups file, and the built-in
//! defaults used before the groups are loaded.
use vstd::prelude::*;
use crate::util::text::str_eq;
use crate::util::xml::{
    XmlNode, XmlNodeView, attribute_or, attribute_value, child_named, children_named, children_upto,
    nodes_view, parse_unsigned, parse_unsigned_str, parse_xml, root_element, root_element_from,
    xml_document,
};

verus! {

/// Player flag bit 0: cannotusecombat.
pub const PLAYER_FLAG_CANNOT_USE_COMBAT: u64 = 0x1;

/// Player flag bit 1: cannotattackplayer.
pub const PLAYER_FLAG_CANNOT_ATTACK_PLAYER: u64 = 0x2;

/// Player flag bit 2: cannotattackmonster.
pub const PLAYER_FLAG_CANNOT_ATTACK_MONSTER: u64 = 0x4;

/// Player flag bit 3: cannotbeattacked.
pub const PLAYER_FLAG_CANNOT_BE_ATTACKED: u64 = 0x8;

/// Player flag bit 4: canconvinceall.
pub const PLAYER_FLAG_CAN_CONVINCE_ALL: u64 = 0x10;

/// Player flag bit 5: cansummonall.
pub const PLAYER_FLAG_CAN_SUMMON_ALL: u64 = 0x20;

/// Player flag bit 6: canillusionall.
pub const PLAYER_FLAG_CAN_ILLUSION_ALL: u64 = 0x40;

/// Player flag bit 7: cansenseinvisibility.
pub const PLAYER_FLAG_CAN_SENSE_INVISIBILITY: u64 = 0x80;

/// Player flag bit 8: ignoredbymonsters.
pub const PLAYER_FLAG_IGNORED_BY_MONSTERS: u64 = 0x100;

/// Player flag bit 9: notgaininfight.
pub const PLAYER_FLAG_NOT_GAIN_IN_FIGHT: u64 = 0x200;

/// Player flag bit 10: hasinfinitemana.
pub const PLAYER_FLAG_HAS_INFINITE_MANA: u64 = 0x400;

/// Player flag bit 11: hasinfinitesoul.
pub const PLAYER_FLAG_HAS_INFINITE_SOUL: u64 = 0x800;

/// Player flag bit 12: hasnoexhaustion.
pub const PLAYER_FLAG_HAS_NO_EXHAUSTION: u64 = 0x1000;

/// Player flag bit 13: cannotusespells.
pub const PLAYER_FLAG_CANNOT_USE_SPELLS: u64 = 0x2000;

/// Player flag bit 14: cannotpickupitem.
pub const PLAYER_FLAG_CANNOT_PICKUP_ITEM: u64 = 0x4000;

/// Player flag bit 15: canalwayslogin.
pub const PLAYER_FLAG_CAN_ALWAYS_LOGIN: u64 = 0x8000;

/// Player flag bit 16: canbroadcast.
pub const PLAYER_FLAG_CAN_BROADCAST: u64 = 0x10000;

/// Player flag bit 17: canedithouses.
pub const PLAYER_FLAG_CAN_EDIT_HOUSES: u64 = 0x20000;

/// Player flag bit 18: cannotbebanned.
pub const PLAYER_FLAG_CANNOT_BE_BANNED: u64 = 0x40000;

/// Player flag bit 19: cannotbepushed.
pub const PLAYER_FLAG_CANNOT_BE_PUSHED: u64 = 0x80000;

/// Player flag bit 20: hasinfinitecapacity.
pub const PLAYER_FLAG_HAS_INFINITE_CAPACITY: u64 = 0x100000;

/// Player flag bit 21: canpushallcreatures.
pub const PLAYER_FLAG_CAN_PUSH_ALL_CREATURES: u64 = 0x200000;

/// Player flag bit 22: cantalkredprivate.
pub const PLAYER_FLAG_CAN_TALK_RED_PRIVATE: u64 = 0x400000;

/// Player flag bit 23: cantalkredchannel.
pub const PLAYER_FLAG_CAN_TALK_RED_CHANNEL: u64 = 0x800000;

/// Player flag bit 24: talkorangehelpchannel.
pub const PLAYER_FLAG_TALK_ORANGE_HELP_CHANNEL: u64 = 0x1000000;

/// Player flag bit 25: notgainexperience.
pub const PLAYER_FLAG_NOT_GAIN_EXPERIENCE: u64 = 0x2000000;

/// Player flag bit 26: notgainmana.
pub const PLAYER_FLAG_NOT_GAIN_MANA: u64 = 0x4000000;

/// Player flag bit 27: notgainhealth.
pub const PLAYER_FLAG_NOT_GAIN_HEALTH: u64 = 0x8000000;

/// Player flag bit 28: notgainskill.
pub const PLAYER_FLAG_NOT_GAIN_SKILL: u64 = 0x10000000;

/// Player flag bit 29: setmaxspeed.
pub const PLAYER_FLAG_SET_MAX_SPEED: u64 = 0x20000000;

/// Player flag bit 30: specialvip.
pub const PLAYER_FLAG_SPECIAL_VIP: u64 = 0x40000000;

/// Player flag bit 31: notgenerateloot.
pub const PLAYER_FLAG_NOT_GENERATE_LOOT: u64 = 0x80000000;

/// Player flag bit 32: cantalkredchannelanonymous.
pub const PLAYER_FLAG_CAN_TALK_RED_CHANNEL_ANONYMOUS: u64 = 0x100000000;

/// Player flag bit 33: ignoreprotectionzone.
pub const PLAYER_FLAG_IGNORE_PROTECTION_ZONE: u64 = 0x200000000;

/// Player flag bit 34: ignorespellcheck.
pub const PLAYER_FLAG_IGNORE_SPELL_CHECK: u64 = 0x400000000;

/// Player flag bit 35: ignoreweaponcheck.
pub const PLAYER_FLAG_IGNORE_WEAPON_CHECK: u64 = 0x800000000;

/// Player flag bit 36: cannotbemuted.
pub const PLAYER_FLAG_CANNOT_BE_MUTED: u64 = 0x1000000000;

/// Player flag bit 37: isalwayspremium.
pub const PLAYER_FLAG_IS_ALWAYS_PREMIUM: u64 = 0x2000000000;

/// Player flag bit 38: ignoreyellcheck.
pub const PLAYER_FLAG_IGNORE_YELL_CHECK: u64 = 0x4000000000;

/// Player flag bit 39: ignoresendprivatecheck.
pub const PLAYER_FLAG_IGNORE_SEND_PRIVATE_CHECK: u64 = 0x8000000000;

/// The flag bit a groups file names (`None` for an unknown name).
pub open spec fn flag_bit_for(name: Seq<char>) -> Option<u64> {
    if name == "cannotusecombat"@ {
        Some(PLAYER_FLAG_CANNOT_USE_COMBAT)
    } else if name == "cannotattackplayer"@ {
        Some(PLAYER_FLAG_CANNOT_ATTACK_PLAYER)
    } else if name == "cannotattackmonster"@ {
        Some(PLAYER_FLAG_CANNOT_ATTACK_MONSTER)
    } else if name == "cannotbeattacked"@ {
        Some(PLAYER_FLAG_CANNOT_BE_ATTACKED)
    } else if name == "canconvinceall"@ {
        Some(PLAYER_FLAG_CAN_CONVINCE_ALL)
    } else if name == "cansummonall"@ {
        Some(PLAYER_FLAG_CAN_SUMMON_ALL)
    } else if name == "canillusionall"@ {
        Some(PLAYER_FLAG_CAN_ILLUSION_ALL)
    } else if name == "cansenseinvisibility"@ {
        Some(PLAYER_FLAG_CAN_SENSE_INVISIBILITY)
    } else if name == "ignoredbymonsters"@ {
        Some(PLAYER_FLAG_IGNORED_BY_MONSTERS)
    } else if name == "notgaininfight"@ {
        Some(PLAYER_FLAG_NOT_GAIN_IN_FIGHT)
    } else if name == "hasinfinitemana"@ {
        Some(PLAYER_FLAG_HAS_INFINITE_MANA)
    } else if name == "hasinfinitesoul"@ {
        Some(PLAYER_FLAG_HAS_INFINITE_SOUL)
    } else if name == "hasnoexhaustion"@ {
        Some(PLAYER_FLAG_HAS_NO_EXHAUSTION)
    } else if name == "cannotusespells"@ {
        Some(PLAYER_FLAG_CANNOT_USE_SPELLS)
    } else if name == "cannotpickupitem"@ {
        Some(PLAYER_FLAG_CANNOT_PICKUP_ITEM)
    } else if name == "canalwayslogin"@ {
        Some(PLAYER_FLAG_CAN_ALWAYS_LOGIN)
    } else if name == "canbroadcast"@ {
        Some(PLAYER_FLAG_CAN_BROADCAST)
    } else if name == "canedithouses"@ {
        Some(PLAYER_FLAG_CAN_EDIT_HOUSES)
    } else if name == "cannotbebanned"@ {
        Some(PLAYER_FLAG_CANNOT_BE_BANNED)
    } else if name == "cannotbepushed"@ {
        Some(PLAYER_FLAG_CANNOT_BE_PUSHED)
    } else if name == "hasinfinitecapacity"@ {
        Some(PLAYER_FLAG_HAS_INFINITE_CAPACITY)
    } else if name == "canpushallcreatures"@ {
        Some(PLAYER_FLAG_CAN_PUSH_ALL_CREATURES)
    } else if name == "cantalkredprivate"@ {
        Some(PLAYER_FLAG_CAN_TALK_RED_PRIVATE)
    } else if name == "cantalkredchannel"@ {
        Some(PLAYER_FLAG_CAN_TALK_RED_CHANNEL)
    } else if name == "talkorangehelpchannel"@ {
        Some(PLAYER_FLAG_TALK_ORANGE_HELP_CHANNEL)
    } else if name == "notgainexperience"@ {
        Some(PLAYER_FLAG_NOT_GAIN_EXPERIENCE)
    } else if name == "notgainmana"@ {
        Some(PLAYER_FLAG_NOT_GAIN_MANA)
    } else if name == "notgainhealth"@ {
        Some(PLAYER_FLAG_NOT_GAIN_HEALTH)
    } else if name == "notgainskill"@ {
        Some(PLAYER_FLAG_NOT_GAIN_SKILL)
    } else if name == "setmaxspeed"@ {
        Some(PLAYER_FLAG_SET_MAX_SPEED)
    } else if name == "specialvip"@ {
        Some(PLAYER_FLAG_SPECIAL_VIP)
    } else if name == "notgenerateloot"@ {
        Some(PLAYER_FLAG_NOT_GENERATE_LOOT)
    } else if name == "cantalkredchannelanonymous"@ {
        Some(PLAYER_FLAG_CAN_TALK_RED_CHANNEL_ANONYMOUS)
    } else if name == "ignoreprotectionzone"@ {
        Some(PLAYER_FLAG_IGNORE_PROTECTION_ZONE)
    } else if name == "ignorespellcheck"@ {
        Some(PLAYER_FLAG_IGNORE_SPELL_CHECK)
    } else if name == "ignoreweaponcheck"@ {
        Some(PLAYER_FLAG_IGNORE_WEAPON_CHECK)
    } else if name == "cannotbemuted"@ {
        Some(PLAYER_FLAG_CANNOT_BE_MUTED)
    } else if name == "isalwayspremium"@ {
        Some(PLAYER_FLAG_IS_ALWAYS_PREMIUM)
    } else if name == "ignoreyellcheck"@ {
        Some(PLAYER_FLAG_IGNORE_YELL_CHECK)
    } else if name == "ignoresendprivatecheck"@ {
        Some(PLAYER_FLAG_IGNORE_SEND_PRIVATE_CHECK)
    } else {
        None
    }
}

/// The flag bit named `name` in a groups file, if it names one.
pub fn player_flag_bit(name: &str) -> (r: Option<u64>)
    ensures
        r == flag_bit_for(name@),
{
    if str_eq(name, "cannotusecombat") {
        return Some(PLAYER_FLAG_CANNOT_USE_COMBAT);
    }
    if str_eq(name, "cannotattackplayer") {
        return Some(PLAYER_FLAG_CANNOT_ATTACK_PLAYER);
    }
    if str_eq(name, "cannotattackmonster") {
        return Some(PLAYER_FLAG_CANNOT_ATTACK_MONSTER);
    }
    if str_eq(name, "cannotbeattacked") {
        return Some(PLAYER_FLAG_CANNOT_BE_ATTACKED);
    }
    if str_eq(name, "canconvinceall") {
        return Some(PLAYER_FLAG_CAN_CONVINCE_ALL);
    }
    if str_eq(name, "cansummonall") {
        return Some(PLAYER_FLAG_CAN_SUMMON_ALL);
    }
    if str_eq(name, "canillusionall") {
        return Some(PLAYER_FLAG_CAN_ILLUSION_ALL);
    }
    if str_eq(name, "cansenseinvisibility") {
        return Some(PLAYER_FLAG_CAN_SENSE_INVISIBILITY);
    }
    if str_eq(name, "ignoredbymonsters") {
        return Some(PLAYER_FLAG_IGNORED_BY_MONSTERS);
    }
    if str_eq(name, "notgaininfight") {
        return Some(PLAYER_FLAG_NOT_GAIN_IN_FIGHT);
    }
    if str_eq(name, "hasinfinitemana") {
        return Some(PLAYER_FLAG_HAS_INFINITE_MANA);
    }
    if str_eq(name, "hasinfinitesoul") {
        return Some(PLAYER_FLAG_HAS_INFINITE_SOUL);
    }
    if str_eq(name, "hasnoexhaustion") {
        return Some(PLAYER_FLAG_HAS_NO_EXHAUSTION);
    }
    if str_eq(name, "cannotusespells") {
        return Some(PLAYER_FLAG_CANNOT_USE_SPELLS);
    }
    if str_eq(name, "cannotpickupitem") {
        return Some(PLAYER_FLAG_CANNOT_PICKUP_ITEM);
    }
    if str_eq(name, "canalwayslogin") {
        return Some(PLAYER_FLAG_CAN_ALWAYS_LOGIN);
    }
    if str_eq(name, "canbroadcast") {
        return Some(PLAYER_FLAG_CAN_BROADCAST);
    }
    if str_eq(name, "canedithouses") {
        return Some(PLAYER_FLAG_CAN_EDIT_HOUSES);
    }
    if str_eq(name, "cannotbebanned") {
        return Some(PLAYER_FLAG_CANNOT_BE_BANNED);
    }
    if str_eq(name, "cannotbepushed") {
        return Some(PLAYER_FLAG_CANNOT_BE_PUSHED);
    }
    if str_eq(name, "hasinfinitecapacity") {
        return Some(PLAYER_FLAG_HAS_INFINITE_CAPACITY);
    }
    if str_eq(name, "canpushallcreatures") {
        return Some(PLAYER_FLAG_CAN_PUSH_ALL_CREATURES);
    }
    if str_eq(name, "cantalkredprivate") {
        return Some(PLAYER_FLAG_CAN_TALK_RED_PRIVATE);
    }
    if str_eq(name, "cantalkredchannel") {
        return Some(PLAYER_FLAG_CAN_TALK_RED_CHANNEL);
    }
    if str_eq(name, "talkorangehelpchannel") {
        return Some(PLAYER_FLAG_TALK_ORANGE_HELP_CHANNEL);
    }
    if str_eq(name, "notgainexperience") {
        return Some(PLAYER_FLAG_NOT_GAIN_EXPERIENCE);
    }
    if str_eq(name, "notgainmana") {
        return Some(PLAYER_FLAG_NOT_GAIN_MANA);
    }
    if str_eq(name, "notgainhealth") {
        return Some(PLAYER_FLAG_NOT_GAIN_HEALTH);
    }
    if str_eq(name, "notgainskill") {
        return Some(PLAYER_FLAG_NOT_GAIN_SKILL);
    }
    if str_eq(name, "setmaxspeed") {
        return Some(PLAYER_FLAG_SET_MAX_SPEED);
    }
    if str_eq(name, "specialvip") {
        return Some(PLAYER_FLAG_SPECIAL_VIP);
    }
    if str_eq(name, "notgenerateloot") {
        return Some(PLAYER_FLAG_NOT_GENERATE_LOOT);
    }
    if str_eq(name, "cantalkredchannelanonymous") {
        return Some(PLAYER_FLAG_CAN_TALK_RED_CHANNEL_ANONYMOUS);
    }
    if str_eq(name, "ignoreprotectionzone") {
        return Some(PLAYER_FLAG_IGNORE_PROTECTION_ZONE);
    }
    if str_eq(name, "ignorespellcheck") {
        return Some(PLAYER_FLAG_IGNORE_SPELL_CHECK);
    }
    if str_eq(name, "ignoreweaponcheck") {
        return Some(PLAYER_FLAG_IGNORE_WEAPON_CHECK);
    }
    if str_eq(name, "cannotbemuted") {
        return Some(PLAYER_FLAG_CANNOT_BE_MUTED);
    }
    if str_eq(name, "isalwayspremium") {
        return Some(PLAYER_FLAG_IS_ALWAYS_PREMIUM);
    }
    if str_eq(name, "ignoreyellcheck") {
        return Some(PLAYER_FLAG_IGNORE_YELL_CHECK);
    }
    if str_eq(name, "ignoresendprivatecheck") {
        return Some(PLAYER_FLAG_IGNORE_SEND_PRIVATE_CHECK);
    }
    None
}

/// The flags of the built-in groups: player, tutor, senior tutor, gamemaster,
/// community manager, and god for any other group.
pub open spec fn default_group_flags(group_id: u32) -> u64 {
    match group_id {
        1 => 0,
        2 => PLAYER_FLAG_TALK_ORANGE_HELP_CHANNEL | PLAYER_FLAG_CANNOT_BE_MUTED,
        3 => PLAYER_FLAG_TALK_ORANGE_HELP_CHANNEL | PLAYER_FLAG_CAN_TALK_RED_PRIVATE
            | PLAYER_FLAG_CAN_TALK_RED_CHANNEL | PLAYER_FLAG_CANNOT_BE_MUTED,
        4 => PLAYER_FLAG_CANNOT_USE_COMBAT
            | PLAYER_FLAG_CANNOT_ATTACK_PLAYER
            | PLAYER_FLAG_CANNOT_ATTACK_MONSTER
            | PLAYER_FLAG_CANNOT_BE_ATTACKED
            | PLAYER_FLAG_CAN_ILLUSION_ALL
            | PLAYER_FLAG_CAN_SENSE_INVISIBILITY
            | PLAYER_FLAG_IGNORED_BY_MONSTERS
            | PLAYER_FLAG_NOT_GAIN_IN_FIGHT
            | PLAYER_FLAG_HAS_NO_EXHAUSTION
            | PLAYER_FLAG_CANNOT_USE_SPELLS
            | PLAYER_FLAG_CANNOT_PICKUP_ITEM
            | PLAYER_FLAG_CAN_ALWAYS_LOGIN
            | PLAYER_FLAG_CAN_BROADCAST
            | PLAYER_FLAG_CANNOT_BE_BANNED
            | PLAYER_FLAG_CANNOT_BE_PUSHED
            | PLAYER_FLAG_HAS_INFINITE_CAPACITY
            | PLAYER_FLAG_CAN_PUSH_ALL_CREATURES
            | PLAYER_FLAG_CAN_TALK_RED_PRIVATE
            | PLAYER_FLAG_CAN_TALK_RED_CHANNEL
            | PLAYER_FLAG_TALK_ORANGE_HELP_CHANNEL
            | PLAYER_FLAG_NOT_GAIN_EXPERIENCE
            | PLAYER_FLAG_NOT_GAIN_MANA
            | PLAYER_FLAG_NOT_GAIN_HEALTH
            | PLAYER_FLAG_NOT_GAIN_SKILL
            | PLAYER_FLAG_SET_MAX_SPEED
            | PLAYER_FLAG_SPECIAL_VIP
            | PLAYER_FLAG_NOT_GENERATE_LOOT
            | PLAYER_FLAG_IGNORE_PROTECTION_ZONE
            | PLAYER_FLAG_IGNORE_SPELL_CHECK
            | PLAYER_FLAG_IGNORE_WEAPON_CHECK
            | PLAYER_FLAG_CANNOT_BE_MUTED
            | PLAYER_FLAG_IS_ALWAYS_PREMIUM
            | PLAYER_FLAG_IGNORE_YELL_CHECK
            | PLAYER_FLAG_IGNORE_SEND_PRIVATE_CHECK,
        5 => PLAYER_FLAG_CANNOT_ATTACK_PLAYER
            | PLAYER_FLAG_CANNOT_BE_ATTACKED
            | PLAYER_FLAG_CAN_CONVINCE_ALL
            | PLAYER_FLAG_CAN_SUMMON_ALL
            | PLAYER_FLAG_CAN_ILLUSION_ALL
            | PLAYER_FLAG_CAN_SENSE_INVISIBILITY
            | PLAYER_FLAG_IGNORED_BY_MONSTERS
            | PLAYER_FLAG_NOT_GAIN_IN_FIGHT
            | PLAYER_FLAG_HAS_INFINITE_MANA
            | PLAYER_FLAG_HAS_INFINITE_SOUL
            | PLAYER_FLAG_HAS_NO_EXHAUSTION
            | PLAYER_FLAG_CAN_ALWAYS_LOGIN
            | PLAYER_FLAG_CAN_BROADCAST
            | PLAYER_FLAG_CANNOT_BE_BANNED
            | PLAYER_FLAG_CANNOT_BE_PUSHED
            | PLAYER_FLAG_HAS_INFINITE_CAPACITY
            | PLAYER_FLAG_CAN_PUSH_ALL_CREATURES
            | PLAYER_FLAG_CAN_TALK_RED_PRIVATE
            | PLAYER_FLAG_CAN_TALK_RED_CHANNEL
            | PLAYER_FLAG_TALK_ORANGE_HELP_CHANNEL
            | PLAYER_FLAG_NOT_GAIN_EXPERIENCE
            | PLAYER_FLAG_NOT_GAIN_MANA
            | PLAYER_FLAG_NOT_GAIN_HEALTH
            | PLAYER_FLAG_NOT_GAIN_SKILL
            | PLAYER_FLAG_SET_MAX_SPEED
            | PLAYER_FLAG_SPECIAL_VIP
            | PLAYER_FLAG_NOT_GENERATE_LOOT
            | PLAYER_FLAG_IGNORE_PROTECTION_ZONE
            | PLAYER_FLAG_IGNORE_SPELL_CHECK
            | PLAYER_FLAG_IGNORE_WEAPON_CHECK
            | PLAYER_FLAG_CANNOT_BE_MUTED
            | PLAYER_FLAG_IS_ALWAYS_PREMIUM
            | PLAYER_FLAG_IGNORE_YELL_CHECK
            | PLAYER_FLAG_IGNORE_SEND_PRIVATE_CHECK,
        _ => PLAYER_FLAG_CANNOT_ATTACK_PLAYER
            | PLAYER_FLAG_CANNOT_BE_ATTACKED
            | PLAYER_FLAG_CAN_CONVINCE_ALL
            | PLAYER_FLAG_CAN_SUMMON_ALL
            | PLAYER_FLAG_CAN_ILLUSION_ALL
            | PLAYER_FLAG_CAN_SENSE_INVISIBILITY
            | PLAYER_FLAG_IGNORED_BY_MONSTERS
            | PLAYER_FLAG_NOT_GAIN_IN_FIGHT
            | PLAYER_FLAG_HAS_INFINITE_MANA
            | PLAYER_FLAG_HAS_INFINITE_SOUL
            | PLAYER_FLAG_HAS_NO_EXHAUSTION
            | PLAYER_FLAG_CAN_ALWAYS_LOGIN
            | PLAYER_FLAG_CAN_BROADCAST
            | PLAYER_FLAG_CAN_EDIT_HOUSES
            | PLAYER_FLAG_CANNOT_BE_BANNED
            | PLAYER_FLAG_CANNOT_BE_PUSHED
            | PLAYER_FLAG_HAS_INFINITE_CAPACITY
            | PLAYER_FLAG_CAN_PUSH_ALL_CREATURES
            | PLAYER_FLAG_CAN_TALK_RED_PRIVATE
            | PLAYER_FLAG_CAN_TALK_RED_CHANNEL
            | PLAYER_FLAG_TALK_ORANGE_HELP_CHANNEL
            | PLAYER_FLAG_NOT_GAIN_EXPERIENCE
            | PLAYER_FLAG_NOT_GAIN_MANA
            | PLAYER_FLAG_NOT_GAIN_HEALTH
            | PLAYER_FLAG_NOT_GAIN_SKILL
            | PLAYER_FLAG_SET_MAX_SPEED
            | PLAYER_FLAG_SPECIAL_VIP
            | PLAYER_FLAG_IGNORE_PROTECTION_ZONE
            | PLAYER_FLAG_IGNORE_SPELL_CHECK
            | PLAYER_FLAG_IGNORE_WEAPON_CHECK
            | PLAYER_FLAG_CANNOT_BE_MUTED
            | PLAYER_FLAG_IS_ALWAYS_PREMIUM
            | PLAYER_FLAG_IGNORE_YELL_CHECK
            | PLAYER_FLAG_IGNORE_SEND_PRIVATE_CHECK,
    }
}

fn builtin_group_flags(group_id: u32) -> (f: u64)
    ensures
        f == default_group_flags(group_id),
{
    match group_id {
        1 => 0,
        2 => PLAYER_FLAG_TALK_ORANGE_HELP_CHANNEL | PLAYER_FLAG_CANNOT_BE_MUTED,
        3 => PLAYER_FLAG_TALK_ORANGE_HELP_CHANNEL | PLAYER_FLAG_CAN_TALK_RED_PRIVATE
            | PLAYER_FLAG_CAN_TALK_RED_CHANNEL | PLAYER_FLAG_CANNOT_BE_MUTED,
        4 => PLAYER_FLAG_CANNOT_USE_COMBAT
            | PLAYER_FLAG_CANNOT_ATTACK_PLAYER
            | PLAYER_FLAG_CANNOT_ATTACK_MONSTER
            | PLAYER_FLAG_CANNOT_BE_ATTACKED
            | PLAYER_FLAG_CAN_ILLUSION_ALL
            | PLAYER_FLAG_CAN_SENSE_INVISIBILITY
            | PLAYER_FLAG_IGNORED_BY_MONSTERS
            | PLAYER_FLAG_NOT_GAIN_IN_FIGHT
            | PLAYER_FLAG_HAS_NO_EXHAUSTION
            | PLAYER_FLAG_CANNOT_USE_SPELLS
            | PLAYER_FLAG_CANNOT_PICKUP_ITEM
            | PLAYER_FLAG_CAN_ALWAYS_LOGIN
            | PLAYER_FLAG_CAN_BROADCAST
            | PLAYER_FLAG_CANNOT_BE_BANNED
            | PLAYER_FLAG_CANNOT_BE_PUSHED
            | PLAYER_FLAG_HAS_INFINITE_CAPACITY
            | PLAYER_FLAG_CAN_PUSH_ALL_CREATURES
            | PLAYER_FLAG_CAN_TALK_RED_PRIVATE
            | PLAYER_FLAG_CAN_TALK_RED_CHANNEL
            | PLAYER_FLAG_TALK_ORANGE_HELP_CHANNEL
            | PLAYER_FLAG_NOT_GAIN_EXPERIENCE
            | PLAYER_FLAG_NOT_GAIN_MANA
            | PLAYER_FLAG_NOT_GAIN_HEALTH
            | PLAYER_FLAG_NOT_GAIN_SKILL
            | PLAYER_FLAG_SET_MAX_SPEED
            | PLAYER_FLAG_SPECIAL_VIP
            | PLAYER_FLAG_NOT_GENERATE_LOOT
            | PLAYER_FLAG_IGNORE_PROTECTION_ZONE
            | PLAYER_FLAG_IGNORE_SPELL_CHECK
            | PLAYER_FLAG_IGNORE_WEAPON_CHECK
            | PLAYER_FLAG_CANNOT_BE_MUTED
            | PLAYER_FLAG_IS_ALWAYS_PREMIUM
            | PLAYER_FLAG_IGNORE_YELL_CHECK
            | PLAYER_FLAG_IGNORE_SEND_PRIVATE_CHECK,
        5 => PLAYER_FLAG_CANNOT_ATTACK_PLAYER
            | PLAYER_FLAG_CANNOT_BE_ATTACKED
            | PLAYER_FLAG_CAN_CONVINCE_ALL
            | PLAYER_FLAG_CAN_SUMMON_ALL
            | PLAYER_FLAG_CAN_ILLUSION_ALL
            | PLAYER_FLAG_CAN_SENSE_INVISIBILITY
            | PLAYER_FLAG_IGNORED_BY_MONSTERS
            | PLAYER_FLAG_NOT_GAIN_IN_FIGHT
            | PLAYER_FLAG_HAS_INFINITE_MANA
            | PLAYER_FLAG_HAS_INFINITE_SOUL
            | PLAYER_FLAG_HAS_NO_EXHAUSTION
            | PLAYER_FLAG_CAN_ALWAYS_LOGIN
            | PLAYER_FLAG_CAN_BROADCAST
            | PLAYER_FLAG_CANNOT_BE_BANNED
            | PLAYER_FLAG_CANNOT_BE_PUSHED
            | PLAYER_FLAG_HAS_INFINITE_CAPACITY
            | PLAYER_FLAG_CAN_PUSH_ALL_CREATURES
            | PLAYER_FLAG_CAN_TALK_RED_PRIVATE
            | PLAYER_FLAG_CAN_TALK_RED_CHANNEL
            | PLAYER_FLAG_TALK_ORANGE_HELP_CHANNEL
            | PLAYER_FLAG_NOT_GAIN_EXPERIENCE
            | PLAYER_FLAG_NOT_GAIN_MANA
            | PLAYER_FLAG_NOT_GAIN_HEALTH
            | PLAYER_FLAG_NOT_GAIN_SKILL
            | PLAYER_FLAG_SET_MAX_SPEED
            | PLAYER_FLAG_SPECIAL_VIP
            | PLAYER_FLAG_NOT_GENERATE_LOOT
            | PLAYER_FLAG_IGNORE_PROTECTION_ZONE
            | PLAYER_FLAG_IGNORE_SPELL_CHECK
            | PLAYER_FLAG_IGNORE_WEAPON_CHECK
            | PLAYER_FLAG_CANNOT_BE_MUTED
            | PLAYER_FLAG_IS_ALWAYS_PREMIUM
            | PLAYER_FLAG_IGNORE_YELL_CHECK
            | PLAYER_FLAG_IGNORE_SEND_PRIVATE_CHECK,
        _ => PLAYER_FLAG_CANNOT_ATTACK_PLAYER
            | PLAYER_FLAG_CANNOT_BE_ATTACKED
            | PLAYER_FLAG_CAN_CONVINCE_ALL
            | PLAYER_FLAG_CAN_SUMMON_ALL
            | PLAYER_FLAG_CAN_ILLUSION_ALL
            | PLAYER_FLAG_CAN_SENSE_INVISIBILITY
            | PLAYER_FLAG_IGNORED_BY_MONSTERS
            | PLAYER_FLAG_NOT_GAIN_IN_FIGHT
            | PLAYER_FLAG_HAS_INFINITE_MANA
            | PLAYER_FLAG_HAS_INFINITE_SOUL
            | PLAYER_FLAG_HAS_NO_EXHAUSTION
            | PLAYER_FLAG_CAN_ALWAYS_LOGIN
            | PLAYER_FLAG_CAN_BROADCAST
            | PLAYER_FLAG_CAN_EDIT_HOUSES
            | PLAYER_FLAG_CANNOT_BE_BANNED
            | PLAYER_FLAG_CANNOT_BE_PUSHED
            | PLAYER_FLAG_HAS_INFINITE_CAPACITY
            | PLAYER_FLAG_CAN_PUSH_ALL_CREATURES
            | PLAYER_FLAG_CAN_TALK_RED_PRIVATE
            | PLAYER_FLAG_CAN_TALK_RED_CHANNEL
            | PLAYER_FLAG_TALK_ORANGE_HELP_CHANNEL
            | PLAYER_FLAG_NOT_GAIN_EXPERIENCE
            | PLAYER_FLAG_NOT_GAIN_MANA
            | PLAYER_FLAG_NOT_GAIN_HEALTH
            | PLAYER_FLAG_NOT_GAIN_SKILL
            | PLAYER_FLAG_SET_MAX_SPEED
            | PLAYER_FLAG_SPECIAL_VIP
            | PLAYER_FLAG_IGNORE_PROTECTION_ZONE
            | PLAYER_FLAG_IGNORE_SPELL_CHECK
            | PLAYER_FLAG_IGNORE_WEAPON_CHECK
            | PLAYER_FLAG_CANNOT_BE_MUTED
            | PLAYER_FLAG_IS_ALWAYS_PREMIUM
            | PLAYER_FLAG_IGNORE_YELL_CHECK
            | PLAYER_FLAG_IGNORE_SEND_PRIVATE_CHECK,
    }
}

/// A group: its name, flag bits, depot and VIP limits, id, and whether it
/// counts as staff.
#[derive(Debug, Clone)]
pub struct Group {
    pub name: String,
    pub flags: u64,
    pub max_depot_items: u32,
    pub max_vip_entries: u32,
    pub id: u16,
    pub access: bool,
}

/// A group as the groups file gives it: its numbers, and the attributes
/// of its flag entries (name and value).
#[derive(Debug, Clone)]
pub struct GroupEntry {
    pub id: u16,
    pub name: String,
    pub access: bool,
    pub maxdepotitems: u32,
    pub maxvipentries: u32,
    pub flag_attributes: Vec<(String, String)>,
}

/// Whether a flag attribute's value switches the flag on.
pub open spec fn switches_on(value: Seq<char>) -> bool {
    value == "1"@ || value == "true"@
}

/// The flags that the attributes from the first `n` on switch on.
pub open spec fn flags_of(attrs: Seq<(String, String)>) -> u64
    decreases attrs.len(),
{
    if attrs.len() == 0 {
        0
    } else {
        let rest = flags_of(attrs.drop_last());
        let a = attrs.last();
        if switches_on(a.1@) {
            match flag_bit_for(a.0@) {
                Some(bit) => rest | bit,
                None => rest,
            }
        } else {
            rest
        }
    }
}

/// Whether `g` is the group that file entry `e` describes.
pub open spec fn is_group_of(g: Group, e: GroupEntry) -> bool {
    &&& g.name == e.name
    &&& g.flags == flags_of(e.flag_attributes@)
    &&& g.max_depot_items == e.maxdepotitems
    &&& g.max_vip_entries == e.maxvipentries
    &&& g.id == e.id
    &&& g.access == e.access
}

/// All groups, in file order.
#[derive(Debug, Clone)]
pub struct Groups {
    groups: Vec<Group>,
}

impl View for Groups {
    type V = Seq<Group>;

    closed spec fn view(&self) -> Seq<Group> {
        self.groups@
    }
}

impl Default for Groups {
    fn default() -> (g: Self)
        ensures
            g@ == Seq::<Group>::empty(),
    {
        Groups { groups: Vec::new() }
    }
}

/// The index of the first group from `i` on with id `id`, or the length.
pub open spec fn group_index(gs: Seq<Group>, id: u16, i: int) -> int
    decreases gs.len() - i,
{
    if i < 0 || i >= gs.len() {
        gs.len() as int
    } else if gs[i].id == id {
        i
    } else {
        group_index(gs, id, i + 1)
    }
}

fn group_from_entry(e: GroupEntry) -> (g: Group)
    ensures
        is_group_of(g, e),
{
    let attrs = &e.flag_attributes;
    let mut flags: u64 = 0;
    let mut i: usize = 0;
    while i < attrs.len()
        invariant
            i <= attrs@.len(),
            flags == flags_of(attrs@.take(i as int)),
        decreases attrs@.len() - i,
    {
        let (name, value) = &attrs[i];
        proof {
            assert(attrs@.take(i + 1).drop_last() =~= attrs@.take(i as int));
            assert(attrs@.take(i + 1).last() == attrs@[i as int]);
        }
        if str_eq(value.as_str(), "1") || str_eq(value.as_str(), "true") {
            match player_flag_bit(name.as_str()) {
                Some(bit) => {
                    flags = flags | bit;
                },
                None => {},
            }
        }
        i = i + 1;
    }
    assert(attrs@.take(attrs@.len() as int) =~= attrs@);
    Group {
        name: e.name,
        flags,
        max_depot_items: e.maxdepotitems,
        max_vip_entries: e.maxvipentries,
        id: e.id,
        access: e.access,
    }
}

impl Groups {
    /// The groups the file's entries describe, in file order.
    pub fn from_entries(entries: Vec<GroupEntry>) -> (gs: Groups)
        ensures
            gs@.len() == entries@.len(),
            forall|i: int| 0 <= i < entries@.len() ==> is_group_of(#[trigger] gs@[i], entries@[i]),
    {
        let ghost all = entries@;
        let total: usize = entries.len();
        let mut rest = entries;
        let mut groups: Vec<Group> = Vec::new();
        let mut n: usize = 0;
        while rest.len() > 0
            invariant
                n + rest@.len() == all.len(),
                all.len() == total,
                rest@ == all.skip(n as int),
                groups@.len() == n,
                forall|i: int| 0 <= i < n ==> is_group_of(#[trigger] groups@[i], all[i]),
            decreases rest@.len(),
        {
            let e = rest.remove(0);
            proof {
                assert(e == all[n as int]);
                assert(rest@ =~= all.skip(n + 1));
            }
            groups.push(group_from_entry(e));
            n = n + 1;
        }
        Groups { groups }
    }

    /// The first group with id `id`.
    pub fn get_group(&self, id: u16) -> (r: Option<&Group>)
        ensures
            ({
                let k = group_index(self@, id, 0);
                match r {
                    Some(g) => k < self@.len() && *g == self@[k],
                    None => k == self@.len(),
                }
            }),
    {
        let mut i: usize = 0;
        while i < self.groups.len()
            invariant
                i <= self@.len(),
                group_index(self@, id, 0) == group_index(self@, id, i as int),
            decreases self@.len() - i,
        {
            if self.groups[i].id == id {
                return Some(&self.groups[i]);
            }
            i = i + 1;
        }
        None
    }
}

/// The loaded group with number `group_id` (truncated to 16 bits), if
/// groups are loaded and it is among them.
pub open spec fn loaded_group(groups: Option<&Groups>, group_id: u32) -> Option<Group> {
    match groups {
        Some(gs) => {
            let k = group_index(gs@, group_id as u16, 0);
            if k < gs@.len() {
                Some(gs@[k])
            } else {
                None
            }
        },
        None => None,
    }
}

/// Whether group `group_id` counts as staff: as the loaded groups say, or
/// else for the gamemaster and community manager groups (4 and 5).
pub fn access_for_group_id(groups: Option<&Groups>, group_id: u32) -> (r: bool)
    ensures
        r == match loaded_group(groups, group_id) {
            Some(g) => g.access,
            None => group_id == 4 || group_id == 5,
        },
{
    match groups {
        Some(gs) => {
            match gs.get_group(#[verifier::truncate] (group_id as u16)) {
                Some(g) => {
                    return g.access;
                },
                None => {},
            }
        },
        None => {},
    }
    group_id == 4 || group_id == 5
}

/// The flags of group `group_id`: as the loaded groups say, or else the
/// built-in ones (see `default_group_flags`).
pub fn flags_for_group_id(groups: Option<&Groups>, group_id: u32) -> (r: u64)
    ensures
        r == match loaded_group(groups, group_id) {
            Some(g) => g.flags,
            None => default_group_flags(group_id),
        },
{
    match groups {
        Some(gs) => {
            match gs.get_group(#[verifier::truncate] (group_id as u16)) {
                Some(g) => {
                    return g.flags;
                },
                None => {},
            }
        },
        None => {},
    }
    builtin_group_flags(group_id)
}

/// A flag attribute with a value other than "1" or "true" adds no flag.
pub proof fn law_off_attributes_ignored(attrs: Seq<(String, String)>, a: (String, String))
    requires
        !switches_on(a.1@),
    ensures
        flags_of(attrs.push(a)) == flags_of(attrs),
{
    assert(attrs.push(a).drop_last() =~= attrs);
}


/// Why a groups file could not be read.
#[derive(Debug, Clone, Copy, PartialEq, Eq)]
pub enum GroupsXmlError {
    /// The text is not a well-formed XML document.
    Malformed,
}

/// The views of attribute pairs.
pub open spec fn pair_views(v: Seq<(String, String)>) -> Seq<(Seq<char>, Seq<char>)> {
    v.map_values(|a: (String, String)| (a.0@, a.1@))
}

/// The flags that attributes (name and value) switch on (see `flags_of`).
pub open spec fn flags_of_views(attrs: Seq<(Seq<char>, Seq<char>)>) -> u64
    decreases attrs.len(),
{
    if attrs.len() == 0 {
        0
    } else {
        let rest = flags_of_views(attrs.drop_last());
        let a = attrs.last();
        if switches_on(a.1) {
            match flag_bit_for(a.0) {
                Some(bit) => rest | bit,
                None => rest,
            }
        } else {
            rest
        }
    }
}

proof fn lemma_flags_of_views(attrs: Seq<(String, String)>)
    ensures
        flags_of(attrs) == flags_of_views(pair_views(attrs)),
    decreases attrs.len(),
{
    if attrs.len() > 0 {
        lemma_flags_of_views(attrs.drop_last());
        assert(pair_views(attrs).drop_last() =~= pair_views(attrs.drop_last()));
    }
}

/// The attributes of the elements `es`, one element after the other.
pub open spec fn elements_attributes(nodes: Seq<XmlNodeView>, es: Seq<int>) -> Seq<(Seq<char>, Seq<char>)>
    decreases es.len(),
{
    if es.len() == 0 {
        Seq::empty()
    } else {
        elements_attributes(nodes, es.drop_last()) + nodes[es.last()].attributes
    }
}

/// The attributes of the `flag` elements of each of the `flags` elements
/// `fs`, in order.
pub open spec fn flag_lists_attributes(nodes: Seq<XmlNodeView>, fs: Seq<int>) -> Seq<(Seq<char>, Seq<char>)>
    decreases fs.len(),
{
    if fs.len() == 0 {
        Seq::empty()
    } else {
        flag_lists_attributes(nodes, fs.drop_last()) + elements_attributes(
            nodes,
            children_named(nodes, fs.last(), "flag"@),
        )
    }
}

/// A number attribute of a groups file: the number it spells (see
/// `parse_unsigned`), 0 where it spells none.
pub open spec fn number_or_zero(s: Seq<char>, max: nat) -> nat {
    match parse_unsigned(s, max) {
        Some(n) => n,
        None => 0,
    }
}

/// Whether `e` is the entry that group element `g` of the document gives:
/// its `id`, `name`, `access` (on unless "0"), `maxdepotitems` and
/// `maxvipentries` attributes (a missing or unreadable number is 0), and
/// the attributes of the `flag` elements in its `flags` elements.
pub open spec fn is_entry_of_node(e: GroupEntry, nodes: Seq<XmlNodeView>, g: int) -> bool {
    let n = nodes[g];
    &&& e.id == number_or_zero(attribute_or(n, "id"@, "0"@), 65535)
    &&& e.name@ == attribute_or(n, "name"@, ""@)
    &&& e.access == (attribute_or(n, "access"@, "0"@) != "0"@)
    &&& e.maxdepotitems == number_or_zero(attribute_or(n, "maxdepotitems"@, "0"@), 0xffff_ffff)
    &&& e.maxvipentries == number_or_zero(attribute_or(n, "maxvipentries"@, "0"@), 0xffff_ffff)
    &&& pair_views(e.flag_attributes@) == flag_lists_attributes(nodes, children_named(nodes, g, "flags"@))
}

/// The group elements of a groups document: the `group` children of its
/// root element, in order.
pub open spec fn group_elements(nodes: Seq<XmlNodeView>) -> Seq<int> {
    match root_element_from(nodes, 0) {
        Some(r) => children_named(nodes, r, "group"@),
        None => Seq::empty(),
    }
}

/// Whether `g` is the group that group element `i` of the document gives
/// (see `is_entry_of_node` and `is_group_of`).
pub open spec fn is_group_of_node(g: Group, nodes: Seq<XmlNodeView>, i: int) -> bool {
    let n = nodes[i];
    &&& g.id == number_or_zero(attribute_or(n, "id"@, "0"@), 65535)
    &&& g.name@ == attribute_or(n, "name"@, ""@)
    &&& g.access == (attribute_or(n, "access"@, "0"@) != "0"@)
    &&& g.max_depot_items == number_or_zero(attribute_or(n, "maxdepotitems"@, "0"@), 0xffff_ffff)
    &&& g.max_vip_entries == number_or_zero(attribute_or(n, "maxvipentries"@, "0"@), 0xffff_ffff)
    &&& g.flags == flags_of_views(flag_lists_attributes(nodes, children_named(nodes, i, "flags"@)))
}

fn number_attribute(nodes: &Vec<XmlNode>, i: usize, name: &str, max: u64) -> (r: u64)
    requires
        i < nodes@.len(),
    ensures
        r == number_or_zero(attribute_or(nodes_view(nodes@)[i as int], name@, "0"@), max as nat),
{
    let v = attribute_value(nodes, i, name, "0");
    match parse_unsigned_str(v.as_str(), max) {
        Some(n) => n,
        None => 0,
    }
}

fn push_attributes(out: &mut Vec<(String, String)>, nodes: &Vec<XmlNode>, k: usize)
    requires
        k < nodes@.len(),
    ensures
        pair_views(final(out)@) == pair_views(old(out)@) + nodes_view(nodes@)[k as int].attributes,
{
    let attrs = &nodes[k].attributes;
    let ghost start = pair_views(out@);
    assert(nodes_view(nodes@)[k as int].attributes == pair_views(attrs@));
    let mut m: usize = 0;
    while m < attrs.len()
        invariant
            m <= attrs@.len(),
            pair_views(out@) == start + pair_views(attrs@).take(m as int),
        decreases attrs@.len() - m,
    {
        let a = &attrs[m];
        let ghost before = out@;
        out.push((a.0.clone(), a.1.clone()));
        assert(pair_views(out@) =~= pair_views(before).push((a.0@, a.1@)));
        assert(pair_views(attrs@).take(m + 1) =~= pair_views(attrs@).take(m as int).push((a.0@, a.1@)));
        m = m + 1;
    }
    assert(pair_views(attrs@).take(attrs@.len() as int) =~= pair_views(attrs@));
}

fn group_entry_at(nodes: &Vec<XmlNode>, g: usize) -> (e: GroupEntry)
    requires
        g < nodes@.len(),
    ensures
        is_entry_of_node(e, nodes_view(nodes@), g as int),
{
    let ghost vs = nodes_view(nodes@);
    let n = nodes.len();
    let mut flag_attributes: Vec<(String, String)> = Vec::new();
    let mut j: usize = 0;
    while j < n
        invariant
            n == nodes@.len(),
            vs == nodes_view(nodes@),
            j <= n,
            g < n,
            pair_views(flag_attributes@) == flag_lists_attributes(vs, children_upto(vs, g as int, "flags"@, j as int)),
        decreases n - j,
    {
        if child_named(nodes, g, j, "flags") {
            let ghost before = pair_views(flag_attributes@);
            let mut k: usize = 0;
            while k < n
                invariant
                    n == nodes@.len(),
                    vs == nodes_view(nodes@),
                    k <= n,
                    j < n,
                    pair_views(flag_attributes@) == before + elements_attributes(
                        vs,
                        children_upto(vs, j as int, "flag"@, k as int),
                    ),
                decreases n - k,
            {
                if child_named(nodes, j, k, "flag") {
                    let ghost b2 = pair_views(flag_attributes@);
                    push_attributes(&mut flag_attributes, nodes, k);
                    let ghost es = children_upto(vs, j as int, "flag"@, k + 1);
                    assert(es.drop_last() =~= children_upto(vs, j as int, "flag"@, k as int));
                    assert(pair_views(flag_attributes@) =~= before + elements_attributes(vs, es));
                }
                k = k + 1;
            }
            let ghost fs = children_upto(vs, g as int, "flags"@, j + 1);
            assert(fs.drop_last() =~= children_upto(vs, g as int, "flags"@, j as int));
            assert(pair_views(flag_attributes@) =~= flag_lists_attributes(vs, fs));
        }
        j = j + 1;
    }
    let id = number_attribute(nodes, g, "id", 65535);
    let access = attribute_value(nodes, g, "access", "0");
    GroupEntry {
        id: id as u16,
        name: attribute_value(nodes, g, "name", ""),
        access: !str_eq(access.as_str(), "0"),
        maxdepotitems: number_attribute(nodes, g, "maxdepotitems", 0xffff_ffff) as u32,
        maxvipentries: number_attribute(nodes, g, "maxvipentries", 0xffff_ffff) as u32,
        flag_attributes,
    }
}

/// Reads the groups of a groups file: one group for each `group` element
/// of the root element, in order (see `is_group_of_node`); an error where
/// the text is not a well-formed XML document.
pub fn groups_from_xml(text: &str) -> (r: Result<Groups, GroupsXmlError>)
    ensures
        match xml_document(text@) {
            None => r == Err::<Groups, GroupsXmlError>(GroupsXmlError::Malformed),
            Some(nodes) => r matches Ok(gs) && gs@.len() == group_elements(nodes).len() && forall|i: int|
                0 <= i < gs@.len() ==> is_group_of_node(
                    #[trigger] gs@[i],
                    nodes,
                    group_elements(nodes)[i],
                ),
        },
{
    let nodes = match parse_xml(text) {
        Some(v) => v,
        None => {
            return Err(GroupsXmlError::Malformed);
        },
    };
    let ghost vs = nodes_view(nodes@);
    let mut entries: Vec<GroupEntry> = Vec::new();
    let ghost groups_seq: Seq<int> = group_elements(vs);
    match root_element(&nodes) {
        None => {
            assert(groups_seq =~= Seq::<int>::empty());
        },
        Some(root) => {
            let n = nodes.len();
            let mut i: usize = 0;
            while i < n
                invariant
                    n == nodes@.len(),
                    vs == nodes_view(nodes@),
                    i <= n,
                    entries@.len() == children_upto(vs, root as int, "group"@, i as int).len(),
                    forall|k: int| 0 <= k < entries@.len() ==> is_entry_of_node(
                        #[trigger] entries@[k],
                        vs,
                        children_upto(vs, root as int, "group"@, i as int)[k],
                    ),
                decreases n - i,
            {
                if child_named(&nodes, root, i, "group") {
                    let e = group_entry_at(&nodes, i);
                    entries.push(e);
                    assert(children_upto(vs, root as int, "group"@, i + 1) == children_upto(
                        vs,
                        root as int,
                        "group"@,
                        i as int,
                    ).push(i as int));
                }
                i = i + 1;
            }
            assert(vs.len() == n);
            assert(root_element_from(vs, 0) == Some(root as int));
            assert(groups_seq == children_upto(vs, root as int, "group"@, n as int));
        },
    }
    let ghost es = entries@;
    assert(es.len() == groups_seq.len());
    assert(forall|k: int| 0 <= k < es.len() ==> is_entry_of_node(#[trigger] es[k], vs, groups_seq[k]));
    let gs = Groups::from_entries(entries);
    proof {
        assert forall|i: int| 0 <= i < gs@.len() implies is_group_of_node(#[trigger] gs@[i], vs, groups_seq[i]) by {
            assert(is_group_of(gs@[i], es[i]));
            assert(is_entry_of_node(es[i], vs, groups_seq[i]));
            lemma_flags_of_views(es[i].flag_attributes@);
        }
    }
    Ok(gs)
}

} // verus!
