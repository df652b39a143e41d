//! What happens when a player says something: the checks on talking (the
//! message buffer, mutes, the levels for yelling and private messages) and
//! the kind of message that goes out.
use vstd::prelude::*;
use crate::map::Position;
use crate::net::geometry::is_adjacent;
use crate::util::text::{chars_of, string_from_chars, to_uppercase, uppercase};
use crate::world::groups::{
    PLAYER_FLAG_CANNOT_BE_MUTED, PLAYER_FLAG_CAN_BROADCAST, PLAYER_FLAG_CAN_TALK_RED_PRIVATE,
    PLAYER_FLAG_IGNORE_SEND_PRIVATE_CHECK, PLAYER_FLAG_IGNORE_YELL_CHECK,
};

verus! {

/// What the rules on talking look at when a player says something.
#[derive(Debug, Clone, Copy, PartialEq, Eq)]
pub struct SayFacts {
    /// The speak class (1 say, 2 whisper, 3 yell, 4 private to an NPC,
    /// 6 private, 7 and 8 and 15 channel, 12 broadcast, 14 red private).
    pub speak_type: u8,
    /// Whether a talk action or a spell took the words.
    pub scripts_consumed: bool,
    /// Whether the player has an access group.
    pub is_access: bool,
    /// The flags of the player's group.
    pub group_flags: u64,
    /// Whether the player's account is a game master's or higher.
    pub is_game_master: bool,
    pub level: u32,
    pub is_premium: bool,
    /// The seconds left of the player's longest mute.
    pub mute_seconds: u32,
    /// How many recent messages the player has in his buffer.
    pub message_buffer_count: i32,
    /// The configured size of the buffer; 0 switches it off.
    pub max_message_buffer: i32,
    /// How often the player was muted for spam, if he ever was.
    pub mute_count: Option<u32>,
    /// Whether the player is still exhausted from yelling.
    pub yell_exhausted: bool,
    pub yell_minimum_level: u32,
    /// Whether a premium account may yell below the minimum level.
    pub yell_allow_premium: bool,
    pub private_minimum_level: u32,
    /// Whether a premium account may send private messages below the
    /// minimum level.
    pub premium_to_send_private: bool,
    /// Whether the receiver of a private message is online.
    pub receiver_online: bool,
}

/// What is done with the words.
#[derive(Debug, Clone, Copy, PartialEq, Eq)]
pub enum SayAction {
    /// Nothing goes out.
    Ignore,
    /// Only the NPCs nearby hear it.
    NpcsOnly,
    /// The player is told that he is still muted for `seconds`.
    StillMuted { seconds: u32 },
    /// The player said too much: he is muted for `seconds` (a condition of
    /// `ticks` milliseconds) and told so.
    MutedNow { seconds: u32, ticks: u32 },
    /// The player is told that he is exhausted.
    Exhausted,
    /// The player is told that he may not yell below `min_level`, and, where
    /// `premium` holds, that a premium account may.
    YellRefused { min_level: u32, premium: bool },
    /// The words are yelled; `exhaust` tells whether the player gets the
    /// yelling exhaustion.
    Yell { exhaust: bool },
    /// The words are said to the spectators.
    Say,
    /// The words are whispered (see `whispered_text`).
    Whisper,
    /// The player is told that he may not send private messages below
    /// `min_level`, and, where `premium` holds, that a premium account may.
    PrivateRefused { min_level: u32, premium: bool },
    /// The player is told that the receiver is not online.
    ReceiverOffline,
    /// A private message of speak class `speak_type` (6, or 14 in red) goes
    /// to the receiver and is echoed to the sender.
    Private { speak_type: u8 },
    /// The words go to every player.
    Broadcast,
    /// The words go to the spectators on the channel.
    Channel,
}

/// The outcome of saying something.
#[derive(Debug, Clone)]
pub struct SayDecision {
    pub action: SayAction,
    /// The player's message buffer count afterwards.
    pub message_buffer_count: i32,
    /// The player's mute count afterwards, where it changed.
    pub mute_count: Option<u32>,
    /// Whether the player's idle time is reset.
    pub reset_idle: bool,
    /// The words that go out: in capitals for a yell.
    pub text: String,
}

/// Whether the player's talking is subject to mutes and the message buffer.
pub open spec fn can_be_muted(f: SayFacts) -> bool {
    f.group_flags & PLAYER_FLAG_CANNOT_BE_MUTED == 0
}

/// Whether the words pass the checks before the message buffer: there are
/// words, no script took them, they are not for an NPC, they are not a
/// command of an access player, and the player is not muted.
pub open spec fn reaches_buffer(f: SayFacts, text: Seq<char>) -> bool {
    &&& text.len() > 0
    &&& !f.scripts_consumed
    &&& f.speak_type != 4
    &&& !(text[0] == '/' && f.is_access)
    &&& !(can_be_muted(f) && f.mute_seconds > 0)
}

/// Whether the message buffer counts these words.
pub open spec fn buffer_counts(f: SayFacts) -> bool {
    can_be_muted(f) && f.max_message_buffer != 0 && f.message_buffer_count <= f.max_message_buffer + 1
}

/// The mute count used for a new mute: 1 for a player never muted.
pub open spec fn current_mute_count(f: SayFacts) -> u32 {
    match f.mute_count {
        Some(c) => c,
        None => 1,
    }
}

/// The arithmetic of the message buffer stays in range: the buffer size
/// plus one, the incremented count, and a new mute in milliseconds.
pub open spec fn say_in_range(f: SayFacts, text: Seq<char>) -> bool {
    (reaches_buffer(f, text) && can_be_muted(f) && f.max_message_buffer != 0) ==> {
        &&& f.max_message_buffer < i32::MAX
        &&& (f.message_buffer_count <= f.max_message_buffer + 1 ==> {
            &&& f.message_buffer_count < i32::MAX
            &&& (f.message_buffer_count + 1 > f.max_message_buffer ==> 5 * current_mute_count(f)
                * current_mute_count(f) * 1000 <= u32::MAX)
        })
    }
}

/// Whether a player below the minimum `min_level` is refused: unless a
/// premium account may and the player has one.
pub open spec fn level_refused(level: u32, min_level: u32, premium_may: bool, is_premium: bool) -> bool {
    level < min_level && !(premium_may && is_premium)
}

/// What is done with words that passed the message buffer, by speak class.
pub open spec fn speak_action(f: SayFacts) -> SayAction {
    let t = f.speak_type;
    if t == 3 {
        if f.yell_exhausted {
            SayAction::Exhausted
        } else if !f.is_access && f.group_flags & PLAYER_FLAG_IGNORE_YELL_CHECK == 0 {
            if level_refused(f.level, f.yell_minimum_level, f.yell_allow_premium, f.is_premium) {
                SayAction::YellRefused { min_level: f.yell_minimum_level, premium: f.yell_allow_premium }
            } else {
                SayAction::Yell { exhaust: true }
            }
        } else {
            SayAction::Yell { exhaust: false }
        }
    } else if t == 1 {
        SayAction::Say
    } else if t == 2 {
        SayAction::Whisper
    } else if t == 6 || t == 14 {
        if !f.is_access && f.group_flags & PLAYER_FLAG_IGNORE_SEND_PRIVATE_CHECK == 0
            && level_refused(f.level, f.private_minimum_level, f.premium_to_send_private, f.is_premium) {
            SayAction::PrivateRefused {
                min_level: f.private_minimum_level,
                premium: f.premium_to_send_private,
            }
        } else if !f.receiver_online {
            SayAction::ReceiverOffline
        } else if t == 6 && (f.group_flags & PLAYER_FLAG_CAN_TALK_RED_PRIVATE != 0 || f.is_game_master) {
            SayAction::Private { speak_type: 14 }
        } else {
            SayAction::Private { speak_type: 6 }
        }
    } else if t == 12 {
        if f.group_flags & PLAYER_FLAG_CAN_BROADCAST == 0 {
            SayAction::Ignore
        } else {
            SayAction::Broadcast
        }
    } else if t == 7 || t == 8 || t == 15 {
        SayAction::Channel
    } else {
        SayAction::Ignore
    }
}

/// The outcome of saying `text`: the action, the message buffer count and
/// mute count afterwards, and whether the idle time resets.
pub open spec fn say_outcome(f: SayFacts, text: Seq<char>) -> (SayAction, i32, Option<u32>, bool) {
    let count = f.message_buffer_count;
    if text.len() == 0 || f.scripts_consumed {
        (SayAction::Ignore, count, None, false)
    } else if f.speak_type == 4 {
        (SayAction::NpcsOnly, count, None, false)
    } else if text[0] == '/' && f.is_access {
        (SayAction::Ignore, count, None, false)
    } else if can_be_muted(f) && f.mute_seconds > 0 {
        (SayAction::StillMuted { seconds: f.mute_seconds }, count, None, false)
    } else if buffer_counts(f) && count + 1 > f.max_message_buffer {
        let c = current_mute_count(f);
        let seconds = (5 * c * c) as u32;
        (
            SayAction::MutedNow { seconds, ticks: (seconds * 1000) as u32 },
            (count + 1) as i32,
            Some((c + 1) as u32),
            false,
        )
    } else {
        let new_count = if buffer_counts(f) {
            (count + 1) as i32
        } else {
            count
        };
        (speak_action(f), new_count, None, true)
    }
}

fn level_refused_exec(level: u32, min_level: u32, premium_may: bool, is_premium: bool) -> (r: bool)
    ensures
        r == level_refused(level, min_level, premium_may, is_premium),
{
    level < min_level && !(premium_may && is_premium)
}

fn speak_action_exec(f: &SayFacts) -> (a: SayAction)
    ensures
        a == speak_action(*f),
{
    let t = f.speak_type;
    if t == 3 {
        if f.yell_exhausted {
            SayAction::Exhausted
        } else if !f.is_access && f.group_flags & PLAYER_FLAG_IGNORE_YELL_CHECK == 0 {
            if level_refused_exec(f.level, f.yell_minimum_level, f.yell_allow_premium, f.is_premium) {
                SayAction::YellRefused { min_level: f.yell_minimum_level, premium: f.yell_allow_premium }
            } else {
                SayAction::Yell { exhaust: true }
            }
        } else {
            SayAction::Yell { exhaust: false }
        }
    } else if t == 1 {
        SayAction::Say
    } else if t == 2 {
        SayAction::Whisper
    } else if t == 6 || t == 14 {
        if !f.is_access && f.group_flags & PLAYER_FLAG_IGNORE_SEND_PRIVATE_CHECK == 0
            && level_refused_exec(f.level, f.private_minimum_level, f.premium_to_send_private, f.is_premium) {
            SayAction::PrivateRefused {
                min_level: f.private_minimum_level,
                premium: f.premium_to_send_private,
            }
        } else if !f.receiver_online {
            SayAction::ReceiverOffline
        } else if t == 6 && (f.group_flags & PLAYER_FLAG_CAN_TALK_RED_PRIVATE != 0 || f.is_game_master) {
            SayAction::Private { speak_type: 14 }
        } else {
            SayAction::Private { speak_type: 6 }
        }
    } else if t == 12 {
        if f.group_flags & PLAYER_FLAG_CAN_BROADCAST == 0 {
            SayAction::Ignore
        } else {
            SayAction::Broadcast
        }
    } else if t == 7 || t == 8 || t == 15 {
        SayAction::Channel
    } else {
        SayAction::Ignore
    }
}

/// Decides what happens when a player says `text` (see `say_outcome`);
/// the words that go out are `text`, in capitals for a yell.
pub fn decide_say(facts: &SayFacts, text: &str) -> (d: SayDecision)
    requires
        say_in_range(*facts, text@),
    ensures
        (d.action, d.message_buffer_count, d.mute_count, d.reset_idle) == say_outcome(*facts, text@),
        d.text@ == (if d.action is Yell {
            uppercase(text@)
        } else {
            text@
        }),
{
    let chars = chars_of(text);
    let count = facts.message_buffer_count;
    let mutable = facts.group_flags & PLAYER_FLAG_CANNOT_BE_MUTED == 0;
    let (action, new_count, mute_count, reset_idle) = if chars.len() == 0 || facts.scripts_consumed {
        (SayAction::Ignore, count, None, false)
    } else if facts.speak_type == 4 {
        (SayAction::NpcsOnly, count, None, false)
    } else if chars[0] == '/' && facts.is_access {
        (SayAction::Ignore, count, None, false)
    } else if mutable && facts.mute_seconds > 0 {
        (SayAction::StillMuted { seconds: facts.mute_seconds }, count, None, false)
    } else {
        let counts = mutable && facts.max_message_buffer != 0 && count <= facts.max_message_buffer + 1;
        if counts && count + 1 > facts.max_message_buffer {
            let c: u32 = match facts.mute_count {
                Some(c) => c,
                None => 1,
            };
            proof {
                assert(5 * c * c * 1000 <= u32::MAX);
                assert(5 * c <= 5 * c * c * 1000 && 5 * c * c <= 5 * c * c * 1000) by (nonlinear_arith);
            }
            let seconds: u32 = 5 * c * c;
            (SayAction::MutedNow { seconds, ticks: seconds * 1000 }, count + 1, Some(c + 1), false)
        } else {
            let new_count = if counts {
                count + 1
            } else {
                count
            };
            (speak_action_exec(facts), new_count, None, true)
        }
    };
    let spoken = if matches!(action, SayAction::Yell { .. }) {
        to_uppercase(text)
    } else {
        string_from_chars(&chars, 0, chars.len())
    };
    proof {
        assert(chars@.subrange(0, chars@.len() as int) =~= text@);
    }
    SayDecision { action, message_buffer_count: new_count, mute_count, reset_idle, text: spoken }
}

/// What a spectator at `listener` hears of words whispered at `speaker`:
/// the words within one square, else "pspsps".
pub open spec fn whispered(speaker: Position, listener: Position, text: Seq<char>) -> Seq<char> {
    if -1 <= speaker.x - listener.x <= 1 && -1 <= speaker.y - listener.y <= 1 {
        text
    } else {
        seq!['p', 's', 'p', 's', 'p', 's']
    }
}

/// The words a spectator at `listener` hears of `text` whispered at
/// `speaker` (see `whispered`).
pub fn whispered_text(speaker: Position, listener: Position, text: &str) -> (r: String)
    ensures
        r@ == whispered(speaker, listener, text@),
{
    if is_adjacent(speaker, listener) {
        let chars = chars_of(text);
        let r = string_from_chars(&chars, 0, chars.len());
        assert(chars@.subrange(0, chars@.len() as int) =~= text@);
        r
    } else {
        let mut r = String::new();
        let mut i: usize = 0;
        while i < 6
            invariant
                i <= 6,
                r@ =~= seq!['p', 's', 'p', 's', 'p', 's'].take(i as int),
            decreases 6 - i,
        {
            let c = if i % 2 == 0 {
                'p'
            } else {
                's'
            };
            crate::util::text::string_push(&mut r, c);
            i = i + 1;
        }
        r
    }
}

/// A player whose group cannot be muted is never muted, and his message
/// buffer does not count.
pub proof fn law_unmutable_never_muted(f: SayFacts, text: Seq<char>)
    requires
        f.group_flags & PLAYER_FLAG_CANNOT_BE_MUTED != 0,
    ensures
        !(say_outcome(f, text).0 is StillMuted),
        !(say_outcome(f, text).0 is MutedNow),
        say_outcome(f, text).1 == f.message_buffer_count,
        say_outcome(f, text).2 is None,
{
}

/// A command (words starting with '/') of an access player that no script
/// took is not echoed to anyone.
pub proof fn law_access_commands_not_echoed(f: SayFacts, text: Seq<char>)
    requires
        text.len() > 0,
        text[0] == '/',
        f.is_access,
        f.speak_type != 4,
    ensures
        say_outcome(f, text).0 == SayAction::Ignore,
        !say_outcome(f, text).3,
{
}

/// Each mute for spam lasts longer than the one before: a player muted
/// with the mute count that the previous mute left is muted for more
/// seconds.
pub proof fn law_mutes_grow(f1: SayFacts, t1: Seq<char>, f2: SayFacts, t2: Seq<char>)
    requires
        say_in_range(f1, t1),
        say_in_range(f2, t2),
        say_outcome(f1, t1).0 is MutedNow,
        f2.mute_count == say_outcome(f1, t1).2,
        say_outcome(f2, t2).0 is MutedNow,
    ensures
        say_outcome(f2, t2).0->MutedNow_seconds > say_outcome(f1, t1).0->MutedNow_seconds,
{
    let c = current_mute_count(f1);
    let d = current_mute_count(f2);
    assert(5 * c * c * 1000 <= u32::MAX);
    assert(c <= 5 * c * c * 1000) by (nonlinear_arith);
    assert(d == c + 1);
    assert(5 * d * d * 1000 <= u32::MAX);
    assert(5 * c * c < 5 * d * d && 5 * c * c <= 5 * c * c * 1000 && 5 * d * d <= 5 * d * d * 1000)
        by (nonlinear_arith)
        requires
            c >= 0,
            d == c + 1,
    ;
}

} // verus!
