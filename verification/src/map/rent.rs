//! House rent: the rent period a server is configured with, the houses
//! whose rent is due, and what happens to each: paid, warned, or lost.
use vstd::prelude::*;
use crate::map::houses::{holds_at, holds_key, lemma_key_unique, set_owner, House, Houses, RentPeriod};
use crate::util::date::{decimal_chars, push_decimal_chars};
use crate::util::text::{lowercase, str_eq, string_push, to_lowercase};
use vstd::string::StringExecFns;
use std::collections::HashMap;

verus! {

/// The rent period a configured name stands for, by its lower-case
/// spelling; any other name means rent is never due.
pub open spec fn period_named(lower: Seq<char>) -> RentPeriod {
    if lower == "daily"@ {
        RentPeriod::Daily
    } else if lower == "weekly"@ {
        RentPeriod::Weekly
    } else if lower == "monthly"@ {
        RentPeriod::Monthly
    } else if lower == "yearly"@ {
        RentPeriod::Yearly
    } else {
        RentPeriod::Never
    }
}

/// The rent period configured as `name` (see `period_named`; the name is
/// lowered first).
pub fn rent_period(name: &str) -> (p: RentPeriod)
    ensures
        p == period_named(lowercase(name@)),
{
    let lower = to_lowercase(name);
    let l = lower.as_str();
    if str_eq(l, "daily") {
        RentPeriod::Daily
    } else if str_eq(l, "weekly") {
        RentPeriod::Weekly
    } else if str_eq(l, "monthly") {
        RentPeriod::Monthly
    } else if str_eq(l, "yearly") {
        RentPeriod::Yearly
    } else {
        RentPeriod::Never
    }
}

/// The seconds a rent period lasts: a day, a week, 30 days or 365 days;
/// none for rent that is never due.
pub open spec fn period_length(p: RentPeriod) -> Option<i64> {
    match p {
        RentPeriod::Daily => Some(86400),
        RentPeriod::Weekly => Some(604800),
        RentPeriod::Monthly => Some(2592000),
        RentPeriod::Yearly => Some(31536000),
        RentPeriod::Never => None,
    }
}

/// The seconds a rent period lasts (see `period_length`).
pub fn period_seconds(p: RentPeriod) -> (r: Option<i64>)
    ensures
        r == period_length(p),
{
    match p {
        RentPeriod::Daily => Some(24 * 60 * 60),
        RentPeriod::Weekly => Some(24 * 60 * 60 * 7),
        RentPeriod::Monthly => Some(24 * 60 * 60 * 30),
        RentPeriod::Yearly => Some(24 * 60 * 60 * 365),
        RentPeriod::Never => None,
    }
}

/// Whether rent is due for a house at time `now`: it has an owner and a
/// rent, and is paid only up to `now` or before.
pub open spec fn rent_due(h: House, now: i64) -> bool {
    h.owner != 0 && h.rent != 0 && h.paid_until <= now
}

/// The number, owner, rent and warnings of a house.
pub open spec fn due_entry(e: (u32, House)) -> (u32, u32, u32, u32) {
    (e.1.id, e.1.owner, e.1.rent, e.1.rent_warnings)
}

/// The houses of `s` whose rent is due at `now`, in order.
pub open spec fn due_houses(s: Seq<(u32, House)>, now: i64) -> Seq<(u32, u32, u32, u32)>
    decreases s.len(),
{
    if s.len() == 0 {
        Seq::empty()
    } else {
        let rest = due_houses(s.drop_last(), now);
        if rent_due(s.last().1, now) {
            rest.push(due_entry(s.last()))
        } else {
            rest
        }
    }
}

/// The number, owner, rent and warnings of each house whose rent is due
/// at `now`, in order of house number.
pub fn houses_due(houses: &Houses, now: i64) -> (r: Vec<(u32, u32, u32, u32)>)
    ensures
        r@ == due_houses(houses@, now),
{
    let all = houses.get_houses();
    let mut r: Vec<(u32, u32, u32, u32)> = Vec::new();
    let mut i: usize = 0;
    while i < all.len()
        invariant
            all@ == houses@,
            i <= all@.len(),
            r@ == due_houses(all@.take(i as int), now),
        decreases all@.len() - i,
    {
        let h = &all[i].1;
        proof {
            assert(all@.take(i + 1).drop_last() =~= all@.take(i as int));
        }
        if h.owner != 0 && h.rent != 0 && h.paid_until <= now {
            r.push((h.id, h.owner, h.rent, h.rent_warnings));
        }
        i = i + 1;
    }
    assert(all@.take(all@.len() as int) =~= all@);
    r
}

/// What happens to a house whose rent is due.
#[derive(Debug, Clone, Copy, PartialEq, Eq, Structural)]
pub enum RentAction {
    /// The owner no longer exists: the house loses its owner.
    ResetOwner,
    /// The owner pays: the rent is taken from the bank balance and the house
    /// is paid up to `paid_until`.
    Pay { paid_until: i64 },
    /// The owner cannot pay: the warnings become `warnings`, and the owner
    /// has `days_left` before the house is lost.
    Warn { warnings: u32, days_left: i32 },
    /// The owner was warned seven times: the house is lost.
    Evict,
}

/// What happens to a house whose rent `rent` is due at `now`, with
/// `warnings` given so far, when its owner has `balance` in the bank (none
/// when the owner no longer exists) and a period lasts `period` seconds.
pub open spec fn rent_outcome(balance: Option<u64>, rent: u32, warnings: u32, now: i64, period: i64) -> RentAction {
    match balance {
        None => RentAction::ResetOwner,
        Some(b) => if b >= rent {
            RentAction::Pay { paid_until: (now + period) as i64 }
        } else if warnings < 7 {
            RentAction::Warn { warnings: (warnings + 1) as u32, days_left: (7 - warnings) as i32 }
        } else {
            RentAction::Evict
        },
    }
}

/// What happens to a house whose rent is due (see `rent_outcome`).
pub fn rent_action(balance: Option<u64>, rent: u32, warnings: u32, now: i64, period: i64) -> (a: RentAction)
    requires
        i64::MIN <= now + period <= i64::MAX,
    ensures
        a == rent_outcome(balance, rent, warnings, now, period),
{
    match balance {
        None => RentAction::ResetOwner,
        Some(b) => {
            if b >= rent as u64 {
                RentAction::Pay { paid_until: now + period }
            } else if warnings < 7 {
                RentAction::Warn { warnings: warnings + 1, days_left: 7 - warnings as i32 }
            } else {
                RentAction::Evict
            }
        },
    }
}

/// Applies `action` to house `house_id`: it loses its owner (as a house
/// whose owner no longer exists, or, when evicted, through `set_owner`
/// with no new owner), is paid up to a new time, or gets one warning more.
/// Returns the evicted owner whose belongings must leave, if any.
pub fn apply_rent_action(houses: &mut Houses, house_id: u32, action: RentAction) -> (evicted: Option<u32>)
    requires
        old(houses).wf(),
    ensures
        final(houses).wf(),
        !holds_key(old(houses)@, house_id) ==> final(houses)@ == old(houses)@ && evicted is None,
        !(action is Evict) ==> evicted is None,
        forall|i: int| #[trigger]
            holds_at(old(houses)@, house_id, i) && !(action is Evict) ==> final(houses)@ == old(
                houses,
            )@.update(
                i,
                (
                    house_id,
                    match action {
                        RentAction::ResetOwner => House { owner: 0, ..old(houses)@[i].1 },
                        RentAction::Pay { paid_until } => House { paid_until, ..old(houses)@[i].1 },
                        RentAction::Warn { warnings, .. } => House {
                            rent_warnings: warnings,
                            ..old(houses)@[i].1
                        },
                        RentAction::Evict => old(houses)@[i].1,
                    },
                ),
            ),
        action is Evict ==> (evicted matches Some(o) ==> o != 0),
        forall|i: int| #[trigger]
            holds_at(old(houses)@, house_id, i) && action is Evict ==> final(houses)@ == old(
                houses,
            )@.update(i, (house_id, final(houses)@[i].1)) && final(houses)@[i].1.owner == 0,
{
    match action {
        RentAction::Evict => set_owner(houses, house_id, 0),
        _ => {
            let ghost before = houses@;
            match houses.get_house_mut(house_id) {
                Some(h) => {
                    match action {
                        RentAction::ResetOwner => h.set_owner(0),
                        RentAction::Pay { paid_until } => h.set_paid_until(paid_until),
                        RentAction::Warn { warnings, .. } => h.set_pay_rent_warnings(warnings),
                        RentAction::Evict => {},
                    }
                    proof {
                        let j = choose|j: int|
                            holds_at(before, house_id, j) && final(houses)@ == before.update(
                                j,
                                (house_id, *final(h)),
                            );
                        assert forall|i: int| #[trigger] holds_at(before, house_id, i) implies i == j by {
                            lemma_key_unique(before, house_id, i, j);
                        }
                    }
                },
                None => {},
            }
            None
        },
    }
}

/// The bank balance of player `owner`; none where the player does not
/// exist.
pub open spec fn balance_of(balances: Map<u32, u64>, owner: u32) -> Option<u64> {
    if balances.contains_key(owner) {
        Some(balances[owner])
    } else {
        None
    }
}

/// The house after a rent action: its owner gone, paid up to a new time,
/// or warned once more (an eviction is stated apart).
pub open spec fn house_after(h: House, action: RentAction) -> House {
    match action {
        RentAction::ResetOwner => House { owner: 0, ..h },
        RentAction::Pay { paid_until } => House { paid_until, ..h },
        RentAction::Warn { warnings, .. } => House { rent_warnings: warnings, ..h },
        RentAction::Evict => h,
    }
}

/// Takes the rent of the house `due` (its number, owner, rent and
/// warnings, see `houses_due`) at time `now` for a period of `period`
/// seconds, with the bank `balances`: the action is `rent_outcome` of the
/// owner's balance; a payment takes the rent from that balance and the
/// house is paid up to `now + period`; a warning counts one more; an
/// eviction leaves the house without owner; nothing else changes. Returns
/// the action and the evicted owner, if any.
pub fn collect_rent(
    houses: &mut Houses,
    balances: &mut HashMap<u32, u64>,
    due: (u32, u32, u32, u32),
    now: i64,
    period: i64,
) -> (r: (RentAction, Option<u32>))
    requires
        old(houses).wf(),
        i64::MIN <= now + period <= i64::MAX,
    ensures
        final(houses).wf(),
        r.0 == rent_outcome(balance_of(old(balances)@, due.1), due.2, due.3, now, period),
        r.0 is Pay ==> final(balances)@ == old(balances)@.insert(
            due.1,
            (old(balances)@[due.1] - due.2) as u64,
        ),
        !(r.0 is Pay) ==> final(balances)@ == old(balances)@,
        !holds_key(old(houses)@, due.0) ==> final(houses)@ == old(houses)@ && r.1 is None,
        forall|i: int| #[trigger]
            holds_at(old(houses)@, due.0, i) ==> final(houses)@ == old(houses)@.update(
                i,
                (due.0, final(houses)@[i].1),
            ) && if r.0 is Evict {
                final(houses)@[i].1.owner == 0
            } else {
                final(houses)@[i].1 == house_after(old(houses)@[i].1, r.0)
            },
{
    let (house_id, owner, rent, warnings) = due;
    let balance = match balances.get(&owner) {
        Some(b) => Some(*b),
        None => None,
    };
    let action = rent_action(balance, rent, warnings, now, period);
    match action {
        RentAction::Pay { .. } => {
            let b = balance.unwrap();
            balances.insert(owner, b - rent as u64);
        },
        _ => {},
    }
    let evicted = apply_rent_action(houses, house_id, action);
    (action, evicted)
}

/// Takes the rent of every house whose rent is due at `now` (see
/// `houses_due`), one after another in order of house number, with the
/// bank `balances` (see `collect_rent`); with rent that is never due
/// nothing changes. Returns the evicted owners in order.
pub fn collect_rents(houses: &mut Houses, balances: &mut HashMap<u32, u64>, p: RentPeriod, now: i64) -> (evicted: Vec<u32>)
    requires
        old(houses).wf(),
        0 <= now <= i64::MAX - 31536000,
    ensures
        final(houses).wf(),
        period_length(p) is None ==> final(houses)@ == old(houses)@ && final(balances)@ == old(
            balances,
        )@ && evicted@.len() == 0,
{
    let mut evicted: Vec<u32> = Vec::new();
    let period = match period_seconds(p) {
        Some(s) => s,
        None => {
            return evicted;
        },
    };
    let due = houses_due(houses, now);
    let mut k: usize = 0;
    while k < due.len()
        invariant
            houses.wf(),
            k <= due@.len(),
            0 <= now <= i64::MAX - 31536000,
            0 < period <= 31536000,
        decreases due.len() - k,
    {
        let (_, out) = collect_rent(houses, balances, due[k], now, period);
        match out {
            Some(o) => evicted.push(o),
            None => {},
        }
        k = k + 1;
    }
    evicted
}

/// The word for a rent period in a warning: daily, weekly, monthly,
/// annual; nothing for rent that is never due.
pub open spec fn period_word(p: RentPeriod) -> Seq<char> {
    match p {
        RentPeriod::Daily => "daily"@,
        RentPeriod::Weekly => "weekly"@,
        RentPeriod::Monthly => "monthly"@,
        RentPeriod::Yearly => "annual"@,
        RentPeriod::Never => ""@,
    }
}

/// A whole number in decimal, with a minus sign where it is negative.
pub open spec fn signed_decimal(n: int) -> Seq<char> {
    if n < 0 {
        seq!['-'] + decimal_chars((-n) as nat)
    } else {
        decimal_chars(n as nat)
    }
}

/// The letter that warns an owner who cannot pay the rent.
pub open spec fn rent_warning(p: RentPeriod, rent: u32, house_name: Seq<char>, days_left: i32) -> Seq<char> {
    "Warning! \nThe "@ + period_word(p) + " rent of "@ + decimal_chars(rent as nat) + " gold for your house \""@
        + house_name + "\" is payable. Have it within "@ + signed_decimal(days_left as int)
        + " days or you will lose this house."@
}

/// The letter that warns an owner who cannot pay the rent (see
/// `rent_warning`).
pub fn rent_warning_text(p: RentPeriod, rent: u32, house_name: &str, days_left: i32) -> (text: String)
    ensures
        text@ == rent_warning(p, rent, house_name@, days_left),
{
    let mut text = String::new();
    text.append("Warning! \nThe ");
    match p {
        RentPeriod::Daily => text.append("daily"),
        RentPeriod::Weekly => text.append("weekly"),
        RentPeriod::Monthly => text.append("monthly"),
        RentPeriod::Yearly => text.append("annual"),
        RentPeriod::Never => text.append(""),
    }
    text.append(" rent of ");
    push_decimal_chars(&mut text, rent as u64);
    text.append(" gold for your house \"");
    text.append(house_name);
    text.append("\" is payable. Have it within ");
    if days_left < 0 {
        string_push(&mut text, '-');
        let magnitude: u64 = (-(days_left as i64)) as u64;
        push_decimal_chars(&mut text, magnitude);
    } else {
        push_decimal_chars(&mut text, days_left as u64);
    }
    text.append(" days or you will lose this house.");
    proof {
        assert(text@ =~= rent_warning(p, rent, house_name@, days_left));
    }
    text
}

} // verus!
