//! The outfit window: which outfits a player is offered, with which
//! addons, and the packet that shows them.
use vstd::prelude::*;
use vstd::utf8::encode_utf8;
use crate::net::output_message::{OutputMessage, OutputView};
use crate::net::packets::{CreatureOutfit, w16, w8, woutfit, write_outfit, wstr};
use crate::net::protocol_version::ClientVersion;
use crate::world::outfit::Outfit;

verus! {

/// The most outfits the window offers.
pub const MAX_OUTFIT_OFFERS: usize = 50;

/// The addons of the first of the player's outfits with look type
/// `look_type`, if he has one.
pub open spec fn first_addons(owned: Seq<(u16, u8)>, look_type: u16) -> Option<u8>
    decreases owned.len(),
{
    if owned.len() == 0 {
        None
    } else if owned[0].0 == look_type {
        Some(owned[0].1)
    } else {
        first_addons(owned.drop_first(), look_type)
    }
}

/// The addons with which outfit `o` is offered, or none where it is not:
/// all addons for an access player; else not a premium outfit to a free
/// account, and the addons the player has of it, or none for an outfit he
/// does not have unless it is unlocked for all.
pub open spec fn offered_addons(o: Outfit, owned: Seq<(u16, u8)>, is_access: bool, is_premium: bool) -> Option<
    u8,
> {
    if is_access {
        Some(3)
    } else if o.premium && !is_premium {
        None
    } else {
        match first_addons(owned, o.look_type) {
            Some(a) => Some(a),
            None => if o.unlocked {
                Some(0)
            } else {
                None
            },
        }
    }
}

/// The offers among the outfits of `s`, in order.
pub open spec fn outfit_offers(s: Seq<Outfit>, owned: Seq<(u16, u8)>, is_access: bool, is_premium: bool) -> Seq<
    (u16, Seq<char>, u8),
>
    decreases s.len(),
{
    if s.len() == 0 {
        Seq::empty()
    } else {
        let o = s.last();
        outfit_offers(s.drop_last(), owned, is_access, is_premium) + match offered_addons(
            o,
            owned,
            is_access,
            is_premium,
        ) {
            Some(a) => seq![(o.look_type, o.name@, a)],
            None => Seq::empty(),
        }
    }
}

/// The outfit window's offers: the game master outfit (look type 75, no
/// addons) for an access player, then the offers among `available` (see
/// `offered_addons`), at most fifty.
pub open spec fn window_offers(
    available: Seq<Outfit>,
    owned: Seq<(u16, u8)>,
    is_access: bool,
    is_premium: bool,
) -> Seq<(u16, Seq<char>, u8)> {
    let all = (if is_access {
        seq![(75u16, "Gamemaster"@, 0u8)]
    } else {
        Seq::empty()
    }) + outfit_offers(available, owned, is_access, is_premium);
    if all.len() > 50 {
        all.take(50)
    } else {
        all
    }
}

/// The view of an offer: look type, name, addons.
pub open spec fn offer_view(o: (u16, String, u8)) -> (u16, Seq<char>, u8) {
    (o.0, o.1@, o.2)
}

fn first_addons_of(owned: &[(u16, u8)], look_type: u16) -> (r: Option<u8>)
    ensures
        r == first_addons(owned@, look_type),
{
    let mut i: usize = 0;
    assert(owned@.skip(0) =~= owned@);
    while i < owned.len()
        invariant
            i <= owned@.len(),
            first_addons(owned@, look_type) == first_addons(owned@.skip(i as int), look_type),
        decreases owned@.len() - i,
    {
        assert(owned@.skip(i as int).drop_first() =~= owned@.skip(i + 1));
        if owned[i].0 == look_type {
            return Some(owned[i].1);
        }
        i = i + 1;
    }
    None
}

fn offered(o: &Outfit, owned: &[(u16, u8)], is_access: bool, is_premium: bool) -> (r: Option<u8>)
    ensures
        r == offered_addons(*o, owned@, is_access, is_premium),
{
    if is_access {
        Some(3)
    } else if o.premium && !is_premium {
        None
    } else {
        match first_addons_of(owned, o.look_type) {
            Some(a) => Some(a),
            None => if o.unlocked {
                Some(0)
            } else {
                None
            },
        }
    }
}

/// The outfit window's offers for a player with the outfits `owned` (look
/// type and addons) among the outfits `available` for his sex (see
/// `window_offers`).
pub fn outfit_window_offers(available: &[Outfit], owned: &[(u16, u8)], is_access: bool, is_premium: bool) -> (r:
    Vec<(u16, String, u8)>)
    ensures
        r@.map_values(|o: (u16, String, u8)| offer_view(o)) == window_offers(
            available@,
            owned@,
            is_access,
            is_premium,
        ),
{
    let ghost start: Seq<(u16, Seq<char>, u8)> = if is_access {
        seq![(75u16, "Gamemaster"@, 0u8)]
    } else {
        Seq::empty()
    };
    let mut list: Vec<(u16, String, u8)> = Vec::new();
    if is_access {
        let name = String::from_str("Gamemaster");
        list.push((75, name, 0));
    }
    assert(list@.map_values(|o: (u16, String, u8)| offer_view(o)) =~= start);
    let mut i: usize = 0;
    while i < available.len()
        invariant
            i <= available@.len(),
            start.len() <= 1,
            start == (if is_access {
                seq![(75u16, "Gamemaster"@, 0u8)]
            } else {
                Seq::<(u16, Seq<char>, u8)>::empty()
            }),
            list@.map_values(|o: (u16, String, u8)| offer_view(o)) == start + outfit_offers(
                available@.take(i as int),
                owned@,
                is_access,
                is_premium,
            ),
            list@.len() < 50,
        decreases available@.len() - i,
    {
        let o = &available[i];
        let ghost before = list@.map_values(|o: (u16, String, u8)| offer_view(o));
        assert(available@.take(i + 1).drop_last() =~= available@.take(i as int));
        assert(available@.take(i + 1).last() == available@[i as int]);
        match offered(o, owned, is_access, is_premium) {
            Some(addons) => {
                list.push((o.look_type, o.name.clone(), addons));
                assert(list@.map_values(|o: (u16, String, u8)| offer_view(o)) =~= before + seq![
                    (available@[i as int].look_type, available@[i as int].name@, addons),
                ]);
            },
            None => {
                assert(before + Seq::<(u16, Seq<char>, u8)>::empty() =~= before);
            },
        }
        i = i + 1;
        if list.len() == MAX_OUTFIT_OFFERS {
            proof {
                lemma_offers_prefix(available@, i as int, owned@, is_access, is_premium);
                let a = outfit_offers(available@.take(i as int), owned@, is_access, is_premium);
                let all = outfit_offers(available@, owned@, is_access, is_premium);
                let lv = list@.map_values(|o: (u16, String, u8)| offer_view(o));
                assert(lv == start + a);
                assert(lv.len() == 50);
                assert forall|j: int| 0 <= j < 50 implies #[trigger] (start + all)[j] == lv[j] by {
                    if j >= start.len() {
                        assert(all.take(a.len() as int)[j - start.len()] == all[j - start.len()]);
                    }
                }
                assert((start + all).take(50) =~= lv);
                assert(window_offers(available@, owned@, is_access, is_premium) == lv);
            }
            return list;
        }
    }
    assert(available@.take(available@.len() as int) =~= available@);
    list
}

/// The offers among a prefix of the outfits come first among the offers
/// of all of them.
proof fn lemma_offers_prefix(
    s: Seq<Outfit>,
    i: int,
    owned: Seq<(u16, u8)>,
    is_access: bool,
    is_premium: bool,
)
    requires
        0 <= i <= s.len(),
    ensures
        outfit_offers(s, owned, is_access, is_premium).take(
            outfit_offers(s.take(i), owned, is_access, is_premium).len() as int,
        ) == outfit_offers(s.take(i), owned, is_access, is_premium),
        outfit_offers(s.take(i), owned, is_access, is_premium).len() <= outfit_offers(
            s,
            owned,
            is_access,
            is_premium,
        ).len(),
    decreases s.len() - i,
{
    if i == s.len() {
        assert(s.take(i) =~= s);
        assert(outfit_offers(s, owned, is_access, is_premium).take(
            outfit_offers(s, owned, is_access, is_premium).len() as int,
        ) =~= outfit_offers(s, owned, is_access, is_premium));
    } else {
        lemma_offers_prefix(s, i + 1, owned, is_access, is_premium);
        assert(s.take(i + 1).drop_last() =~= s.take(i));
        let a = outfit_offers(s.take(i), owned, is_access, is_premium);
        let b = outfit_offers(s.take(i + 1), owned, is_access, is_premium);
        let all = outfit_offers(s, owned, is_access, is_premium);
        assert(b.take(a.len() as int) =~= a);
        assert(all.take(a.len() as int) =~= b.take(b.len() as int).take(a.len() as int));
        assert(b.take(b.len() as int) =~= b);
    }
}

/// The offers on the wire, one after the other: look type, name, addons.
pub open spec fn woffers(o: OutputView, offers: Seq<(u16, Seq<char>, u8)>) -> OutputView
    decreases offers.len(),
{
    if offers.len() == 0 {
        o
    } else {
        let last = offers.last();
        w8(wstr(w16(woffers(o, offers.drop_last()), last.0), encode_utf8(last.1)), last.2)
    }
}

/// The outfit window: 0xC8, the current outfit, the number of offers
/// (at most 255) and as many offers; for 10.98 a zero byte after.
pub fn write_outfit_window(
    output: &mut OutputMessage,
    version: ClientVersion,
    current: &CreatureOutfit,
    offers: &[(u16, String, u8)],
)
    ensures
        ({
            let n = if offers@.len() > 255 {
                255
            } else {
                offers@.len() as int
            };
            let o1 = woutfit(w8(old(output)@, 0xC8), version, *current);
            let o2 = woffers(
                w8(o1, n as u8),
                offers@.map_values(|o: (u16, String, u8)| offer_view(o)).take(n),
            );
            final(output)@ == if version == ClientVersion::V1098 {
                w8(o2, 0)
            } else {
                o2
            }
        }),
{
    output.add_byte(0xC8);
    write_outfit(output, version, current);
    let n: usize = if offers.len() > 255 {
        255
    } else {
        offers.len()
    };
    output.add_byte(n as u8);
    let ghost start = output@;
    let ghost views = offers@.map_values(|o: (u16, String, u8)| offer_view(o));
    let mut i: usize = 0;
    while i < n
        invariant
            i <= n <= offers@.len(),
            views == offers@.map_values(|o: (u16, String, u8)| offer_view(o)),
            output@ == woffers(start, views.take(i as int)),
        decreases n - i,
    {
        let offer = &offers[i];
        output.add_u16(offer.0);
        output.add_string(offer.1.as_str().as_bytes());
        output.add_byte(offer.2);
        proof {
            assert(views.take(i + 1).drop_last() =~= views.take(i as int));
            assert(views.take(i + 1).last() == offer_view(offers@[i as int]));
        }
        i = i + 1;
    }
    if version.is_1098() {
        output.add_byte(0);
    }
}

} // verus!
