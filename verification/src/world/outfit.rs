//! Outfits for each sex of player, and their lookups by look type.
use vstd::prelude::*;

verus! {

/// The sex of a player, which decides the outfits on offer.
#[derive(Debug, Clone, Copy, PartialEq, Eq, Structural)]
pub enum PlayerSex {
    Female,
    Male,
}

/// The number the outfits file gives a sex.
pub open spec fn sex_number(s: PlayerSex) -> u8 {
    match s {
        PlayerSex::Female => 0,
        PlayerSex::Male => 1,
    }
}

impl PlayerSex {
    /// The sex numbered `value` in the outfits file (0 female, 1 male).
    pub fn from_u8(value: u8) -> (r: Option<PlayerSex>)
        ensures
            value <= 1 <==> r is Some,
            r matches Some(s) ==> sex_number(s) == value,
    {
        match value {
            0 => Some(PlayerSex::Female),
            1 => Some(PlayerSex::Male),
            _ => None,
        }
    }

    /// The number of this sex.
    pub fn to_u8(self) -> (n: u8)
        ensures
            n == sex_number(self),
    {
        match self {
            PlayerSex::Female => 0,
            PlayerSex::Male => 1,
        }
    }
}

/// An outfit: its name, look type, and whether it needs a premium account
/// and is available without being unlocked.
#[derive(Debug, Clone)]
pub struct Outfit {
    pub name: String,
    pub look_type: u16,
    pub premium: bool,
    pub unlocked: bool,
}

/// An outfit as the outfits file gives it.
#[derive(Debug, Clone)]
pub struct OutfitEntry {
    pub enabled: Option<bool>,
    pub outfit_type: u8,
    pub looktype: u16,
    pub name: Option<String>,
    pub premium: Option<bool>,
    pub unlocked: Option<bool>,
}

/// Whether `o` is the outfit that file entry `e` describes: unnamed,
/// free and unlocked unless the file says otherwise.
pub open spec fn is_outfit_of(o: Outfit, e: OutfitEntry) -> bool {
    &&& o.name@ == match e.name {
        Some(n) => n@,
        None => Seq::empty(),
    }
    &&& o.look_type == e.looktype
    &&& o.premium == match e.premium {
        Some(b) => b,
        None => false,
    }
    &&& o.unlocked == match e.unlocked {
        Some(b) => b,
        None => true,
    }
}

/// Whether a file entry is switched off.
pub open spec fn is_disabled(e: OutfitEntry) -> bool {
    e.enabled == Some(false)
}

/// The file entries from the first `n` kept for sex number `t`.
pub open spec fn kept_entries(es: Seq<OutfitEntry>, t: u8) -> Seq<OutfitEntry> {
    es.filter(|e: OutfitEntry| !is_disabled(e) && e.outfit_type == t)
}

/// The position of the first enabled entry with an unknown sex, or the
/// length.
pub open spec fn first_bad_entry(es: Seq<OutfitEntry>, i: int) -> int
    decreases es.len() - i,
{
    if i < 0 || i >= es.len() {
        es.len() as int
    } else if !is_disabled(es[i]) && es[i].outfit_type > 1 {
        i
    } else {
        first_bad_entry(es, i + 1)
    }
}

/// The outfits on offer, per sex, in file order.
#[derive(Debug, Clone)]
pub struct Outfits {
    outfits: [Vec<Outfit>; 2],
}

impl View for Outfits {
    type V = (Seq<Outfit>, Seq<Outfit>);

    closed spec fn view(&self) -> (Seq<Outfit>, Seq<Outfit>) {
        (self.outfits[0]@, self.outfits[1]@)
    }
}

/// The outfits of sex `s`.
pub open spec fn outfits_of(v: (Seq<Outfit>, Seq<Outfit>), s: PlayerSex) -> Seq<Outfit> {
    match s {
        PlayerSex::Female => v.0,
        PlayerSex::Male => v.1,
    }
}

/// Whether `list` holds the outfits that `es` describes, in order.
pub open spec fn describes(list: Seq<Outfit>, es: Seq<OutfitEntry>) -> bool {
    list.len() == es.len() && forall|i: int| 0 <= i < es.len() ==> is_outfit_of(#[trigger] list[i], es[i])
}

impl Default for Outfits {
    fn default() -> (o: Self)
        ensures
            o@ == (Seq::<Outfit>::empty(), Seq::<Outfit>::empty()),
    {
        Outfits { outfits: [Vec::new(), Vec::new()] }
    }
}

fn outfit_from_entry(e: OutfitEntry) -> (o: Outfit)
    ensures
        is_outfit_of(o, e),
{
    Outfit {
        name: match e.name {
            Some(n) => n,
            None => String::new(),
        },
        look_type: e.looktype,
        premium: match e.premium {
            Some(b) => b,
            None => false,
        },
        unlocked: match e.unlocked {
            Some(b) => b,
            None => true,
        },
    }
}

/// The first outfit in `list` with look type `look_type`.
pub open spec fn found_outfit(list: Seq<Outfit>, look_type: u16, r: Option<&Outfit>) -> bool {
    match r {
        Some(o) => exists|i: int|
            0 <= i < list.len() && list[i] == *o && o.look_type == look_type && forall|j: int|
                0 <= j < i ==> (#[trigger] list[j]).look_type != look_type,
        None => forall|j: int| 0 <= j < list.len() ==> (#[trigger] list[j]).look_type != look_type,
    }
}

fn find_look_type(list: &Vec<Outfit>, look_type: u16) -> (r: Option<&Outfit>)
    ensures
        found_outfit(list@, look_type, r),
{
    let mut i: usize = 0;
    while i < list.len()
        invariant
            i <= list@.len(),
            forall|j: int| 0 <= j < i ==> (#[trigger] list@[j]).look_type != look_type,
        decreases list@.len() - i,
    {
        if list[i].look_type == look_type {
            return Some(&list[i]);
        }
        i = i + 1;
    }
    None
}

impl Outfits {
    /// The outfits the file's entries describe: switched-off entries are
    /// skipped; an entry with a sex number other than 0 or 1 is refused
    /// with that number.
    pub fn from_entries(entries: Vec<OutfitEntry>) -> (r: Result<Outfits, u8>)
        ensures
            ({
                let k = first_bad_entry(entries@, 0);
                match r {
                    Ok(o) => k == entries@.len() && describes(o@.0, kept_entries(entries@, 0))
                        && describes(o@.1, kept_entries(entries@, 1)),
                    Err(t) => k < entries@.len() && t == entries@[k].outfit_type,
                }
            }),
    {
        let ghost all = entries@;
        let total: usize = entries.len();
        let mut rest = entries;
        let mut female: Vec<Outfit> = Vec::new();
        let mut male: Vec<Outfit> = Vec::new();
        let mut n: usize = 0;
        while rest.len() > 0
            invariant
                n + rest@.len() == all.len(),
                all == entries@,
                all.len() == total,
                rest@ == all.skip(n as int),
                first_bad_entry(all, 0) == first_bad_entry(all, n as int),
                describes(female@, kept_entries(all.take(n as int), 0)),
                describes(male@, kept_entries(all.take(n as int), 1)),
            decreases rest@.len(),
        {
            let e = rest.remove(0);
            proof {
                assert(e == all[n as int]);
                assert(rest@ =~= all.skip(n + 1));
                assert(all.take(n + 1) =~= all.take(n as int).push(e));
                all.take(n as int).lemma_filter_push(e, |x: OutfitEntry| !is_disabled(x) && x.outfit_type == 0);
                all.take(n as int).lemma_filter_push(e, |x: OutfitEntry| !is_disabled(x) && x.outfit_type == 1);
            }
            let disabled = match e.enabled {
                Some(b) => !b,
                None => false,
            };
            if !disabled {
                if e.outfit_type == 0 {
                    female.push(outfit_from_entry(e));
                } else if e.outfit_type == 1 {
                    male.push(outfit_from_entry(e));
                } else {
                    assert(first_bad_entry(all, n as int) == n);
                    return Err(e.outfit_type);
                }
            }
            n = n + 1;
        }
        proof {
            assert(all.take(n as int) =~= all);
        }
        Ok(Outfits { outfits: [female, male] })
    }

    /// The first outfit of sex `sex` with look type `look_type`.
    pub fn get_outfit_by_look_type(&self, sex: PlayerSex, look_type: u16) -> (r: Option<&Outfit>)
        ensures
            found_outfit(outfits_of(self@, sex), look_type, r),
    {
        let i: usize = match sex {
            PlayerSex::Female => 0,
            PlayerSex::Male => 1,
        };
        find_look_type(&self.outfits[i], look_type)
    }

    /// The first outfit with look type `look_type`, the female ones first.
    pub fn get_outfit_by_look_type_any(&self, look_type: u16) -> (r: Option<&Outfit>)
        ensures
            found_outfit(self@.0 + self@.1, look_type, r),
    {
        let ghost all = self@.0 + self@.1;
        match find_look_type(&self.outfits[0], look_type) {
            Some(o) => {
                proof {
                    let i = choose|i: int|
                        0 <= i < self@.0.len() && self@.0[i] == *o && o.look_type == look_type
                            && forall|j: int| 0 <= j < i ==> (#[trigger] self@.0[j]).look_type != look_type;
                    assert(all[i] == *o);
                    assert forall|j: int| 0 <= j < i implies (#[trigger] all[j]).look_type != look_type by {
                        assert(all[j] == self@.0[j]);
                    }
                }
                Some(o)
            },
            None => {
                let r = find_look_type(&self.outfits[1], look_type);
                proof {
                    match r {
                        Some(o) => {
                            let i = choose|i: int|
                                0 <= i < self@.1.len() && self@.1[i] == *o && o.look_type == look_type
                                    && forall|j: int|
                                    0 <= j < i ==> (#[trigger] self@.1[j]).look_type != look_type;
                            let k = self@.0.len() + i;
                            assert(all[k] == *o);
                            assert forall|j: int| 0 <= j < k implies (#[trigger] all[j]).look_type
                                != look_type by {
                                if j < self@.0.len() {
                                    assert(all[j] == self@.0[j]);
                                } else {
                                    assert(all[j] == self@.1[j - self@.0.len()]);
                                }
                            }
                        },
                        None => {
                            assert forall|j: int| 0 <= j < all.len() implies (#[trigger] all[j]).look_type
                                != look_type by {
                                if j < self@.0.len() {
                                    assert(all[j] == self@.0[j]);
                                } else {
                                    assert(all[j] == self@.1[j - self@.0.len()]);
                                }
                            }
                        },
                    }
                }
                r
            },
        }
    }

    /// The outfits of sex `sex`.
    pub fn get_outfits(&self, sex: PlayerSex) -> (r: &[Outfit])
        ensures
            r@ == outfits_of(self@, sex),
    {
        let i: usize = match sex {
            PlayerSex::Female => 0,
            PlayerSex::Male => 1,
        };
        self.outfits[i].as_slice()
    }
}

} // verus!
