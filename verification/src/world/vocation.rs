//! The integer side of the vocation table: finding a vocation by name,
//! finding the vocation one is promoted to, and the defaults and units of
//! the values a vocation file gives.
use vstd::prelude::*;
use crate::util::text::{ascii_case_equal, eq_ignore_ascii_case};

verus! {

/// The vocation that has none.
pub const VOCATION_NONE: u32 = 0;

/// What the lookups read of a vocation: its id, its name and the vocation
/// it is promoted from.
#[derive(Debug, Clone)]
pub struct VocationKey {
    pub id: u16,
    pub name: String,
    pub from_vocation: u32,
}

/// The id of the first vocation of `vs` (in order of id) whose name equals
/// `name`, ASCII case ignored.
pub open spec fn vocation_id_from(vs: Seq<VocationKey>, name: Seq<char>, i: int) -> Option<u16>
    decreases vs.len() - i,
{
    if i < 0 || i >= vs.len() {
        None
    } else if ascii_case_equal(vs[i].name@, name) {
        Some(vs[i].id)
    } else {
        vocation_id_from(vs, name, i + 1)
    }
}

/// The id of the vocation named `name`, ASCII case ignored (see
/// `vocation_id_from`); `vs` lists the vocations in order of id.
pub fn get_vocation_id(vs: &Vec<VocationKey>, name: &str) -> (r: Option<u16>)
    ensures
        r == vocation_id_from(vs@, name@, 0),
{
    let mut i: usize = 0;
    while i < vs.len()
        invariant
            i <= vs@.len(),
            vocation_id_from(vs@, name@, 0) == vocation_id_from(vs@, name@, i as int),
        decreases vs.len() - i,
    {
        if eq_ignore_ascii_case(vs[i].name.as_str(), name) {
            return Some(vs[i].id);
        }
        i = i + 1;
    }
    None
}

/// The first vocation of `vs` from index `i` on (in order of id) that is
/// promoted from `id` and is not `id` itself; 0 where there is none.
pub open spec fn promoted_from(vs: Seq<VocationKey>, id: u16, i: int) -> u16
    decreases vs.len() - i,
{
    if i < 0 || i >= vs.len() {
        0
    } else if vs[i].from_vocation == id as u32 && vs[i].id != id {
        vs[i].id
    } else {
        promoted_from(vs, id, i + 1)
    }
}

/// The vocation that vocation `id` is promoted to, 0 for none (see
/// `promoted_from`); `vs` lists the vocations in order of id.
pub fn get_promoted_vocation(vs: &Vec<VocationKey>, id: u16) -> (r: u16)
    ensures
        r == promoted_from(vs@, id, 0),
{
    let mut i: usize = 0;
    while i < vs.len()
        invariant
            i <= vs@.len(),
            promoted_from(vs@, id, 0) == promoted_from(vs@, id, i as int),
        decreases vs.len() - i,
    {
        if vs[i].from_vocation == id as u32 && vs[i].id != id {
            return vs[i].id;
        }
        i = i + 1;
    }
    0
}

/// The capacity a level gives, in hundredths of an ounce: the file's value
/// (5 where it gives none) times 100.
pub open spec fn gain_cap_of(v: Option<u32>) -> int {
    match v {
        Some(c) => c * 100,
        None => 500,
    }
}

/// The capacity a level gives (see `gain_cap_of`); the product must fit.
pub fn gain_cap(v: Option<u32>) -> (r: u32)
    requires
        gain_cap_of(v) <= u32::MAX,
    ensures
        r == gain_cap_of(v),
{
    match v {
        Some(c) => c * 100,
        None => 500,
    }
}

/// How long a silent client is kept, in milliseconds: the file's value in
/// seconds (60 where it gives none) times 1000.
pub open spec fn no_pong_kick_time_of(v: Option<u32>) -> int {
    match v {
        Some(s) => s * 1000,
        None => 60000,
    }
}

/// How long a silent client is kept (see `no_pong_kick_time_of`); the
/// product must fit.
pub fn no_pong_kick_time(v: Option<u32>) -> (r: u32)
    requires
        no_pong_kick_time_of(v) <= u32::MAX,
    ensures
        r == no_pong_kick_time_of(v),
{
    match v {
        Some(s) => s * 1000,
        None => 60000,
    }
}

} // verus!
