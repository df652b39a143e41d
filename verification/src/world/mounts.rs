//! Mounts and their lookups by id, client id and name.
use vstd::prelude::*;
use crate::util::text::{ascii_case_equal, eq_ignore_ascii_case};

verus! {

/// A mount: its id, the look the client shows, name, speed bonus, and
/// whether it needs a premium account.
#[derive(Debug, Clone)]
pub struct Mount {
    pub id: u8,
    pub client_id: u16,
    pub name: String,
    pub speed: i32,
    pub premium: bool,
}

/// A mount as the mounts file gives it.
#[derive(Debug, Clone)]
pub struct MountEntry {
    pub id: u8,
    pub clientid: u16,
    pub name: String,
    pub speed: i32,
    pub premium: Option<bool>,
}

/// Whether `m` is the mount that file entry `e` describes (not premium
/// unless the file says so).
pub open spec fn is_mount_of(m: Mount, e: MountEntry) -> bool {
    &&& m.id == e.id
    &&& m.client_id == e.clientid
    &&& m.name == e.name
    &&& m.speed == e.speed
    &&& m.premium == match e.premium {
        Some(b) => b,
        None => false,
    }
}

/// The index of the first mount from `i` on that meets `p`, or the length.
pub open spec fn first_mount(ms: Seq<Mount>, p: spec_fn(Mount) -> bool, i: int) -> int
    decreases ms.len() - i,
{
    if i < 0 || i >= ms.len() {
        ms.len() as int
    } else if p(ms[i]) {
        i
    } else {
        first_mount(ms, p, i + 1)
    }
}

/// All mounts, in file order.
#[derive(Debug, Clone)]
pub struct Mounts {
    mounts: Vec<Mount>,
}

impl View for Mounts {
    type V = Seq<Mount>;

    closed spec fn view(&self) -> Seq<Mount> {
        self.mounts@
    }
}

impl Default for Mounts {
    fn default() -> (m: Self)
        ensures
            m@ == Seq::<Mount>::empty(),
    {
        Mounts { mounts: Vec::new() }
    }
}

/// The result of a search for the first mount that meets `p`.
pub open spec fn found_mount(ms: Seq<Mount>, p: spec_fn(Mount) -> bool, r: Option<&Mount>) -> bool {
    let k = first_mount(ms, p, 0);
    match r {
        Some(m) => k < ms.len() && *m == ms[k],
        None => k == ms.len(),
    }
}

impl Mounts {
    /// The mounts the file's entries describe, in file order.
    pub fn from_entries(entries: Vec<MountEntry>) -> (ms: Mounts)
        ensures
            ms@.len() == entries@.len(),
            forall|i: int| 0 <= i < entries@.len() ==> is_mount_of(#[trigger] ms@[i], entries@[i]),
    {
        let ghost all = entries@;
        let total: usize = entries.len();
        let mut entries = entries;
        let mut mounts: Vec<Mount> = Vec::new();
        let mut n: usize = 0;
        while entries.len() > 0
            invariant
                n + entries@.len() == all.len(),
                all.len() == total,
                entries@ == all.skip(n as int),
                mounts@.len() == n,
                forall|i: int| 0 <= i < n ==> is_mount_of(#[trigger] mounts@[i], all[i]),
            decreases entries@.len(),
        {
            let e = entries.remove(0);
            proof {
                assert(e == all[n as int]);
                assert(entries@ =~= all.skip(n + 1));
            }
            mounts.push(
                Mount {
                    id: e.id,
                    client_id: e.clientid,
                    name: e.name,
                    speed: e.speed,
                    premium: match e.premium {
                        Some(b) => b,
                        None => false,
                    },
                },
            );
            n = n + 1;
        }
        Mounts { mounts }
    }

    fn find(&self, by: u8, id: u8, client_id: u16, name: &str, p: Ghost<spec_fn(Mount) -> bool>) -> (r: Option<&Mount>)
        requires
            by == 0 ==> forall|m: Mount| #[trigger] p@(m) == (m.id == id),
            by == 1 ==> forall|m: Mount| #[trigger] p@(m) == (m.client_id == client_id),
            by >= 2 ==> forall|m: Mount| #[trigger] p@(m) == ascii_case_equal(m.name@, name@),
        ensures
            found_mount(self@, p@, r),
    {
        let mut i: usize = 0;
        while i < self.mounts.len()
            invariant
                i <= self@.len(),
                first_mount(self@, p@, 0) == first_mount(self@, p@, i as int),
                by == 0 ==> forall|m: Mount| #[trigger] p@(m) == (m.id == id),
                by == 1 ==> forall|m: Mount| #[trigger] p@(m) == (m.client_id == client_id),
                by >= 2 ==> forall|m: Mount| #[trigger] p@(m) == ascii_case_equal(m.name@, name@),
            decreases self@.len() - i,
        {
            let m = &self.mounts[i];
            let hit = if by == 0 {
                m.id == id
            } else if by == 1 {
                m.client_id == client_id
            } else {
                eq_ignore_ascii_case(m.name.as_str(), name)
            };
            if hit {
                assert(p@(self@[i as int]));
                return Some(m);
            }
            i = i + 1;
        }
        None
    }

    /// The first mount with id `id`.
    pub fn get_mount_by_id(&self, id: u8) -> (r: Option<&Mount>)
        ensures
            found_mount(self@, |m: Mount| m.id == id, r),
    {
        self.find(0, id, 0, "", Ghost(|m: Mount| m.id == id))
    }

    /// The first mount called `name`, ignoring the case of ASCII letters.
    pub fn get_mount_by_name(&self, name: &str) -> (r: Option<&Mount>)
        ensures
            found_mount(self@, |m: Mount| ascii_case_equal(m.name@, name@), r),
    {
        self.find(2, 0, 0, name, Ghost(|m: Mount| ascii_case_equal(m.name@, name@)))
    }

    /// The first mount the client shows as `client_id`.
    pub fn get_mount_by_client_id(&self, client_id: u16) -> (r: Option<&Mount>)
        ensures
            found_mount(self@, |m: Mount| m.client_id == client_id, r),
    {
        self.find(1, 0, client_id, "", Ghost(|m: Mount| m.client_id == client_id))
    }

    /// All mounts.
    pub fn get_mounts(&self) -> (r: &[Mount])
        ensures
            r@ == self@,
    {
        self.mounts.as_slice()
    }
}

} // verus!
