//! Where an item added to a player goes: onto a stack in an equipment
//! slot, into a container of the worn items (searched breadth first), into
//! an empty equipment slot it fits, or onto the ground.
use vstd::prelude::*;

verus! {

/// The most items a stack holds.
pub const MAX_STACK: u16 = 100;

/// An item worn or carried, as the placement reads it: its id and count,
/// whether it is a container and how many items it holds at most, and the
/// items in it.
#[derive(Debug)]
pub struct InvItem {
    pub server_id: u16,
    pub count: u16,
    pub is_container: bool,
    pub capacity: usize,
    pub children: Vec<InvItem>,
}

/// An equipment slot: the item id and count it records, and the item worn
/// there.
#[derive(Debug)]
pub struct SlotModel {
    pub server_id: Option<u16>,
    pub count: u16,
    pub item: Option<InvItem>,
}

/// A player's equipment slots, in slot order.
#[derive(Debug)]
pub struct InventoryModel {
    pub slots: Vec<SlotModel>,
}

/// The item to add: its id and count, whether it stacks, which slots it
/// may be worn in (one flag per slot), whether the player can carry it,
/// and whether it may be dropped when there is no room.
#[derive(Debug)]
pub struct ItemFacts {
    pub server_id: u16,
    pub count: u16,
    pub stackable: bool,
    pub slot_fits: Vec<bool>,
    pub can_carry: bool,
    pub can_drop: bool,
}

/// Where the item goes. A container is named by its path: the slot index,
/// then the index of each container in the one before. `add` items go
/// there and `remainder` are left to add again.
#[derive(Debug, PartialEq, Eq)]
pub enum AddDestination {
    /// The player cannot carry the item.
    NoCapacity,
    /// Onto the stack in equipment slot `slot`.
    SlotStack { slot: usize, add: u16, remainder: u16 },
    /// Onto the stack at index `index` of the container at `path`.
    ContainerStack { path: Vec<usize>, index: usize, add: u16, remainder: u16 },
    /// At the front of the container at `path`.
    ContainerFront { path: Vec<usize> },
    /// Into the empty equipment slot `slot`.
    EquipSlot { slot: usize },
    /// Onto the ground under the player.
    Ground,
    /// Nowhere: there is no room and the item may not be dropped.
    Nowhere,
}

/// A destination as the contracts see it.
pub enum DestinationView {
    NoCapacity,
    SlotStack { slot: int, add: int, remainder: int },
    ContainerStack { path: Seq<usize>, index: int, add: int, remainder: int },
    ContainerFront { path: Seq<usize> },
    EquipSlot { slot: int },
    Ground,
    Nowhere,
}

/// The view of a destination.
pub open spec fn dest_view(d: AddDestination) -> DestinationView {
    match d {
        AddDestination::NoCapacity => DestinationView::NoCapacity,
        AddDestination::SlotStack { slot, add, remainder } => DestinationView::SlotStack {
            slot: slot as int,
            add: add as int,
            remainder: remainder as int,
        },
        AddDestination::ContainerStack { path, index, add, remainder } => DestinationView::ContainerStack {
            path: path@,
            index: index as int,
            add: add as int,
            remainder: remainder as int,
        },
        AddDestination::ContainerFront { path } => DestinationView::ContainerFront { path: path@ },
        AddDestination::EquipSlot { slot } => DestinationView::EquipSlot { slot: slot as int },
        AddDestination::Ground => DestinationView::Ground,
        AddDestination::Nowhere => DestinationView::Nowhere,
    }
}

/// The number of items added: the count, at least one.
pub open spec fn add_count(count: u16) -> int {
    if count == 0 {
        1
    } else {
        count as int
    }
}

/// How many items of `cnt` fit onto a stack of `have`.
pub open spec fn stack_add(cnt: int, have: u16) -> int {
    if cnt < MAX_STACK - have {
        cnt
    } else {
        MAX_STACK - have
    }
}

/// The first slot from `i` on holding a stack of `id` with room left.
pub open spec fn stack_slot_from(slots: Seq<SlotModel>, id: u16, i: int) -> Option<int>
    decreases slots.len() - i,
{
    if i < 0 || i >= slots.len() {
        None
    } else if slots[i].server_id == Some(id) && slots[i].count < MAX_STACK {
        Some(i)
    } else {
        stack_slot_from(slots, id, i + 1)
    }
}

/// The first item from `i` on in `cs` that is a stack of `id` with room
/// left.
pub open spec fn stack_child_from(cs: Seq<InvItem>, id: u16, i: int) -> Option<int>
    decreases cs.len() - i,
{
    if i < 0 || i >= cs.len() {
        None
    } else if cs[i].server_id == id && cs[i].count < MAX_STACK {
        Some(i)
    } else {
        stack_child_from(cs, id, i + 1)
    }
}

/// Whether container `n` takes item `f`, and how: onto the stack at an
/// index (for a stackable item, the first stack of its id with room), or
/// at the front while the container has room.
pub open spec fn accepts(n: InvItem, f: ItemFacts) -> Option<Option<int>> {
    let merge = if f.stackable {
        stack_child_from(n.children@, f.server_id, 0)
    } else {
        None
    };
    match merge {
        Some(i) => Some(Some(i)),
        None => if n.children@.len() < n.capacity {
            Some(None)
        } else {
            None
        },
    }
}

/// The number of items in `n` and below, itself included.
pub open spec fn tree_size(n: InvItem) -> nat
    decreases n,
{
    1 + items_size(n.children@)
}

/// The number of items in the trees of `s`.
pub open spec fn items_size(s: Seq<InvItem>) -> nat
    decreases s,
{
    if s.len() == 0 {
        0
    } else {
        items_size(s.subrange(0, s.len() - 1)) + tree_size(s[s.len() - 1])
    }
}

/// A container waiting in the search, with its path.
pub type Queued = (Seq<usize>, InvItem);

/// The number of items in the trees of the queue `q`.
pub open spec fn queue_size(q: Seq<Queued>) -> nat
    decreases q.len(),
{
    if q.len() == 0 {
        0
    } else {
        queue_size(q.subrange(0, q.len() - 1)) + tree_size(q[q.len() - 1].1)
    }
}

/// The containers among the items `cs` of the container at `path`, with
/// their paths, in order.
pub open spec fn container_kids(path: Seq<usize>, cs: Seq<InvItem>) -> Seq<Queued>
    decreases cs.len(),
{
    if cs.len() == 0 {
        Seq::empty()
    } else {
        let n = cs.len() - 1;
        let rest = container_kids(path, cs.subrange(0, n));
        if cs[n].is_container {
            rest.push((path.push(n as usize), cs[n]))
        } else {
            rest
        }
    }
}

pub proof fn lemma_queue_size_concat(a: Seq<Queued>, b: Seq<Queued>)
    ensures
        queue_size(a + b) == queue_size(a) + queue_size(b),
    decreases b.len(),
{
    if b.len() == 0 {
        assert(a + b =~= a);
    } else {
        let b1 = b.subrange(0, b.len() - 1);
        lemma_queue_size_concat(a, b1);
        assert((a + b).subrange(0, (a + b).len() - 1) =~= a + b1);
    }
}

pub proof fn lemma_kids_size(path: Seq<usize>, cs: Seq<InvItem>)
    ensures
        queue_size(container_kids(path, cs)) <= items_size(cs),
    decreases cs.len(),
{
    if cs.len() > 0 {
        let n = cs.len() - 1;
        lemma_kids_size(path, cs.subrange(0, n));
        let rest = container_kids(path, cs.subrange(0, n));
        if cs[n].is_container {
            let k = rest.push((path.push(n as usize), cs[n]));
            assert(k.subrange(0, k.len() - 1) =~= rest);
        }
    }
}

pub proof fn lemma_step_smaller(q: Seq<Queued>)
    requires
        q.len() > 0,
    ensures
        queue_size(q.drop_first() + container_kids(q[0].0, q[0].1.children@)) < queue_size(q),
{
    assert(q =~= seq![q[0]] + q.drop_first());
    lemma_queue_size_concat(seq![q[0]], q.drop_first());
    assert(seq![q[0]].subrange(0, 0) =~= Seq::<Queued>::empty());
    lemma_queue_size_concat(q.drop_first(), container_kids(q[0].0, q[0].1.children@));
    lemma_kids_size(q[0].0, q[0].1.children@);
}

/// The first container of the queue `q`, searched breadth first (each
/// container's own containers join the end of the queue), that takes item
/// `f`, with its path and how it takes it (see `accepts`).
pub open spec fn search(q: Seq<Queued>, f: ItemFacts) -> Option<(Seq<usize>, InvItem, Option<int>)>
    decreases queue_size(q),
{
    if q.len() == 0 {
        None
    } else {
        match accepts(q[0].1, f) {
            Some(m) => Some((q[0].0, q[0].1, m)),
            None => {
                proof {
                    lemma_step_smaller(q);
                }
                search(q.drop_first() + container_kids(q[0].0, q[0].1.children@), f)
            },
        }
    }
}

/// The containers worn in the slots from the first `k`, with their paths
/// (the slot index), in slot order.
pub open spec fn slot_containers(slots: Seq<SlotModel>, k: int) -> Seq<Queued>
    decreases k,
{
    if k <= 0 || k > slots.len() {
        Seq::empty()
    } else {
        let rest = slot_containers(slots, k - 1);
        match slots[k - 1].item {
            Some(it) => if it.is_container {
                rest.push((seq![(k - 1) as usize], it))
            } else {
                rest
            },
            None => rest,
        }
    }
}

/// The first empty slot from `i` on that the item may be worn in.
pub open spec fn equip_slot_from(slots: Seq<SlotModel>, fits: Seq<bool>, i: int) -> Option<int>
    decreases slots.len() - i,
{
    if i < 0 || i >= slots.len() {
        None
    } else if slots[i].server_id is None && i < fits.len() && fits[i] {
        Some(i)
    } else {
        equip_slot_from(slots, fits, i + 1)
    }
}

/// Where item `f` goes in inventory `slots`: nowhere when the player cannot
/// carry it; a stackable item onto the first slot stack of its id with
/// room; else into the first container, breadth first, that takes it;
/// else a non-stackable item into the first empty slot it fits; else onto
/// the ground where it may be dropped, or nowhere.
pub open spec fn query_destination(slots: Seq<SlotModel>, f: ItemFacts) -> DestinationView {
    let cnt = add_count(f.count);
    let stack = if f.stackable {
        stack_slot_from(slots, f.server_id, 0)
    } else {
        None
    };
    if !f.can_carry {
        DestinationView::NoCapacity
    } else if stack is Some {
        let s = stack->0;
        let add = stack_add(cnt, slots[s].count);
        DestinationView::SlotStack { slot: s, add, remainder: cnt - add }
    } else {
        match search(slot_containers(slots, slots.len() as int), f) {
            Some((p, n, Some(i))) => {
                let add = stack_add(cnt, n.children@[i].count);
                DestinationView::ContainerStack { path: p, index: i, add, remainder: cnt - add }
            },
            Some((p, n, None)) => DestinationView::ContainerFront { path: p },
            None => {
                let e = if f.stackable {
                    None
                } else {
                    equip_slot_from(slots, f.slot_fits@, 0)
                };
                match e {
                    Some(s) => DestinationView::EquipSlot { slot: s },
                    None => if f.can_drop {
                        DestinationView::Ground
                    } else {
                        DestinationView::Nowhere
                    },
                }
            },
        }
    }
}

/// The view of a search queue.
pub open spec fn qview(q: Seq<(Vec<usize>, &InvItem)>) -> Seq<Queued> {
    Seq::new(q.len(), |i: int| (q[i].0@, *q[i].1))
}

fn copy_path(p: &Vec<usize>) -> (r: Vec<usize>)
    ensures
        r@ == p@,
{
    let mut r: Vec<usize> = Vec::new();
    let mut i: usize = 0;
    while i < p.len()
        invariant
            i <= p@.len(),
            r@ == p@.subrange(0, i as int),
        decreases p.len() - i,
    {
        r.push(p[i]);
        i = i + 1;
        assert(r@ =~= p@.subrange(0, i as int));
    }
    assert(p@.subrange(0, p@.len() as int) =~= p@);
    r
}

fn find_stack_slot(slots: &Vec<SlotModel>, id: u16) -> (r: Option<usize>)
    ensures
        r matches Some(i) ==> stack_slot_from(slots@, id, 0) == Some(i as int),
        r is None ==> stack_slot_from(slots@, id, 0) is None,
        r matches Some(i) ==> i < slots@.len() && slots@[i as int].count < MAX_STACK,
{
    let mut i: usize = 0;
    while i < slots.len()
        invariant
            i <= slots@.len(),
            stack_slot_from(slots@, id, 0) == stack_slot_from(slots@, id, i as int),
        decreases slots.len() - i,
    {
        if slots[i].server_id == Some(id) && slots[i].count < MAX_STACK {
            return Some(i);
        }
        i = i + 1;
    }
    None
}

fn find_stack_child(cs: &Vec<InvItem>, id: u16) -> (r: Option<usize>)
    ensures
        r matches Some(i) ==> stack_child_from(cs@, id, 0) == Some(i as int),
        r is None ==> stack_child_from(cs@, id, 0) is None,
        r matches Some(i) ==> i < cs@.len() && cs@[i as int].count < MAX_STACK,
{
    let mut i: usize = 0;
    while i < cs.len()
        invariant
            i <= cs@.len(),
            stack_child_from(cs@, id, 0) == stack_child_from(cs@, id, i as int),
        decreases cs.len() - i,
    {
        if cs[i].server_id == id && cs[i].count < MAX_STACK {
            return Some(i);
        }
        i = i + 1;
    }
    None
}

fn find_equip_slot(slots: &Vec<SlotModel>, fits: &Vec<bool>) -> (r: Option<usize>)
    ensures
        r matches Some(i) ==> equip_slot_from(slots@, fits@, 0) == Some(i as int),
        r is None ==> equip_slot_from(slots@, fits@, 0) is None,
{
    let mut i: usize = 0;
    while i < slots.len()
        invariant
            i <= slots@.len(),
            equip_slot_from(slots@, fits@, 0) == equip_slot_from(slots@, fits@, i as int),
        decreases slots.len() - i,
    {
        if slots[i].server_id.is_none() && i < fits.len() && fits[i] {
            return Some(i);
        }
        i = i + 1;
    }
    None
}

fn container_accepts(n: &InvItem, f: &ItemFacts) -> (r: Option<Option<usize>>)
    ensures
        r matches Some(Some(i)) ==> accepts(*n, *f) == Some(Some(i as int)),
        r == Some(None::<usize>) ==> accepts(*n, *f) == Some(None::<int>),
        r is None ==> accepts(*n, *f) is None,
        r matches Some(Some(i)) ==> i < n.children@.len() && n.children@[i as int].count < MAX_STACK,
{
    let merge = if f.stackable {
        find_stack_child(&n.children, f.server_id)
    } else {
        None
    };
    match merge {
        Some(i) => Some(Some(i)),
        None => if n.children.len() < n.capacity {
            Some(None)
        } else {
            None
        },
    }
}

fn search_containers<'a>(slots: &'a Vec<SlotModel>, f: &ItemFacts) -> (r: Option<(Vec<usize>, &'a InvItem, Option<usize>)>)
    ensures
        r matches Some(t) ==> search(slot_containers(slots@, slots@.len() as int), *f) == Some(
            (t.0@, *t.1, match t.2 {
                Some(i) => Some(i as int),
                None => None,
            }),
        ),
        r is None ==> search(slot_containers(slots@, slots@.len() as int), *f) is None,
        r matches Some(t) ==> (t.2 matches Some(i) ==> i < t.1.children@.len()
            && t.1.children@[i as int].count < MAX_STACK),
{
    let mut q: Vec<(Vec<usize>, &'a InvItem)> = Vec::new();
    let mut k: usize = 0;
    while k < slots.len()
        invariant
            k <= slots@.len(),
            qview(q@) == slot_containers(slots@, k as int),
        decreases slots.len() - k,
    {
        let ghost before = q@;
        match &slots[k].item {
            Some(it) => {
                if it.is_container {
                    let mut p: Vec<usize> = Vec::new();
                    p.push(k);
                    q.push((p, it));
                    assert(qview(q@) =~= qview(before).push((seq![k], *it)));
                }
            },
            None => {},
        }
        k = k + 1;
    }
    let ghost start = qview(q@);
    let mut head: usize = 0;
    assert(qview(q@).skip(0) =~= qview(q@));
    while head < q.len()
        invariant
            head <= q@.len(),
            start == slot_containers(slots@, slots@.len() as int),
            search(start, *f) == search(qview(q@).skip(head as int), *f),
        decreases queue_size(qview(q@).skip(head as int)),
    {
        let ghost qs = qview(q@).skip(head as int);
        let n: &'a InvItem = q[head].1;
        let p = copy_path(&q[head].0);
        proof {
            assert(qs[0] == (p@, *n));
            lemma_step_smaller(qs);
        }
        match container_accepts(n, f) {
            Some(m) => {
                return Some((p, n, m));
            },
            None => {},
        }
        head = head + 1;
        let ghost base = qview(q@);
        proof {
            assert(base.skip(head as int) =~= qs.drop_first());
        }
        let mut i: usize = 0;
        while i < n.children.len()
            invariant
                i <= n.children@.len(),
                head <= base.len(),
                qview(q@) == base + container_kids(p@, n.children@.subrange(0, i as int)),
            decreases n.children.len() - i,
        {
            let ghost before = q@;
            let ghost cs1 = n.children@.subrange(0, i + 1);
            proof {
                assert(cs1.subrange(0, cs1.len() - 1) =~= n.children@.subrange(0, i as int));
            }
            if n.children[i].is_container {
                let mut p2 = copy_path(&p);
                p2.push(i);
                q.push((p2, &n.children[i]));
                assert(qview(q@) =~= qview(before).push((p@.push(i), n.children@[i as int])));
            }
            i = i + 1;
        }
        proof {
            assert(n.children@.subrange(0, n.children@.len() as int) =~= n.children@);
            assert(qview(q@).skip(head as int) =~= qs.drop_first() + container_kids(p@, n.children@));
        }
    }
    None
}

/// Where `item` goes when added to the player with equipment `inv` (see
/// `query_destination`).
pub fn add_item_destination(inv: &InventoryModel, item: &ItemFacts) -> (d: AddDestination)
    ensures
        dest_view(d) == query_destination(inv.slots@, *item),
{
    let cnt: u16 = if item.count == 0 {
        1
    } else {
        item.count
    };
    if !item.can_carry {
        return AddDestination::NoCapacity;
    }
    let stack = if item.stackable {
        find_stack_slot(&inv.slots, item.server_id)
    } else {
        None
    };
    match stack {
        Some(s) => {
            let room = MAX_STACK - inv.slots[s].count;
            let add = if cnt < room {
                cnt
            } else {
                room
            };
            let d = AddDestination::SlotStack { slot: s, add, remainder: cnt - add };
            return d;
        },
        None => {},
    }
    match search_containers(&inv.slots, item) {
        Some((p, n, Some(i))) => {
            let room = MAX_STACK - n.children[i].count;
            let add = if cnt < room {
                cnt
            } else {
                room
            };
            AddDestination::ContainerStack { path: p, index: i, add, remainder: cnt - add }
        },
        Some((p, _n, None)) => AddDestination::ContainerFront { path: p },
        None => {
            let e = if item.stackable {
                None
            } else {
                find_equip_slot(&inv.slots, &item.slot_fits)
            };
            match e {
                Some(s) => AddDestination::EquipSlot { slot: s },
                None => if item.can_drop {
                    AddDestination::Ground
                } else {
                    AddDestination::Nowhere
                },
            }
        },
    }
}

} // verus!
