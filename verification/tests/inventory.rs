use tfs_rust::world::inventory::{
    add_item_destination, AddDestination, InvItem, InventoryModel, ItemFacts, SlotModel,
};

fn thing(server_id: u16, count: u16) -> InvItem {
    InvItem { server_id, count, is_container: false, capacity: 0, children: vec![] }
}

fn bag(capacity: usize, children: Vec<InvItem>) -> InvItem {
    InvItem { server_id: 1988, count: 1, is_container: true, capacity, children }
}

fn empty_slots() -> Vec<SlotModel> {
    (0..10).map(|_| SlotModel { server_id: None, count: 0, item: None }).collect()
}

fn wear(slots: &mut [SlotModel], slot: usize, item: InvItem) {
    slots[slot] = SlotModel { server_id: Some(item.server_id), count: item.count, item: Some(item) };
}

fn facts(server_id: u16, count: u16, stackable: bool) -> ItemFacts {
    ItemFacts { server_id, count, stackable, slot_fits: vec![false; 10], can_carry: true, can_drop: false }
}

#[test]
fn items_the_player_cannot_carry_go_nowhere() {
    let inv = InventoryModel { slots: empty_slots() };
    let mut f = facts(7, 1, true);
    f.can_carry = false;
    assert_eq!(add_item_destination(&inv, &f), AddDestination::NoCapacity);
}

#[test]
fn stackable_items_fill_a_worn_stack_first() {
    let mut slots = empty_slots();
    wear(&mut slots, 2, bag(20, vec![]));
    wear(&mut slots, 9, thing(7, 90));
    let inv = InventoryModel { slots };
    assert_eq!(
        add_item_destination(&inv, &facts(7, 30, true)),
        AddDestination::SlotStack { slot: 9, add: 10, remainder: 20 }
    );
}

#[test]
fn stackable_items_join_a_stack_in_a_container() {
    let mut slots = empty_slots();
    wear(&mut slots, 2, bag(2, vec![bag(1, vec![]), thing(7, 99)]));
    let inv = InventoryModel { slots };
    assert_eq!(
        add_item_destination(&inv, &facts(7, 0, true)),
        AddDestination::ContainerStack { path: vec![2], index: 1, add: 1, remainder: 0 }
    );
}

#[test]
fn containers_are_searched_breadth_first() {
    let mut slots = empty_slots();
    wear(&mut slots, 2, bag(2, vec![bag(3, vec![]), thing(8, 1)]));
    wear(&mut slots, 5, bag(1, vec![]));
    let inv = InventoryModel { slots };
    assert_eq!(
        add_item_destination(&inv, &facts(9, 1, false)),
        AddDestination::ContainerFront { path: vec![5] }
    );
    let mut slots = empty_slots();
    wear(&mut slots, 2, bag(2, vec![bag(3, vec![]), thing(8, 1)]));
    let inv = InventoryModel { slots };
    assert_eq!(
        add_item_destination(&inv, &facts(9, 1, false)),
        AddDestination::ContainerFront { path: vec![2, 0] }
    );
}

#[test]
fn without_room_items_go_to_a_fitting_slot_or_the_ground() {
    let mut slots = empty_slots();
    wear(&mut slots, 1, thing(3, 1));
    let inv = InventoryModel { slots };
    let mut f = facts(9, 1, false);
    f.slot_fits[1] = true;
    f.slot_fits[4] = true;
    f.slot_fits[6] = true;
    assert_eq!(add_item_destination(&inv, &f), AddDestination::EquipSlot { slot: 4 });
    let mut f = facts(9, 1, true);
    f.slot_fits = vec![true; 10];
    assert_eq!(add_item_destination(&inv, &f), AddDestination::Nowhere);
    f.can_drop = true;
    assert_eq!(add_item_destination(&inv, &f), AddDestination::Ground);
}
