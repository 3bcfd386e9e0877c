use glam::Vec3;
use rether::action::{ModifyAction, Mutation};
use rether::allocator::{
    AllocHandle, BufferAlloc, BufferAllocation, BufferDynamicAlloc, BufferDynamicAllocator,
    StaticAllocHandle,
};
use rether::queue::{Channel, SendError};

fn regions_of(allocator: &BufferDynamicAllocator, ids: &[&str]) -> Vec<(usize, usize)> {
    ids.iter()
        .filter_map(|id| allocator.get(id))
        .map(|h| (h.offset(), h.size()))
        .collect()
}

#[test]
fn free_compacts_the_regions_behind() {
    let mut allocator = BufferDynamicAllocator::default();
    let mesh1 = allocator.allocate("mesh1", 100);
    assert_eq!((mesh1.offset(), mesh1.size()), (0, 100));
    let mesh2 = allocator.allocate("mesh2", 50);
    assert_eq!((mesh2.offset(), mesh2.size()), (100, 50));
    assert_eq!(allocator.size(), 150);

    let freed = allocator.free("mesh1");
    assert_eq!(freed, Some(BufferAllocation { offset: 0, size: 100 }));
    let mesh2 = allocator.get("mesh2").unwrap();
    assert_eq!((mesh2.offset(), mesh2.size()), (0, 50));
    assert_eq!(allocator.size(), 50);
    assert!(allocator.get("mesh1").is_none());
}

#[test]
fn a_new_allocator_is_empty() {
    let allocator = BufferDynamicAllocator::default();
    assert_eq!(allocator.size(), 0);
    assert!(allocator.get("anything").is_none());
}

#[test]
fn allocate_appends_at_the_end() {
    let mut allocator = BufferDynamicAllocator::default();
    let a = allocator.allocate("a", 7);
    let b = allocator.allocate("b", 0);
    let c = allocator.allocate("c", 5);
    assert_eq!(a.id(), "a");
    assert_eq!((a.offset(), a.size()), (0, 7));
    assert_eq!((b.offset(), b.size()), (7, 0));
    assert_eq!((c.offset(), c.size()), (7, 5));
    assert!(!c.is_destroyed());
    assert_eq!(allocator.size(), 12);
    assert_eq!(c.allocation(), BufferAllocation { offset: 7, size: 5 });
}

#[test]
fn free_of_an_unknown_id_changes_nothing() {
    let mut allocator = BufferDynamicAllocator::default();
    allocator.allocate("a", 4);
    assert_eq!(allocator.free("b"), None);
    assert_eq!(allocator.size(), 4);
    assert_eq!(regions_of(&allocator, &["a"]), vec![(0, 4)]);
    assert_eq!(allocator.free("a"), Some(BufferAllocation { offset: 0, size: 4 }));
    assert_eq!(allocator.free("a"), None);
    assert_eq!(allocator.size(), 0);
}

#[test]
fn free_in_the_middle_moves_only_what_lies_behind() {
    let mut allocator = BufferDynamicAllocator::default();
    allocator.allocate("a", 10);
    allocator.allocate("b", 20);
    allocator.allocate("c", 30);
    allocator.allocate("d", 40);
    assert_eq!(allocator.free("b"), Some(BufferAllocation { offset: 10, size: 20 }));
    assert_eq!(regions_of(&allocator, &["a", "c", "d"]), vec![(0, 10), (10, 30), (40, 40)]);
    assert_eq!(allocator.size(), 80);
    assert_eq!(allocator.free("d"), Some(BufferAllocation { offset: 40, size: 40 }));
    assert_eq!(regions_of(&allocator, &["a", "c"]), vec![(0, 10), (10, 30)]);
    assert_eq!(allocator.size(), 40);
}

#[test]
fn regions_stay_disjoint_and_add_up_to_the_size() {
    let mut allocator = BufferDynamicAllocator::default();
    let ids = ["a", "b", "c", "d", "e"];
    for (i, id) in ids.iter().enumerate() {
        allocator.allocate(id, 3 * i + 1);
    }
    allocator.free("c");
    allocator.free("a");
    allocator.allocate("a", 9);
    let regions = regions_of(&allocator, &ids);
    assert_eq!(regions.len(), 4);
    assert_eq!(regions.iter().map(|r| r.1).sum::<usize>(), allocator.size());
    for (i, a) in regions.iter().enumerate() {
        for b in regions.iter().skip(i + 1) {
            assert!(a.0 + a.1 <= b.0 || b.0 + b.1 <= a.0);
        }
    }
}

#[test]
fn allocate_then_free_restores_the_size() {
    let mut allocator = BufferDynamicAllocator::default();
    allocator.allocate("kept", 11);
    let before = allocator.size();
    allocator.allocate("brief", 31);
    assert_eq!(allocator.size(), 42);
    assert_eq!(allocator.free("brief"), Some(BufferAllocation { offset: 11, size: 31 }));
    assert_eq!(allocator.size(), before);
    assert_eq!(regions_of(&allocator, &["kept"]), vec![(0, 11)]);
}

#[test]
fn an_id_can_be_used_again_after_a_free() {
    let mut allocator = BufferDynamicAllocator::default();
    allocator.allocate("a", 2);
    allocator.allocate("b", 3);
    allocator.free("a");
    let again = allocator.allocate("a", 4);
    assert_eq!((again.offset(), again.size()), (3, 4));
    assert_eq!(regions_of(&allocator, &["b", "a"]), vec![(0, 3), (3, 4)]);
}

#[test]
fn send_action_makes_the_offset_absolute() {
    let mut allocator = BufferDynamicAllocator::default();
    allocator.allocate("first", 10);
    let second = allocator.allocate("second", 5);
    let action = ModifyAction::new(2, 3, Mutation::Translate(Vec3::X));
    assert!(second.send_action(action, allocator.action_sender()).is_ok());
    let seen = std::cell::RefCell::new(Vec::new());
    allocator.update(|action| seen.borrow_mut().push((action.offset, action.size)));
    assert_eq!(*seen.borrow(), vec![(12, 3)]);
}

#[test]
fn update_hands_actions_over_in_send_order() {
    let mut allocator = BufferDynamicAllocator::default();
    allocator.allocate("first", 10);
    let second = allocator.allocate("second", 5);
    for r in 0..4usize {
        let action = ModifyAction::new(r, 1, Mutation::Translate(Vec3::new(r as f32, 0.0, 0.0)));
        assert!(second.send_action(action, allocator.action_sender()).is_ok());
    }
    let seen = std::cell::RefCell::new(Vec::new());
    allocator.update(|action| seen.borrow_mut().push(action.offset));
    assert_eq!(*seen.borrow(), vec![10, 11, 12, 13]);
    allocator.update(|_| panic!("nothing is pending"));
}

#[test]
fn nothing_is_applied_before_update() {
    let mut allocator = BufferDynamicAllocator::default();
    let handle = allocator.allocate("a", 1);
    let action = ModifyAction::new(0, 1, Mutation::Translate(Vec3::X));
    handle.send_action(action, allocator.action_sender()).unwrap();
    assert_eq!(allocator.action_sender().len(), 1);
    allocator.update(|_| {});
    assert_eq!(allocator.action_sender().len(), 0);
}

#[test]
fn send_on_a_closed_queue_fails_and_enqueues_nothing() {
    let mut queue: Channel<ModifyAction> = Channel::new();
    let handle = StaticAllocHandle::new("fixed", 40, 8);
    queue.close();
    let action = ModifyAction::new(1, 2, Mutation::Scale(Vec3::ONE, Vec3::ZERO));
    match handle.send_action(action, &mut queue) {
        Err(SendError(back)) => assert_eq!((back.offset, back.size), (41, 2)),
        Ok(()) => panic!("the queue is closed"),
    }
    assert_eq!(queue.len(), 0);
}

#[test]
fn a_static_handle_keeps_what_it_was_made_with() {
    let handle = StaticAllocHandle::new("fixed", 40, 8);
    assert_eq!(handle.id(), "fixed");
    assert_eq!((handle.offset(), handle.size()), (40, 8));
    let other =
        StaticAllocHandle::from_buffer_allocation("other", &BufferAllocation { offset: 3, size: 9 });
    assert_eq!(other.id(), "other");
    assert_eq!((other.offset(), other.size()), (3, 9));
    let mut queue: Channel<ModifyAction> = Channel::new();
    let action = ModifyAction::new(5, 1, Mutation::Translate(Vec3::Y));
    assert!(other.send_action(action, &mut queue).is_ok());
    assert_eq!(queue.try_recv().map(|a| a.offset), Some(8));
}

#[test]
fn destroy_marks_the_handle_and_asks_for_the_free() {
    let mut allocator = BufferDynamicAllocator::default();
    allocator.allocate("a", 5);
    let mut b = allocator.allocate("b", 6);
    assert!(!b.is_destroyed());
    b.destroy(allocator.destroy_sender());
    assert!(b.is_destroyed());
    assert_eq!(allocator.size(), 11);
    assert!(allocator.get("b").is_some());
    assert_eq!(allocator.get_destroyed_handles(), vec!["b".to_string()]);
    assert!(allocator.get_destroyed_handles().is_empty());
    assert_eq!(allocator.free("b"), Some(BufferAllocation { offset: 5, size: 6 }));
    assert_eq!(allocator.size(), 5);
}

#[test]
fn reclaim_frees_what_asked_for_it() {
    let mut allocator = BufferDynamicAllocator::default();
    let mut a = allocator.allocate("a", 5);
    allocator.allocate("b", 6);
    let mut c = allocator.allocate("c", 7);
    c.destroy(allocator.destroy_sender());
    a.destroy(allocator.destroy_sender());
    a.destroy(allocator.destroy_sender());
    let freed = allocator.reclaim();
    assert_eq!(
        freed,
        vec![BufferAllocation { offset: 11, size: 7 }, BufferAllocation { offset: 0, size: 5 }]
    );
    assert_eq!(allocator.size(), 6);
    assert_eq!(regions_of(&allocator, &["a", "b", "c"]), vec![(0, 6)]);
    assert!(allocator.reclaim().is_empty());
}

#[test]
fn sync_brings_a_copy_up_to_date() {
    let mut allocator = BufferDynamicAllocator::default();
    let mut a = allocator.allocate("a", 5);
    let mut b = allocator.allocate("b", 6);
    allocator.free("a");
    assert_eq!(b.offset(), 5);
    allocator.sync(&mut b);
    assert_eq!((b.offset(), b.size()), (0, 6));
    assert!(!b.is_destroyed());
    allocator.sync(&mut a);
    assert!(a.is_destroyed());
    assert_eq!((a.offset(), a.size()), (0, 5));
}
