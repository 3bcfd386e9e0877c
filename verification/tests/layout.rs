use rether::layout::{byte_len, grow_plan, shrink_plan, CopyRange, GrowPlan, ShrinkPlan};

#[test]
fn byte_len_multiplies_or_gives_up() {
    assert_eq!(byte_len(3, 40), Some(120));
    assert_eq!(byte_len(0, 40), Some(0));
    assert_eq!(byte_len(7, 0), Some(0));
    assert_eq!(byte_len(u64::MAX, 1), Some(u64::MAX));
    assert_eq!(byte_len(u64::MAX, 2), None);
    assert_eq!(byte_len(1 << 32, 1 << 32), None);
}

#[test]
fn grow_plan_keeps_the_old_bytes() {
    assert_eq!(grow_plan(10, 5, 40), Some(GrowPlan { new_bytes: 600, keep_bytes: 400 }));
    assert_eq!(grow_plan(0, 0, 40), Some(GrowPlan { new_bytes: 0, keep_bytes: 0 }));
    assert_eq!(grow_plan(u64::MAX, 1, 1), None);
    assert_eq!(grow_plan(u64::MAX, 1, 0), Some(GrowPlan { new_bytes: 0, keep_bytes: 0 }));
}

#[test]
fn shrink_plan_closes_the_gap() {
    assert_eq!(
        shrink_plan(150, 0, 100, 40),
        Some(ShrinkPlan {
            new_bytes: 2000,
            head: CopyRange { source: 0, destination: 0, len: 0 },
            tail: CopyRange { source: 4000, destination: 0, len: 2000 },
        })
    );
    assert_eq!(
        shrink_plan(10, 2, 3, 4),
        Some(ShrinkPlan {
            new_bytes: 28,
            head: CopyRange { source: 0, destination: 0, len: 8 },
            tail: CopyRange { source: 20, destination: 8, len: 20 },
        })
    );
    assert_eq!(shrink_plan(10, 8, 3, 4), None);
    assert_eq!(shrink_plan(10, 11, 0, 4), None);
    assert_eq!(shrink_plan(u64::MAX, 0, 1, 2), None);
}
