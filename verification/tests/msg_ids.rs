use iiot_fusion::msg_id::{next_msg_id, MsgIdAllocator};

#[test]
fn first_identifiers_are_1_2_3() {
    let mut alloc = MsgIdAllocator::new();
    assert_eq!(next_msg_id(&mut alloc), 1);
    assert_eq!(next_msg_id(&mut alloc), 2);
    assert_eq!(next_msg_id(&mut alloc), 3);
}

#[test]
fn zero_is_skipped_on_wrap() {
    let mut alloc = MsgIdAllocator::starting_at(u32::MAX - 1);
    assert_eq!(next_msg_id(&mut alloc), u32::MAX - 1);
    assert_eq!(next_msg_id(&mut alloc), u32::MAX);
    assert_eq!(next_msg_id(&mut alloc), 1);
    assert_eq!(next_msg_id(&mut alloc), 2);
}

#[test]
fn counter_at_zero_gives_one_then_two() {
    let mut alloc = MsgIdAllocator::starting_at(0);
    assert_eq!(next_msg_id(&mut alloc), 1);
    assert_eq!(next_msg_id(&mut alloc), 2);
}

#[test]
fn identifiers_are_non_zero_and_distinct_over_a_run_across_the_wrap() {
    let mut alloc = MsgIdAllocator::starting_at(u32::MAX - 500);
    let mut seen: Vec<u32> = Vec::new();
    for _ in 0..1000 {
        let id = next_msg_id(&mut alloc);
        assert_ne!(id, 0);
        assert!(!seen.contains(&id));
        seen.push(id);
    }
}

#[test]
fn identifiers_increase_by_one_away_from_the_wrap() {
    let mut alloc = MsgIdAllocator::starting_at(41);
    let mut last = next_msg_id(&mut alloc);
    for _ in 0..100 {
        let id = next_msg_id(&mut alloc);
        assert_eq!(id, last + 1);
        last = id;
    }
}

#[test]
fn raw_counter_is_where_the_allocator_stands() {
    let mut alloc = MsgIdAllocator::new();
    assert_eq!(alloc.raw(), 1);
    next_msg_id(&mut alloc);
    assert_eq!(alloc.raw(), 2);
    let mut alloc = MsgIdAllocator::starting_at(u32::MAX);
    assert_eq!(next_msg_id(&mut alloc), u32::MAX);
    assert_eq!(alloc.raw(), 0);
    assert_eq!(next_msg_id(&mut alloc), 1);
    assert_eq!(alloc.raw(), 2);
}

#[test]
fn allocator_resumed_at_the_raw_counter_goes_on_where_the_other_stood() {
    let mut first = MsgIdAllocator::starting_at(u32::MAX - 2);
    let mut ids = Vec::new();
    for _ in 0..3 {
        ids.push(next_msg_id(&mut first));
        // a second holder picks up from the published counter
        let mut second = MsgIdAllocator::starting_at(first.raw());
        ids.push(next_msg_id(&mut second));
        first = MsgIdAllocator::starting_at(second.raw());
    }
    assert_eq!(ids, vec![u32::MAX - 2, u32::MAX - 1, u32::MAX, 1, 2, 3]);
}
