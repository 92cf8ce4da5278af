use hkb_event_listener::walker::{
    is_plausible, non_null, text_address, untag, ChainWalk, WalkRequest, DEFAULT_THRESHOLD,
};

const HEAP: u64 = 0x200_0000_0000;

#[test]
fn untag_clears_the_lowest_bit_only() {
    assert_eq!(untag(HEAP + 0x11), HEAP + 0x10);
    assert_eq!(untag(HEAP + 0x10), HEAP + 0x10);
    assert_eq!(untag(1), 0);
    assert_eq!(untag(0), 0);
    assert_eq!(untag(u64::MAX), u64::MAX - 1);
    assert_eq!(untag(u64::MAX - 1), u64::MAX - 1);
    assert_eq!(untag(0x8000_0000_0000_0003), 0x8000_0000_0000_0002);
}

#[test]
fn tagged_pointer_with_flag_set_gives_the_address_without_it() {
    assert_eq!(text_address(HEAP + 0x201, DEFAULT_THRESHOLD), Some(HEAP + 0x200));
}

#[test]
fn tagged_pointer_with_flag_clear_is_unchanged() {
    assert_eq!(text_address(HEAP + 0x200, DEFAULT_THRESHOLD), Some(HEAP + 0x200));
}

#[test]
fn value_below_the_threshold_is_absent() {
    assert_eq!(text_address(0, DEFAULT_THRESHOLD), None);
    assert_eq!(text_address(1, DEFAULT_THRESHOLD), None);
    assert_eq!(text_address(0xFFFF_FFFF, DEFAULT_THRESHOLD), None);
    assert_eq!(text_address(DEFAULT_THRESHOLD - 1, DEFAULT_THRESHOLD), None);
}

#[test]
fn value_at_the_threshold_is_followed() {
    assert_eq!(DEFAULT_THRESHOLD, 0x100_0000_0000);
    assert_eq!(text_address(DEFAULT_THRESHOLD, DEFAULT_THRESHOLD), Some(DEFAULT_THRESHOLD));
    assert_eq!(text_address(DEFAULT_THRESHOLD + 1, DEFAULT_THRESHOLD), Some(DEFAULT_THRESHOLD));
    assert!(is_plausible(DEFAULT_THRESHOLD, DEFAULT_THRESHOLD));
    assert!(!is_plausible(DEFAULT_THRESHOLD - 1, DEFAULT_THRESHOLD));
}

#[test]
fn threshold_is_the_callers_choice() {
    assert_eq!(text_address(0x1001, 0x1000), Some(0x1000));
    assert_eq!(text_address(0xFFF, 0x1000), None);
    assert_eq!(text_address(0, 0), Some(0));
    assert_eq!(text_address(u64::MAX - 1, u64::MAX), None);
}

#[test]
fn walk_asks_for_each_link_in_turn() {
    let mut walk = ChainWalk::start(HEAP, vec![0x0, 0x40, 0x8], DEFAULT_THRESHOLD);
    assert_eq!(walk.threshold(), DEFAULT_THRESHOLD);
    assert_eq!(walk.request(), WalkRequest::Read { address: HEAP });
    walk.supply(Some(HEAP + 0x1000));
    assert_eq!(walk.request(), WalkRequest::Read { address: HEAP + 0x1040 });
    walk.supply(Some(HEAP + 0x2000));
    assert_eq!(walk.request(), WalkRequest::Read { address: HEAP + 0x2008 });
    walk.supply(Some(HEAP + 0x3001));
    assert_eq!(walk.request(), WalkRequest::Finished { value: Some(HEAP + 0x3001) });
}

#[test]
fn walk_without_offsets_ends_at_its_root() {
    let walk = ChainWalk::start(5, Vec::new(), DEFAULT_THRESHOLD);
    assert_eq!(walk.request(), WalkRequest::Finished { value: Some(5) });
}

#[test]
fn walk_does_not_check_its_root() {
    let walk = ChainWalk::start(0x10, vec![0x8], DEFAULT_THRESHOLD);
    assert_eq!(walk.request(), WalkRequest::Read { address: 0x18 });
}

#[test]
fn implausible_link_ends_the_walk_without_another_read() {
    let mut walk = ChainWalk::start(HEAP, vec![0x0, 0x40], DEFAULT_THRESHOLD);
    walk.supply(Some(DEFAULT_THRESHOLD - 1));
    assert_eq!(walk.request(), WalkRequest::Finished { value: None });
    walk.supply(Some(HEAP));
    assert_eq!(walk.request(), WalkRequest::Finished { value: None });
}

#[test]
fn null_link_ends_the_walk() {
    let mut walk = ChainWalk::start(HEAP, vec![0x0, 0x40], DEFAULT_THRESHOLD);
    walk.supply(Some(0));
    assert_eq!(walk.request(), WalkRequest::Finished { value: None });
}

#[test]
fn implausible_last_value_ends_the_walk_absent() {
    let mut walk = ChainWalk::start(HEAP, vec![0x0, 0x40], DEFAULT_THRESHOLD);
    walk.supply(Some(HEAP + 0x100));
    walk.supply(Some(0x1234));
    assert_eq!(walk.request(), WalkRequest::Finished { value: None });
}

#[test]
fn unreadable_link_ends_the_walk() {
    let mut walk = ChainWalk::start(HEAP, vec![0x0, 0x40], DEFAULT_THRESHOLD);
    walk.supply(None);
    assert_eq!(walk.request(), WalkRequest::Finished { value: None });
}

#[test]
fn address_beyond_the_address_space_ends_the_walk() {
    let walk = ChainWalk::start(u64::MAX - 3, vec![0x4], DEFAULT_THRESHOLD);
    assert_eq!(walk.request(), WalkRequest::Finished { value: None });
    let walk = ChainWalk::start(u64::MAX - 4, vec![0x4], DEFAULT_THRESHOLD);
    assert_eq!(walk.request(), WalkRequest::Read { address: u64::MAX });
}

#[test]
fn supplying_a_finished_walk_changes_nothing() {
    let mut walk = ChainWalk::start(HEAP, vec![0x8], DEFAULT_THRESHOLD);
    walk.supply(Some(HEAP + 0x10));
    assert_eq!(walk.request(), WalkRequest::Finished { value: Some(HEAP + 0x10) });
    walk.supply(Some(HEAP + 0x20));
    assert_eq!(walk.request(), WalkRequest::Finished { value: Some(HEAP + 0x10) });
    walk.supply(None);
    assert_eq!(walk.request(), WalkRequest::Finished { value: Some(HEAP + 0x10) });
}

#[test]
fn null_pointer_is_absent() {
    assert_eq!(non_null(0), None);
    assert_eq!(non_null(1), Some(1));
    assert_eq!(non_null(HEAP), Some(HEAP));
    assert_eq!(non_null(u64::MAX), Some(u64::MAX));
}
