use hkb_event_listener::pattern::{FunctionSignature, PatternByte};

fn exact(bytes: &[u8]) -> Vec<PatternByte> {
    bytes.iter().map(|b| PatternByte::Exact(*b)).collect()
}

#[test]
fn scan_returns_lowest_offset() {
    let sig = FunctionSignature::new(
        vec![PatternByte::Exact(0x48), PatternByte::Wildcard, PatternByte::Exact(0x05)],
        0,
    );
    let region = [0x00u8, 0x48, 0x11, 0x05, 0x48, 0x22, 0x05];
    assert_eq!(sig.scan(&region), Some(1));
}

#[test]
fn scan_first_of_several_candidates_wins() {
    let sig = FunctionSignature::new(exact(&[0xAA, 0xBB]), 0);
    let mut region = vec![0u8; 32];
    for at in [20usize, 3, 11] {
        region[at] = 0xAA;
        region[at + 1] = 0xBB;
    }
    assert_eq!(sig.scan(&region), Some(3));
}

#[test]
fn scan_finds_a_planted_window_at_every_position() {
    let sig = FunctionSignature::new(
        vec![
            PatternByte::Exact(0xE8),
            PatternByte::Wildcard,
            PatternByte::Wildcard,
            PatternByte::Exact(0x90),
        ],
        0,
    );
    for planted in 0..=12usize {
        let mut region = vec![0x11u8; 16];
        region[planted] = 0xE8;
        region[planted + 1] = 0x01;
        region[planted + 2] = 0x02;
        region[planted + 3] = 0x90;
        assert_eq!(sig.scan(&region), Some(planted));
    }
}

#[test]
fn scan_wildcard_matches_any_byte() {
    let sig = FunctionSignature::new(
        vec![PatternByte::Exact(1), PatternByte::Wildcard, PatternByte::Exact(3)],
        0,
    );
    for middle in [0u8, 2, 0x7F, 0xFF] {
        assert_eq!(sig.scan(&[9, 1, middle, 3]), Some(1));
    }
}

#[test]
fn scan_without_match_is_none() {
    let sig = FunctionSignature::new(exact(&[1, 2, 3]), 0);
    assert_eq!(sig.scan(&[1, 2, 4, 1, 2]), None);
    assert_eq!(sig.scan(&[]), None);
}

#[test]
fn scan_pattern_longer_than_region_is_none() {
    let sig = FunctionSignature::new(exact(&[1, 2, 3]), 0);
    assert_eq!(sig.scan(&[1, 2]), None);
}

#[test]
fn scan_finds_match_at_the_very_end() {
    let sig = FunctionSignature::new(exact(&[7, 8]), 0);
    assert_eq!(sig.scan(&[0, 0, 0, 7, 8]), Some(3));
}

#[test]
fn scan_whole_region_is_the_pattern() {
    let sig = FunctionSignature::new(exact(&[7, 8]), 0);
    assert_eq!(sig.scan(&[7, 8]), Some(0));
}

#[test]
fn scan_empty_pattern_matches_at_zero() {
    let sig = FunctionSignature::new(Vec::new(), 0);
    assert_eq!(sig.scan(&[5, 6]), Some(0));
    assert_eq!(sig.scan(&[]), Some(0));
}

#[test]
fn scan_all_wildcards_matches_at_zero() {
    let sig = FunctionSignature::new(vec![PatternByte::Wildcard; 3], 0);
    assert_eq!(sig.scan(&[5, 6, 7, 8]), Some(0));
    assert_eq!(sig.scan(&[5, 6]), None);
}

#[test]
fn scan_does_not_take_part_of_a_window_for_a_match() {
    let sig = FunctionSignature::new(exact(&[1, 1, 2]), 0);
    assert_eq!(sig.scan(&[1, 1, 1, 2]), Some(1));
}

#[test]
fn matches_at_checks_the_window() {
    let sig = FunctionSignature::new(
        vec![PatternByte::Exact(0x48), PatternByte::Wildcard],
        0,
    );
    let region = [0x48u8, 0x00, 0x48];
    assert!(sig.matches_at(&region, 0));
    assert!(!sig.matches_at(&region, 1));
    assert!(!sig.matches_at(&region, 2));
    assert!(!sig.matches_at(&region, 3));
    assert!(!sig.matches_at(&region, usize::MAX));
}

#[test]
fn pattern_byte_admits() {
    assert!(PatternByte::Exact(3).admits(3));
    assert!(!PatternByte::Exact(3).admits(4));
    assert!(PatternByte::Wildcard.admits(0));
    assert!(PatternByte::Wildcard.admits(255));
}

#[test]
fn signature_keeps_what_it_was_made_of() {
    let sig = FunctionSignature::new(exact(&[1, 2, 3]), -12);
    assert_eq!(sig.len(), 3);
    assert_eq!(sig.displacement, -12);
    assert_eq!(sig.pattern, exact(&[1, 2, 3]));
}
