use hkb_event_listener::memory::MemoryImage;
use hkb_event_listener::text::{decode_narrow, decode_wide, TextEncoding};
use hkb_event_listener::walker::DEFAULT_THRESHOLD;

const HEAP: u64 = 0x200_0000_0000;

fn put_word(bytes: &mut [u8], at: usize, word: u64) {
    bytes[at..at + 8].copy_from_slice(&word.to_le_bytes());
}

fn put_text(bytes: &mut [u8], at: usize, text: &str) {
    bytes[at..at + text.len()].copy_from_slice(text.as_bytes());
    bytes[at + text.len()] = 0;
}

fn put_wide(bytes: &mut [u8], at: usize, units: &[u16]) {
    for (i, unit) in units.iter().enumerate() {
        bytes[at + 2 * i..at + 2 * i + 2].copy_from_slice(&unit.to_le_bytes());
    }
    bytes[at + 2 * units.len()] = 0;
    bytes[at + 2 * units.len() + 1] = 0;
}

/// A behaviour context at the start of the image, its character at 0x100,
/// the name of the character at 0x200 behind the tagged pointer at 0x140.
fn character_image(name: &str, flag: u64) -> MemoryImage {
    let mut bytes = vec![0xAAu8; 0x400];
    put_word(&mut bytes, 0x000, HEAP + 0x100);
    put_word(&mut bytes, 0x140, (HEAP + 0x200) | flag);
    put_text(&mut bytes, 0x200, name);
    MemoryImage::new(HEAP, bytes)
}

#[test]
fn word_is_read_little_endian() {
    let image = MemoryImage::new(0x1000, vec![0x88, 0x77, 0x66, 0x55, 0x44, 0x33, 0x22, 0x11, 0xFF]);
    assert_eq!(image.read_word(0x1000), Some(0x1122_3344_5566_7788));
    assert_eq!(image.read_word(0x1001), Some(0xFF11_2233_4455_6677));
}

#[test]
fn word_of_all_ones_is_read() {
    let image = MemoryImage::new(0x1000, vec![0xFF; 8]);
    assert_eq!(image.read_word(0x1000), Some(u64::MAX));
}

#[test]
fn word_outside_the_image_is_absent() {
    let image = MemoryImage::new(0x1000, vec![0u8; 16]);
    assert_eq!(image.read_word(0xFFF), None);
    assert_eq!(image.read_word(0), None);
    assert_eq!(image.read_word(0x1008), Some(0));
    assert_eq!(image.read_word(0x1009), None);
    assert_eq!(image.read_word(0x1010), None);
    assert_eq!(image.read_word(u64::MAX), None);
}

#[test]
fn word_in_an_image_at_the_top_of_the_address_space() {
    let image = MemoryImage::new(u64::MAX - 7, vec![1, 0, 0, 0, 0, 0, 0, 0]);
    assert_eq!(image.read_word(u64::MAX - 7), Some(1));
    assert_eq!(image.read_word(u64::MAX - 6), None);
}

#[test]
fn bytes_are_read_up_to_the_terminator() {
    let image = MemoryImage::new(0x1000, b"ab\0cd\0".to_vec());
    assert_eq!(image.read_bytes(0x1000), Some(b"ab".to_vec()));
    assert_eq!(image.read_bytes(0x1001), Some(b"b".to_vec()));
    assert_eq!(image.read_bytes(0x1002), Some(Vec::new()));
    assert_eq!(image.read_bytes(0x1003), Some(b"cd".to_vec()));
}

#[test]
fn bytes_without_terminator_are_absent() {
    let image = MemoryImage::new(0x1000, b"ab\0cd".to_vec());
    assert_eq!(image.read_bytes(0x1003), None);
    assert_eq!(image.read_bytes(0x1005), None);
    assert_eq!(image.read_bytes(0x1006), None);
    assert_eq!(image.read_bytes(0xFFF), None);
}

#[test]
fn units_are_read_up_to_the_terminator() {
    let mut bytes = vec![0xAAu8; 16];
    put_wide(&mut bytes, 2, &[0x0063, 0x0100, 0x1234]);
    let image = MemoryImage::new(0x1000, bytes);
    assert_eq!(image.read_units(0x1002), Some(vec![0x0063, 0x0100, 0x1234]));
    assert_eq!(image.read_units(0x1006), Some(vec![0x1234]));
    assert_eq!(image.read_units(0x1008), Some(Vec::new()));
}

#[test]
fn units_need_a_whole_zero_unit() {
    // One zero byte is no terminator, and half a unit at the end is none either.
    let image = MemoryImage::new(0x1000, vec![0x41, 0x00, 0x00, 0x42, 0x00]);
    assert_eq!(image.read_units(0x1000), None);
    assert_eq!(image.read_units(0x1001), Some(Vec::new()));
    assert_eq!(image.read_units(0x1004), None);
    assert_eq!(image.read_units(0x1005), None);
    assert_eq!(image.read_units(0x1006), None);
}

#[test]
fn narrow_text_is_decoded() {
    assert_eq!(decode_narrow(b"c0000_1234"), Some("c0000_1234".to_string()));
    assert_eq!(decode_narrow(b""), Some(String::new()));
    assert_eq!(decode_narrow("gr\u{fc}n \u{1F600}".as_bytes()), Some("gr\u{fc}n \u{1F600}".to_string()));
}

#[test]
fn malformed_narrow_text_is_absent() {
    assert_eq!(decode_narrow(&[0x63, 0xFF, 0x30]), None);
    assert_eq!(decode_narrow(&[0xC3]), None);
    assert_eq!(decode_narrow(&[0xED, 0xA0, 0x80]), None);
}

#[test]
fn wide_text_is_decoded() {
    let units: Vec<u16> = "c0000_1".encode_utf16().collect();
    assert_eq!(decode_wide(&units), Some("c0000_1".to_string()));
    assert_eq!(decode_wide(&[0xD83D, 0xDE00]), Some("\u{1F600}".to_string()));
    assert_eq!(decode_wide(&[]), Some(String::new()));
}

#[test]
fn malformed_wide_text_is_absent() {
    assert_eq!(decode_wide(&[0xD83D]), None);
    assert_eq!(decode_wide(&[0xDE00, 0x0041]), None);
}

#[test]
fn text_is_read_in_either_encoding() {
    let mut bytes = vec![0xAAu8; 64];
    put_text(&mut bytes, 0, "Attack01");
    put_wide(&mut bytes, 32, &"W_Guard".encode_utf16().collect::<Vec<u16>>());
    let image = MemoryImage::new(HEAP, bytes);
    assert_eq!(image.read_text(HEAP, TextEncoding::Narrow), Some("Attack01".to_string()));
    assert_eq!(image.read_text(HEAP + 32, TextEncoding::Wide), Some("W_Guard".to_string()));
    assert_eq!(image.read_text(HEAP + 64, TextEncoding::Narrow), None);
    assert_eq!(image.read_text(HEAP - 1, TextEncoding::Wide), None);
}

#[test]
fn chain_is_followed_through_the_image() {
    let image = character_image("c0000_1", 0);
    assert_eq!(image.follow(HEAP, vec![0x0, 0x40], DEFAULT_THRESHOLD), Some(HEAP + 0x200));
    assert_eq!(image.follow(HEAP, vec![0x0], DEFAULT_THRESHOLD), Some(HEAP + 0x100));
    assert_eq!(image.follow(HEAP, Vec::new(), DEFAULT_THRESHOLD), Some(HEAP));
}

#[test]
fn chain_that_leaves_the_image_is_broken() {
    let image = character_image("c0000_1", 0);
    assert_eq!(image.follow(HEAP + 0x3F9, vec![0x0], DEFAULT_THRESHOLD), None);
    assert_eq!(image.follow(HEAP - 8, vec![0x0], DEFAULT_THRESHOLD), None);
}

#[test]
fn chain_through_a_zeroed_field_is_broken() {
    let mut bytes = vec![0u8; 0x400];
    put_word(&mut bytes, 0x000, HEAP + 0x100);
    let image = MemoryImage::new(HEAP, bytes);
    assert_eq!(image.follow(HEAP, vec![0x0, 0x40], DEFAULT_THRESHOLD), None);
    assert_eq!(
        image.recover_text(HEAP, vec![0x0, 0x40], DEFAULT_THRESHOLD, TextEncoding::Narrow),
        None
    );
}

#[test]
fn text_is_recovered_behind_a_pointer_with_its_flag_clear() {
    let image = character_image("c0000_1234", 0);
    assert_eq!(
        image.recover_text(HEAP, vec![0x0, 0x40], DEFAULT_THRESHOLD, TextEncoding::Narrow),
        Some("c0000_1234".to_string())
    );
}

#[test]
fn text_is_recovered_behind_a_pointer_with_its_flag_set() {
    let image = character_image("c4080_0001", 1);
    assert_eq!(image.follow(HEAP, vec![0x0, 0x40], DEFAULT_THRESHOLD), Some(HEAP + 0x201));
    assert_eq!(
        image.recover_text(HEAP, vec![0x0, 0x40], DEFAULT_THRESHOLD, TextEncoding::Narrow),
        Some("c4080_0001".to_string())
    );
}

#[test]
fn text_behind_an_implausible_pointer_is_absent() {
    // With a threshold above the image every link is implausible, though each is readable.
    let image = character_image("c0000_1", 0);
    assert_eq!(
        image.recover_text(HEAP, vec![0x0, 0x40], HEAP + 0x1000, TextEncoding::Narrow),
        None
    );
    // The lowest link decides: at the threshold it is followed, below it the chain is broken.
    assert_eq!(
        image.recover_text(HEAP, vec![0x0, 0x40], HEAP + 0x100, TextEncoding::Narrow),
        Some("c0000_1".to_string())
    );
    assert_eq!(
        image.recover_text(HEAP, vec![0x0, 0x40], HEAP + 0x101, TextEncoding::Narrow),
        None
    );
}

#[test]
fn text_behind_an_implausible_last_pointer_is_absent() {
    // The character lies above its name here, so a threshold between the two
    // lets the first link pass and rejects the tagged pointer.
    let mut bytes = vec![0xAAu8; 0x400];
    put_word(&mut bytes, 0x000, HEAP + 0x300);
    put_word(&mut bytes, 0x340, HEAP + 0x200);
    put_text(&mut bytes, 0x200, "c0000_1");
    let image = MemoryImage::new(HEAP, bytes);
    assert_eq!(
        image.recover_text(HEAP, vec![0x0, 0x40], HEAP + 0x200, TextEncoding::Narrow),
        Some("c0000_1".to_string())
    );
    assert_eq!(image.follow(HEAP, vec![0x0, 0x40], HEAP + 0x201), None);
    assert_eq!(
        image.recover_text(HEAP, vec![0x0, 0x40], HEAP + 0x201, TextEncoding::Narrow),
        None
    );
}
