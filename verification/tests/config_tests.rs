use hkb_event_listener::config::{Config, DEFAULT_PORT};

#[test]
fn defaults_are_as_documented() {
    let config = Config::defaults();
    assert_eq!(config.port, 27072);
    assert_eq!(config.chr, "c0000");
    assert!(!config.print);
    assert_eq!(DEFAULT_PORT, 27072);
}

#[test]
fn default_trait_gives_the_defaults() {
    let config = Config::default();
    assert_eq!(config.port, 27072);
    assert_eq!(config.chr, "c0000");
    assert!(!config.print);
}

#[test]
fn missing_document_gives_the_defaults() {
    let config = Config::or_defaults(None);
    assert_eq!(config.port, 27072);
    assert_eq!(config.chr, "c0000");
    assert!(!config.print);
}

#[test]
fn loaded_document_is_kept() {
    let loaded = Config { port: 4000, chr: String::new(), print: true };
    let config = Config::or_defaults(Some(loaded));
    assert_eq!(config.port, 4000);
    assert_eq!(config.chr, "");
    assert!(config.print);
}

#[test]
fn duplicate_copies_every_option() {
    let config = Config { port: 1, chr: "c4080".to_string(), print: true };
    let copy = config.duplicate();
    assert_eq!(copy.port, 1);
    assert_eq!(copy.chr, "c4080");
    assert!(copy.print);
}

#[test]
fn filter_uses_the_configured_prefix() {
    let config = Config::defaults();
    let filter = config.filter();
    assert_eq!(filter.prefix, "c0000");
    assert!(filter.includes("c0000_1234"));
    assert!(!filter.includes("c4080_0001"));
    let open = Config { port: 1, chr: String::new(), print: false }.filter();
    assert!(open.includes("c4080_0001"));
}
