use executor::dedup::DedupSet;

#[test]
fn duplicate_key_is_accepted_once_per_window() {
    let mut window = DedupSet::new();
    assert!(window.accept(b"MINT1", b"CREATOR1"));
    assert!(!window.accept(b"MINT1", b"CREATOR1"));
    // A different creator for the same mint is a different key.
    assert!(window.accept(b"MINT1", b"CREATOR2"));
    assert!(window.accept(b"MINT2", b"CREATOR1"));
    assert!(!window.accept(b"MINT2", b"CREATOR1"));
}

#[test]
fn flush_opens_a_new_window() {
    let mut window = DedupSet::new();
    assert!(window.accept(b"MINT1", b"CREATOR1"));
    window.flush();
    assert!(window.accept(b"MINT1", b"CREATOR1"));
}

#[test]
fn contains_reflects_accepts() {
    let mut window = DedupSet::new();
    assert!(!window.contains(b"M", b"C"));
    window.accept(b"M", b"C");
    assert!(window.contains(b"M", b"C"));
    assert!(!window.contains(b"M", b"D"));
}
