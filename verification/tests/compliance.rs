use executor::compliance::{ComplianceError, Denylist};

#[test]
fn sanction_list_blocks() {
    let deny = Denylist::parse(b"BAD1,BAD2");
    assert!(deny.is_sanctioned(b"BAD1"));
    assert!(!deny.is_sanctioned(b"GOOD"));
}

#[test]
fn denylist_trims_and_drops_empty_pieces() {
    let deny = Denylist::parse(b" BAD1 , ,BAD2,");
    assert!(deny.is_sanctioned(b"BAD1"));
    assert!(deny.is_sanctioned(b"BAD2"));
    assert!(!deny.is_sanctioned(b""));
    assert!(!deny.is_sanctioned(b" "));
}

#[test]
fn empty_denylist_blocks_nothing() {
    let deny = Denylist::new();
    assert!(!deny.is_sanctioned(b"ANY"));
}

#[test]
fn ofac_check_errs_exactly_on_listed() {
    let deny = Denylist::parse(b"BAD1,BAD2");
    assert_eq!(deny.check_ofac_sanctions(b"BAD2"), Err(ComplianceError::Sanctioned));
    assert_eq!(deny.check_ofac_sanctions(b"GOOD"), Ok(()));
}
