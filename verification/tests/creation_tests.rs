use billsplit::Address;
use billsplit::BillError;
use billsplit::BillSplitContract;
use billsplit::DataKey;
use billsplit::IdentityAuthenticator;
use billsplit::Notification;

fn addr(n: u64) -> Address {
    Address { id: n }
}

fn auth_for(ids: &[u64]) -> IdentityAuthenticator {
    let mut auth = IdentityAuthenticator::new();
    for &n in ids {
        auth.grant(addr(n));
    }
    auth
}

#[test]
fn create_assigns_strictly_increasing_ids() {
    let mut ledger = BillSplitContract::new();
    let auth = auth_for(&[1]);
    let first = ledger.create_bill(&auth, addr(1), 10, vec![addr(1), addr(2)]);
    let second = ledger.create_bill(&auth, addr(1), 20, vec![addr(3)]);
    let third = ledger.create_bill(&auth, addr(1), 30, vec![addr(1)]);
    assert_eq!(first, Ok(1));
    assert_eq!(second, Ok(2));
    assert_eq!(third, Ok(3));
}

#[test]
fn create_with_empty_participants_fails() {
    let mut ledger = BillSplitContract::new();
    let auth = auth_for(&[1]);
    let r = ledger.create_bill(&auth, addr(1), 100, vec![]);
    assert_eq!(r, Err(BillError::InvalidParticipants));
    assert_eq!(ledger.bill_count(), 0);
    assert!(ledger.events.is_empty());
}

#[test]
fn create_with_zero_total_fails() {
    let mut ledger = BillSplitContract::new();
    let auth = auth_for(&[1]);
    let r = ledger.create_bill(&auth, addr(1), 0, vec![addr(1), addr(2)]);
    assert_eq!(r, Err(BillError::InvalidAmount));
    assert_eq!(ledger.bill_count(), 0);
}

#[test]
fn create_with_negative_total_fails() {
    let mut ledger = BillSplitContract::new();
    let auth = auth_for(&[1]);
    let r = ledger.create_bill(&auth, addr(1), -5, vec![addr(1), addr(2)]);
    assert_eq!(r, Err(BillError::InvalidAmount));
}

#[test]
fn create_with_duplicate_participant_fails() {
    let mut ledger = BillSplitContract::new();
    let auth = auth_for(&[1]);
    let r = ledger.create_bill(&auth, addr(1), 100, vec![addr(2), addr(3), addr(2)]);
    assert_eq!(r, Err(BillError::DuplicateParticipant));
    assert_eq!(ledger.bill_count(), 0);
    assert!(ledger.events.is_empty());
}

#[test]
fn create_without_proven_creator_fails() {
    let mut ledger = BillSplitContract::new();
    let auth = auth_for(&[2]);
    let r = ledger.create_bill(&auth, addr(1), 100, vec![addr(1), addr(2)]);
    assert_eq!(r, Err(BillError::Unauthorized));
    assert_eq!(ledger.bill_count(), 0);
}

#[test]
fn empty_list_beats_bad_total() {
    let mut ledger = BillSplitContract::new();
    let auth = auth_for(&[1]);
    let r = ledger.create_bill(&auth, addr(1), -1, vec![]);
    assert_eq!(r, Err(BillError::InvalidParticipants));
}

#[test]
fn share_is_truncating_quotient() {
    let mut ledger = BillSplitContract::new();
    let auth = auth_for(&[1]);
    let id = ledger
        .create_bill(&auth, addr(1), 100, vec![addr(1), addr(2), addr(3)])
        .unwrap();
    let bill = ledger.get_bill(id).unwrap();
    assert_eq!(bill.share, 33);
    assert_eq!(bill.total, 100);
}

#[test]
fn share_of_single_participant_is_the_total() {
    let mut ledger = BillSplitContract::new();
    let auth = auth_for(&[7]);
    let id = ledger.create_bill(&auth, addr(7), 41, vec![addr(9)]).unwrap();
    let bill = ledger.get_bill(id).unwrap();
    assert_eq!(bill.share, 41);
}

#[test]
fn get_bill_returns_what_was_supplied() {
    let mut ledger = BillSplitContract::new();
    let auth = auth_for(&[5]);
    let participants = vec![addr(5), addr(6), addr(8)];
    let id = ledger
        .create_bill(&auth, addr(5), 90, participants.clone())
        .unwrap();
    let bill = ledger.get_bill(id).unwrap();
    assert_eq!(bill.creator, addr(5));
    assert_eq!(bill.total, 90);
    assert_eq!(bill.participants, participants);
    assert_eq!(bill.paid, vec![false, false, false]);
    assert!(!bill.settled);
}

#[test]
fn get_bill_with_unknown_id_fails() {
    let ledger = BillSplitContract::new();
    assert!(matches!(ledger.get_bill(1), Err(BillError::BillNotFound)));
    assert!(matches!(ledger.get_bill(0), Err(BillError::BillNotFound)));
}

#[test]
fn creation_emits_one_notification() {
    let mut ledger = BillSplitContract::new();
    let auth = auth_for(&[1]);
    let id = ledger.create_bill(&auth, addr(1), 60, vec![addr(1), addr(2)]).unwrap();
    assert_eq!(ledger.events, vec![Notification::BillCreated { id, total: 60 }]);
}

#[test]
fn store_entries_appear_with_the_first_bill() {
    let mut ledger = BillSplitContract::new();
    assert!(!ledger.has_entry(&DataKey::BillCounter));
    assert!(!ledger.has_entry(&DataKey::Bill(1)));
    let auth = auth_for(&[1]);
    ledger.create_bill(&auth, addr(1), 10, vec![addr(2)]).unwrap();
    assert!(ledger.has_entry(&DataKey::BillCounter));
    assert!(ledger.has_entry(&DataKey::Bill(1)));
    assert!(!ledger.has_entry(&DataKey::Bill(2)));
}
