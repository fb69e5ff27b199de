use billsplit::Address;
use billsplit::BillError;
use billsplit::BillSplitContract;
use billsplit::IdentityAuthenticator;
use billsplit::Notification;

fn addr(n: u64) -> Address {
    Address { id: n }
}

fn auth_for(ids: &[u64]) -> IdentityAuthenticator {
    let mut auth = IdentityAuthenticator::new();
    for &n in ids {
        auth.grant(addr(n));
    }
    auth
}

#[test]
fn pay_unknown_bill_fails() {
    let mut ledger = BillSplitContract::new();
    let auth = auth_for(&[1]);
    assert_eq!(ledger.pay_bill(&auth, 1, addr(1)), Err(BillError::BillNotFound));
    assert_eq!(ledger.pay_bill(&auth, 0, addr(1)), Err(BillError::BillNotFound));
    assert!(ledger.events.is_empty());
}

#[test]
fn pay_without_proven_payer_fails() {
    let mut ledger = BillSplitContract::new();
    let auth = auth_for(&[1]);
    let id = ledger.create_bill(&auth, addr(1), 10, vec![addr(1), addr(2)]).unwrap();
    let stranger_auth = auth_for(&[1]);
    assert_eq!(ledger.pay_bill(&stranger_auth, id, addr(2)), Err(BillError::Unauthorized));
    let bill = ledger.get_bill(id).unwrap();
    assert_eq!(bill.paid, vec![false, false]);
}

#[test]
fn pay_by_non_participant_fails() {
    let mut ledger = BillSplitContract::new();
    let auth = auth_for(&[1, 9]);
    let id = ledger.create_bill(&auth, addr(1), 10, vec![addr(1), addr(2)]).unwrap();
    assert_eq!(ledger.pay_bill(&auth, id, addr(9)), Err(BillError::NotParticipant));
    let bill = ledger.get_bill(id).unwrap();
    assert_eq!(bill.paid, vec![false, false]);
    assert!(!bill.settled);
}

#[test]
fn pay_succeeds_once_then_already_paid() {
    let mut ledger = BillSplitContract::new();
    let auth = auth_for(&[1, 2]);
    let id = ledger.create_bill(&auth, addr(1), 10, vec![addr(1), addr(2)]).unwrap();
    assert_eq!(ledger.pay_bill(&auth, id, addr(2)), Ok(()));
    let bill = ledger.get_bill(id).unwrap();
    assert_eq!(bill.paid, vec![false, true]);
    assert!(!bill.settled);
    assert_eq!(ledger.pay_bill(&auth, id, addr(2)), Err(BillError::AlreadyPaid));
    let bill = ledger.get_bill(id).unwrap();
    assert_eq!(bill.paid, vec![false, true]);
}

#[test]
fn settles_exactly_on_last_payment() {
    let mut ledger = BillSplitContract::new();
    let auth = auth_for(&[1, 2, 3]);
    let id = ledger
        .create_bill(&auth, addr(1), 90, vec![addr(1), addr(2), addr(3)])
        .unwrap();
    ledger.pay_bill(&auth, id, addr(1)).unwrap();
    assert!(!ledger.get_bill(id).unwrap().settled);
    ledger.pay_bill(&auth, id, addr(2)).unwrap();
    assert!(!ledger.get_bill(id).unwrap().settled);
    ledger.pay_bill(&auth, id, addr(3)).unwrap();
    let bill = ledger.get_bill(id).unwrap();
    assert!(bill.settled);
    assert_eq!(bill.paid, vec![true, true, true]);
}

#[test]
fn single_participant_bill_settles_on_first_payment() {
    let mut ledger = BillSplitContract::new();
    let auth = auth_for(&[1, 2]);
    let id = ledger.create_bill(&auth, addr(1), 10, vec![addr(2)]).unwrap();
    assert_eq!(ledger.pay_bill(&auth, id, addr(2)), Ok(()));
    assert!(ledger.get_bill(id).unwrap().settled);
    assert_eq!(ledger.pay_bill(&auth, id, addr(2)), Err(BillError::AlreadySettled));
}

#[test]
fn settled_bill_rejects_everyone() {
    let mut ledger = BillSplitContract::new();
    let auth = auth_for(&[1, 2, 9]);
    let id = ledger.create_bill(&auth, addr(1), 10, vec![addr(1), addr(2)]).unwrap();
    ledger.pay_bill(&auth, id, addr(1)).unwrap();
    ledger.pay_bill(&auth, id, addr(2)).unwrap();
    assert!(ledger.get_bill(id).unwrap().settled);
    assert_eq!(ledger.pay_bill(&auth, id, addr(1)), Err(BillError::AlreadySettled));
    assert_eq!(ledger.pay_bill(&auth, id, addr(9)), Err(BillError::AlreadySettled));
    let bill = ledger.get_bill(id).unwrap();
    assert!(bill.settled);
    assert_eq!(bill.paid, vec![true, true]);
}

#[test]
fn payment_emits_notifications_in_order() {
    let mut ledger = BillSplitContract::new();
    let auth = auth_for(&[1, 2]);
    let id = ledger.create_bill(&auth, addr(1), 10, vec![addr(1), addr(2)]).unwrap();
    ledger.pay_bill(&auth, id, addr(1)).unwrap();
    ledger.pay_bill(&auth, id, addr(2)).unwrap();
    assert_eq!(
        ledger.events,
        vec![
            Notification::BillCreated { id, total: 10 },
            Notification::BillPaid { id, payer: addr(1) },
            Notification::BillSettled { id },
            Notification::BillPaid { id, payer: addr(2) },
        ]
    );
}

#[test]
fn rejected_payment_emits_nothing() {
    let mut ledger = BillSplitContract::new();
    let auth = auth_for(&[1, 9]);
    let id = ledger.create_bill(&auth, addr(1), 10, vec![addr(1), addr(2)]).unwrap();
    let emitted = ledger.events.len();
    let _ = ledger.pay_bill(&auth, id, addr(9));
    let _ = ledger.pay_bill(&auth, 77, addr(1));
    assert_eq!(ledger.events.len(), emitted);
}

#[test]
fn participant_accessors_follow_the_flags() {
    let mut ledger = BillSplitContract::new();
    let auth = auth_for(&[1, 2]);
    let id = ledger.create_bill(&auth, addr(1), 10, vec![addr(1), addr(2)]).unwrap();
    ledger.pay_bill(&auth, id, addr(2)).unwrap();
    let bill = ledger.get_bill(id).unwrap();
    assert!(bill.is_participant(addr(1)));
    assert!(bill.is_participant(addr(2)));
    assert!(!bill.is_participant(addr(9)));
    assert!(!bill.has_paid(addr(1)));
    assert!(bill.has_paid(addr(2)));
    assert!(!bill.has_paid(addr(9)));
}

#[test]
fn full_lifecycle_scenario() {
    let mut ledger = BillSplitContract::new();
    let auth = auth_for(&[1, 2, 3]);
    let a = addr(1);
    let b = addr(2);
    let c = addr(3);

    let id = ledger.create_bill(&auth, a, 90, vec![a, b, c]).unwrap();
    assert_eq!(id, 1);
    let bill = ledger.get_bill(id).unwrap();
    assert_eq!(bill.share, 30);
    assert_eq!(bill.paid, vec![false, false, false]);
    assert!(!bill.settled);

    assert_eq!(ledger.pay_bill(&auth, id, a), Ok(()));
    let bill = ledger.get_bill(id).unwrap();
    assert_eq!(bill.paid, vec![true, false, false]);
    assert!(!bill.settled);

    assert_eq!(ledger.pay_bill(&auth, id, b), Ok(()));
    assert!(!ledger.get_bill(id).unwrap().settled);

    assert_eq!(ledger.pay_bill(&auth, id, c), Ok(()));
    assert!(ledger.get_bill(id).unwrap().settled);
    assert!(ledger.events.contains(&Notification::BillSettled { id }));

    assert_eq!(ledger.pay_bill(&auth, id, a), Err(BillError::AlreadySettled));
}
