use vstd::prelude::*;

use crate::bill::Address;
use crate::bill::all_true;
use crate::bill::fresh_bill;
use crate::bill::lemma_index_of_unique;
use crate::bill::lemma_index_of_valid;
use crate::errors::BillError;
use crate::ledger::LedgerModel;
use crate::ledger::create_check;
use crate::ledger::create_next;
use crate::ledger::create_result;

verus! {

/// A creation with a proven creator, a non-empty duplicate-free participant
/// list and a positive total always succeeds, and the id it assigns is
/// strictly greater than the id of every bill created before it.
pub proof fn lemma_create_succeeds_with_fresh_id(
    pre: LedgerModel,
    creator: Address,
    total: i128,
    participants: Seq<Address>,
)
    requires
        pre.counter() < u32::MAX,
        participants.len() > 0,
        participants.no_duplicates(),
        total > 0,
    ensures
        create_result(pre, true, total, participants) == Ok::<u32, BillError>(
            (pre.counter() + 1) as u32,
        ),
        forall|id: u32| pre.has_bill(id) ==> id < (pre.counter() + 1) as u32,
        create_next(pre, true, creator, total, participants).has_bill((pre.counter() + 1) as u32),
{
}

/// An invalid creation fails with the error of the first violated check
/// (identity first, then an empty list, then a non-positive total, then a
/// duplicate) and leaves the ledger unchanged.
pub proof fn lemma_create_rejects_invalid(
    pre: LedgerModel,
    authed: bool,
    creator: Address,
    total: i128,
    participants: Seq<Address>,
)
    ensures
        !authed ==> create_result(pre, authed, total, participants) == Err::<u32, BillError>(
            BillError::Unauthorized,
        ),
        authed && participants.len() == 0 ==> create_result(pre, authed, total, participants)
            == Err::<u32, BillError>(BillError::InvalidParticipants),
        authed && participants.len() > 0 && total <= 0 ==> create_result(
            pre,
            authed,
            total,
            participants,
        ) == Err::<u32, BillError>(BillError::InvalidAmount),
        authed && participants.len() > 0 && total > 0 && !participants.no_duplicates()
            ==> create_result(pre, authed, total, participants) == Err::<u32, BillError>(
            BillError::DuplicateParticipant,
        ),
        create_check(authed, total, participants) is Err ==> create_next(
            pre,
            authed,
            creator,
            total,
            participants,
        ) == pre,
{
}

/// The share of a fresh bill is exactly the truncating quotient of the total
/// by the participant count, and the shares together never exceed the total.
pub proof fn lemma_share_exact(creator: Address, total: i128, participants: Seq<Address>)
    requires
        total > 0,
        participants.len() > 0,
    ensures
        fresh_bill(creator, total, participants).share == total as int
            / participants.len() as int,
        fresh_bill(creator, total, participants).share * participants.len() <= total,
{
    let d = participants.len() as int;
    vstd::arithmetic::div_mod::lemma_remainder(total as int, d);
}

/// A payment against an id the ledger does not know always fails with
/// `BillNotFound` and changes nothing.
pub proof fn lemma_pay_unknown_bill(pre: LedgerModel, authed: bool, bill_id: u32, payer: Address)
    requires
        authed,
        !pre.has_bill(bill_id),
    ensures
        pre.pay_check(authed, bill_id, payer) == Err::<(), BillError>(BillError::BillNotFound),
        pre.pay_next(authed, bill_id, payer) == pre,
{
}

/// On a freshly created bill: a non-participant's payment is rejected with
/// `NotParticipant`; a participant's first payment is accepted; and a second
/// payment by the same participant is rejected - with `AlreadyPaid` while
/// other participants still owe, and with `AlreadySettled` when the payer was
/// the only participant, since the first payment then settled the bill.
pub proof fn lemma_pay_fresh_bill(
    pre: LedgerModel,
    creator: Address,
    total: i128,
    participants: Seq<Address>,
    payer: Address,
)
    requires
        pre.wf(),
        pre.counter() < u32::MAX,
        participants.len() > 0,
        participants.no_duplicates(),
        total > 0,
    ensures
        ({
            let post = create_next(pre, true, creator, total, participants);
            let id = (pre.counter() + 1) as u32;
            &&& (!participants.contains(payer) ==> post.pay_check(true, id, payer) == Err::<
                (),
                BillError,
            >(BillError::NotParticipant))
            &&& (participants.contains(payer) ==> post.pay_check(true, id, payer) == Ok::<
                (),
                BillError,
            >(()))
            &&& (participants.contains(payer) && participants.len() > 1 ==> post.pay_next(
                true,
                id,
                payer,
            ).pay_check(true, id, payer) == Err::<(), BillError>(BillError::AlreadyPaid))
            &&& (participants.contains(payer) && participants.len() == 1 ==> post.pay_next(
                true,
                id,
                payer,
            ).pay_check(true, id, payer) == Err::<(), BillError>(BillError::AlreadySettled))
        }),
{
    let post = create_next(pre, true, creator, total, participants);
    let id = (pre.counter() + 1) as u32;
    let b = fresh_bill(creator, total, participants);
    assert(post.bill(id) == b);
    assert(!all_true(b.paid)) by {
        assert(!b.paid[0]);
    }
    if participants.contains(payer) {
        lemma_index_of_valid(participants, payer);
        let k = participants.index_of(payer);
        assert(!b.paid_of(payer));
        assert(post.pay_check(true, id, payer) == Ok::<(), BillError>(()));

        let post2 = post.pay_next(true, id, payer);
        let b2 = b.record_payment(payer);
        assert(post2.bill(id) == b2);
        assert(b2.paid == b.paid.update(k, true));
        assert(b2.is_participant(payer));
        if participants.len() == 1 {
            assert(all_true(b2.paid)) by {
                assert(k == 0);
                assert(b2.paid[0]);
            }
            assert(b2.settled);
            assert(post2.pay_check(true, id, payer) == Err::<(), BillError>(
                BillError::AlreadySettled,
            ));
        }
        if participants.len() > 1 {
            let j: int = if k == 0 {
                1
            } else {
                0
            };
            assert(!b2.paid[j]);
            assert(!b2.settled);
            assert(b2.paid_of(payer)) by {
                assert(b2.participants.index_of(payer) == k);
            }
            assert(post2.pay_check(true, id, payer) == Err::<(), BillError>(
                BillError::AlreadyPaid,
            ));
        }
    }
}

/// A well-formed bill is settled exactly when every one of its participants
/// has its share recorded as paid.
pub proof fn lemma_settled_iff_all_paid(m: LedgerModel, id: u32)
    requires
        m.wf(),
        m.has_bill(id),
    ensures
        m.bill(id).settled <==> (forall|q: Address|
            m.bill(id).is_participant(q) ==> m.bill(id).paid_of(q)),
{
    let b = m.bill(id);
    assert(b.wf());
    if b.settled {
        assert forall|q: Address| b.is_participant(q) implies b.paid_of(q) by {
            lemma_index_of_valid(b.participants, q);
        }
    }
    if forall|q: Address| b.is_participant(q) ==> b.paid_of(q) {
        assert forall|i: int| 0 <= i < b.paid.len() implies b.paid[i] by {
            let q = b.participants[i];
            assert(b.participants.contains(q));
            assert(b.is_participant(q));
            lemma_index_of_unique(b.participants, q, i);
            assert(b.paid_of(q) == b.paid[i]);
        }
        assert(b.all_paid());
    }
}

/// An accepted payment settles the bill exactly when the payer was the last
/// participant still owing: never earlier, never later. The bill was
/// necessarily unsettled before.
pub proof fn lemma_settles_exactly_on_last_outstanding_payment(
    pre: LedgerModel,
    id: u32,
    payer: Address,
)
    requires
        pre.wf(),
        pre.pay_check(true, id, payer) is Ok,
    ensures
        ({
            let post = pre.pay_next(true, id, payer);
            &&& !pre.bill(id).settled
            &&& post.bill(id).settled <==> (forall|q: Address|
                pre.bill(id).is_participant(q) && q != payer ==> pre.bill(id).paid_of(q))
        }),
{
    let b = pre.bill(id);
    let post = pre.pay_next(true, id, payer);
    let b2 = b.record_payment(payer);
    assert(b.wf());
    assert(b.is_participant(payer));
    lemma_index_of_valid(b.participants, payer);
    let k = b.participants.index_of(payer);
    assert(post.bill(id) == b2);
    assert(b2.settled == all_true(b2.paid));

    if b2.settled {
        assert forall|q: Address| b.is_participant(q) && q != payer implies b.paid_of(q) by {
            lemma_index_of_valid(b.participants, q);
            let i = b.participants.index_of(q);
            assert(i != k) by {
                if i == k {
                    assert(b.participants[i] == payer);
                }
            }
            assert(b2.paid[i]);
            assert(b.paid[i] == b2.paid[i]);
        }
    }
    if forall|q: Address| b.is_participant(q) && q != payer ==> b.paid_of(q) {
        assert forall|i: int| 0 <= i < b2.paid.len() implies b2.paid[i] by {
            if i != k {
                let q = b.participants[i];
                assert(b.participants.contains(q));
                lemma_index_of_unique(b.participants, q, i);
                assert(q != payer) by {
                    if q == payer {
                        assert(b.participants.index_of(payer) == i);
                    }
                }
                assert(b.paid_of(q));
                assert(b2.paid[i] == b.paid[i]);
            }
        }
        assert(all_true(b2.paid));
    }
}

/// A settled bill is terminal: every further payment attempt against it is
/// rejected with `AlreadySettled`, and the ledger is left unchanged.
pub proof fn lemma_settled_is_terminal(pre: LedgerModel, authed: bool, id: u32, payer: Address)
    requires
        authed,
        pre.has_bill(id),
        pre.bill(id).settled,
    ensures
        pre.pay_check(authed, id, payer) == Err::<(), BillError>(BillError::AlreadySettled),
        pre.pay_next(authed, id, payer) == pre,
{
}

/// No operation unsettles a bill: a settled bill stays settled, with the same
/// id, across any further payment attempt and any further creation.
pub proof fn lemma_settlement_monotonic(
    pre: LedgerModel,
    id: u32,
    authed: bool,
    other_id: u32,
    other_payer: Address,
    creator: Address,
    total: i128,
    participants: Seq<Address>,
)
    requires
        pre.wf(),
        pre.has_bill(id),
        pre.bill(id).settled,
    ensures
        ({
            let after_pay = pre.pay_next(authed, other_id, other_payer);
            &&& after_pay.has_bill(id)
            &&& after_pay.bill(id).settled
        }),
        ({
            let after_create = create_next(pre, authed, creator, total, participants);
            &&& after_create.has_bill(id)
            &&& after_create.bill(id).settled
        }),
{
    if pre.pay_check(authed, other_id, other_payer) is Ok {
        assert(other_id != id);
        assert(pre.pay_next(authed, other_id, other_payer).bill(id) == pre.bill(id));
    }
}

/// A bill, once created, is preserved untouched by every later creation.
pub proof fn lemma_create_preserves_existing_bills(
    pre: LedgerModel,
    authed: bool,
    creator: Address,
    total: i128,
    participants: Seq<Address>,
    id: u32,
)
    requires
        pre.has_bill(id),
    ensures
        create_next(pre, authed, creator, total, participants).has_bill(id),
        create_next(pre, authed, creator, total, participants).bill(id) == pre.bill(id),
{
}

/// The bill a successful creation registers carries exactly the supplied
/// creator, total and participant list, with every flag clear and the bill
/// unsettled.
pub proof fn lemma_created_bill_fields(
    pre: LedgerModel,
    creator: Address,
    total: i128,
    participants: Seq<Address>,
)
    requires
        pre.counter() < u32::MAX,
        create_check(true, total, participants) is Ok,
    ensures
        ({
            let post = create_next(pre, true, creator, total, participants);
            let id = (pre.counter() + 1) as u32;
            &&& post.has_bill(id)
            &&& post.bill(id).creator == creator
            &&& post.bill(id).total == total as int
            &&& post.bill(id).participants == participants
            &&& post.bill(id).settled == false
            &&& forall|q: Address|
                post.bill(id).is_participant(q) ==> !post.bill(id).paid_of(q)
        }),
{
    let post = create_next(pre, true, creator, total, participants);
    let id = (pre.counter() + 1) as u32;
    let b = fresh_bill(creator, total, participants);
    assert(post.bill(id) == b);
    assert forall|q: Address| b.is_participant(q) implies !b.paid_of(q) by {
        lemma_index_of_valid(b.participants, q);
    }
}

} // verus!
