use vstd::prelude::*;

use crate::auth::IdentityAuthenticator;
use crate::bill::Address;
use crate::bill::Bill;
use crate::bill::BillModel;
use crate::bill::all_flags_true;
use crate::bill::all_true;
use crate::bill::copy_addresses;
use crate::bill::copy_flags;
use crate::bill::find_index;
use crate::bill::fresh_bill;
use crate::bill::has_duplicate;
use crate::bill::lemma_index_of_unique;
use crate::bill::set_flag;
use crate::errors::BillError;

verus! {

/// The key under which the ledger keeps one of its records: a bill by id, or
/// the counter holding the last assigned id.
#[derive(Clone, Copy, PartialEq, Eq, Debug)]
pub enum DataKey {
    /// The bill with the given id.
    Bill(u32),
    /// The counter of assigned bill ids.
    BillCounter,
}

/// A lifecycle notification, as handed to observers. Notifications are
/// best-effort signals; no rule of the ledger reads them back.
#[derive(Clone, Copy, PartialEq, Eq, Debug)]
pub enum Notification {
    /// A bill was registered, with its total.
    BillCreated { id: u32, total: i128 },
    /// A participant's share of the bill was recorded as paid.
    BillPaid { id: u32, payer: Address },
    /// The payment completing the bill was recorded; the bill is settled.
    BillSettled { id: u32 },
}

/// Mathematical model of the whole ledger: the bills in order of creation
/// (the bill with id `i + 1` at position `i`) and the notifications emitted
/// so far, oldest first.
#[verifier::ext_equal]
pub struct LedgerModel {
    pub bills: Seq<BillModel>,
    pub events: Seq<Notification>,
}

impl LedgerModel {
    /// The last assigned bill id; zero when nothing was created yet.
    pub open spec fn counter(self) -> int {
        self.bills.len() as int
    }

    /// Whether `id` names a bill of the ledger.
    pub open spec fn has_bill(self, id: u32) -> bool {
        1 <= id && id <= self.bills.len()
    }

    /// The bill with the given id.
    pub open spec fn bill(self, id: u32) -> BillModel {
        self.bills[id - 1]
    }

    /// Every bill of the ledger is well-formed.
    pub open spec fn wf(self) -> bool {
        forall|i: int| 0 <= i < self.bills.len() ==> (#[trigger] self.bills[i]).wf()
    }

    /// Whether the ledger holds a record under the given key. The counter
    /// record appears with the first creation and never leaves.
    pub open spec fn has_entry(self, key: DataKey) -> bool {
        match key {
            DataKey::Bill(id) => self.has_bill(id),
            DataKey::BillCounter => self.counter() > 0,
        }
    }

    /// The validation verdict of a payment, checks in order: the payer's
    /// identity, the bill's existence, its settlement state, the payer's
    /// membership, the payer's flag.
    pub open spec fn pay_check(self, authed: bool, bill_id: u32, payer: Address) -> Result<
        (),
        BillError,
    > {
        if !authed {
            Err(BillError::Unauthorized)
        } else if !self.has_bill(bill_id) {
            Err(BillError::BillNotFound)
        } else if self.bill(bill_id).settled {
            Err(BillError::AlreadySettled)
        } else if !self.bill(bill_id).is_participant(payer) {
            Err(BillError::NotParticipant)
        } else if self.bill(bill_id).paid_of(payer) {
            Err(BillError::AlreadyPaid)
        } else {
            Ok(())
        }
    }

    /// The ledger after a payment attempt: on a rejected attempt nothing
    /// changes; on a recorded payment the bill is rewritten with the payer's
    /// flag set, a settlement notification goes out exactly when that payment
    /// completed the bill, and a payment notification always follows.
    pub open spec fn pay_next(self, authed: bool, bill_id: u32, payer: Address) -> LedgerModel {
        match self.pay_check(authed, bill_id, payer) {
            Ok(()) => {
                let b2 = self.bill(bill_id).record_payment(payer);
                let evs = if b2.settled {
                    self.events.push(Notification::BillSettled { id: bill_id })
                } else {
                    self.events
                };
                LedgerModel {
                    bills: self.bills.update(bill_id - 1, b2),
                    events: evs.push(Notification::BillPaid { id: bill_id, payer }),
                }
            },
            Err(_) => self,
        }
    }
}

/// The validation verdict of a creation, checks in order: the creator's
/// identity, a non-empty participant list, a positive total, no duplicate
/// participant.
pub open spec fn create_check(authed: bool, total: i128, participants: Seq<Address>) -> Result<
    (),
    BillError,
> {
    if !authed {
        Err(BillError::Unauthorized)
    } else if participants.len() == 0 {
        Err(BillError::InvalidParticipants)
    } else if total <= 0 {
        Err(BillError::InvalidAmount)
    } else if !participants.no_duplicates() {
        Err(BillError::DuplicateParticipant)
    } else {
        Ok(())
    }
}

/// What a creation attempt returns: the freshly assigned id, one above the
/// counter, or the verdict's error.
pub open spec fn create_result(
    pre: LedgerModel,
    authed: bool,
    total: i128,
    participants: Seq<Address>,
) -> Result<u32, BillError> {
    match create_check(authed, total, participants) {
        Ok(()) => Ok((pre.counter() + 1) as u32),
        Err(e) => Err(e),
    }
}

/// The ledger after a creation attempt: on a rejected attempt nothing
/// changes; otherwise the fresh bill is appended under the new id and a
/// creation notification goes out.
pub open spec fn create_next(
    pre: LedgerModel,
    authed: bool,
    creator: Address,
    total: i128,
    participants: Seq<Address>,
) -> LedgerModel {
    match create_check(authed, total, participants) {
        Ok(()) => LedgerModel {
            bills: pre.bills.push(fresh_bill(creator, total, participants)),
            events: pre.events.push(
                Notification::BillCreated { id: (pre.counter() + 1) as u32, total },
            ),
        },
        Err(_) => pre,
    }
}

/// The bill ledger. It exclusively owns every bill record, the id counter and
/// the emitted notifications; each operation is one atomic read-modify-write
/// of that state, and a rejected operation changes nothing.
pub struct BillSplitContract {
    /// The bills in order of creation; the bill with id `i + 1` at position `i`.
    pub bills: Vec<Bill>,
    /// The last assigned bill id.
    pub counter: u32,
    /// The notifications emitted so far, oldest first.
    pub events: Vec<Notification>,
}

impl View for BillSplitContract {
    type V = LedgerModel;

    open spec fn view(&self) -> LedgerModel {
        LedgerModel {
            bills: Seq::new(self.bills@.len(), |i: int| self.bills@[i]@),
            events: self.events@,
        }
    }
}

impl BillSplitContract {
    /// Well-formedness: the counter equals the number of bills ever created,
    /// and every bill record is well-formed.
    pub open spec fn wf(self) -> bool {
        &&& self.counter == self@.counter()
        &&& self@.wf()
    }

    /// An empty ledger: no bills, counter at zero, nothing emitted.
    pub fn new() -> (r: Self)
        ensures
            r.wf(),
            r@.bills == Seq::<BillModel>::empty(),
            r@.events == Seq::<Notification>::empty(),
            r@.counter() == 0,
    {
        let r = BillSplitContract { bills: Vec::new(), counter: 0, events: Vec::new() };
        proof {
            assert(r@.bills =~= Seq::<BillModel>::empty());
        }
        r
    }

    /// Registers a bill: validates the creator's identity and the inputs,
    /// splits the total evenly by truncating division, assigns the next id,
    /// appends the record and emits the creation notification. On any
    /// rejection the ledger is left unchanged.
    pub fn create_bill(
        &mut self,
        auth: &IdentityAuthenticator,
        creator: Address,
        total: i128,
        participants: Vec<Address>,
    ) -> (r: Result<u32, BillError>)
        requires
            old(self).wf(),
            old(self)@.counter() < u32::MAX,
        ensures
            final(self).wf(),
            r == create_result(old(self)@, auth.proves(creator), total, participants@),
            final(self)@ == create_next(
                old(self)@,
                auth.proves(creator),
                creator,
                total,
                participants@,
            ),
    {
        if !auth.require(creator) {
            return Err(BillError::Unauthorized);
        }
        if participants.len() == 0 {
            return Err(BillError::InvalidParticipants);
        }
        if total <= 0 {
            return Err(BillError::InvalidAmount);
        }
        if has_duplicate(&participants) {
            return Err(BillError::DuplicateParticipant);
        }

        let n = participants.len();
        let share = total / (n as i128);

        let mut paid: Vec<bool> = Vec::new();
        let mut i: usize = 0;
        while i < n
            invariant
                i <= n,
                paid@.len() == i,
                forall|k: int| 0 <= k < i ==> !paid@[k],
            decreases n - i,
        {
            paid.push(false);
            i = i + 1;
        }

        let ghost pre = self@;
        let ghost ps = participants@;
        let id = self.counter + 1;
        let bill = Bill { creator, total, share, participants, paid, settled: false };
        proof {
            assert(bill@.paid =~= Seq::new(ps.len(), |i: int| false));
            assert(!all_true(bill@.paid)) by {
                assert(!bill@.paid[0]);
            }
            assert(bill@ =~= fresh_bill(creator, total, ps));
        }
        self.bills.push(bill);
        self.counter = id;
        self.events.push(Notification::BillCreated { id, total });
        proof {
            assert(self@.bills =~= pre.bills.push(fresh_bill(creator, total, ps)));
            assert(self@ =~= create_next(pre, true, creator, total, ps));
            assert(self.wf()) by {
                assert(fresh_bill(creator, total, ps).wf());
                assert forall|j: int| 0 <= j < self@.bills.len() implies (
                #[trigger] self@.bills[j]).wf() by {
                    if j < pre.bills.len() {
                        assert(pre.bills[j].wf());
                    }
                }
            }
        }
        Ok(id)
    }

    /// Records `payer`'s share of the bill as paid: validates the payer's
    /// identity and the bill's state, sets the flag, settles the bill when no
    /// flag is left clear (emitting the settlement notification), writes the
    /// whole updated record back, and emits the payment notification. On any
    /// rejection the ledger is left unchanged.
    pub fn pay_bill(&mut self, auth: &IdentityAuthenticator, bill_id: u32, payer: Address) -> (r:
        Result<(), BillError>)
        requires
            old(self).wf(),
        ensures
            final(self).wf(),
            r == old(self)@.pay_check(auth.proves(payer), bill_id, payer),
            final(self)@ == old(self)@.pay_next(auth.proves(payer), bill_id, payer),
    {
        if !auth.require(payer) {
            return Err(BillError::Unauthorized);
        }
        if bill_id == 0 || (bill_id as usize) > self.bills.len() {
            return Err(BillError::BillNotFound);
        }
        let idx = (bill_id as usize) - 1;
        let ghost pre = self@;
        proof {
            assert(pre.bill(bill_id) == self.bills@[idx as int]@);
            assert(pre.bill(bill_id).wf());
        }
        if self.bills[idx].settled {
            return Err(BillError::AlreadySettled);
        }
        let k = match find_index(&self.bills[idx].participants, payer) {
            None => {
                return Err(BillError::NotParticipant);
            },
            Some(k) => k,
        };
        proof {
            lemma_index_of_unique(pre.bill(bill_id).participants, payer, k as int);
            assert(pre.bill(bill_id).is_participant(payer));
        }
        if self.bills[idx].paid[k] {
            return Err(BillError::AlreadyPaid);
        }
        proof {
            assert(!pre.bill(bill_id).paid_of(payer));
            assert(pre.pay_check(true, bill_id, payer) == Ok::<(), BillError>(()));
        }

        let source = &self.bills[idx];
        let mut paid2 = copy_flags(&source.paid);
        set_flag(&mut paid2, k, true);
        let settle = all_flags_true(&paid2);
        let updated = Bill {
            creator: source.creator,
            total: source.total,
            share: source.share,
            participants: copy_addresses(&source.participants),
            paid: paid2,
            settled: settle,
        };
        proof {
            assert(updated@ =~= pre.bill(bill_id).record_payment(payer));
            assert(updated@.wf());
        }
        let slot = &mut self.bills[idx];
        *slot = updated;
        if settle {
            self.events.push(Notification::BillSettled { id: bill_id });
        }
        self.events.push(Notification::BillPaid { id: bill_id, payer });
        proof {
            assert(self@.bills =~= pre.bills.update(
                bill_id - 1,
                pre.bill(bill_id).record_payment(payer),
            ));
            assert(self@ =~= pre.pay_next(true, bill_id, payer));
            assert(self.wf()) by {
                assert forall|j: int| 0 <= j < self@.bills.len() implies (
                #[trigger] self@.bills[j]).wf() by {
                    if j != idx as int {
                        assert(pre.bills[j].wf());
                    }
                }
            }
        }
        Ok(())
    }

    /// Looks the bill up by id; anyone may read. Returns a record equal in
    /// model to the stored one, or `BillNotFound` for an unknown id.
    pub fn get_bill(&self, bill_id: u32) -> (r: Result<Bill, BillError>)
        requires
            self.wf(),
        ensures
            self@.has_bill(bill_id) ==> (r matches Ok(b) && b@ == self@.bill(bill_id)),
            !self@.has_bill(bill_id) ==> r == Err::<Bill, BillError>(BillError::BillNotFound),
    {
        if bill_id == 0 || (bill_id as usize) > self.bills.len() {
            return Err(BillError::BillNotFound);
        }
        let idx = (bill_id as usize) - 1;
        Ok(self.bills[idx].clone())
    }

    /// Whether the ledger holds a record under the given key.
    pub fn has_entry(&self, key: &DataKey) -> (r: bool)
        requires
            self.wf(),
        ensures
            r == self@.has_entry(*key),
    {
        match key {
            DataKey::Bill(id) => 1 <= *id && (*id as usize) <= self.bills.len(),
            DataKey::BillCounter => self.counter > 0,
        }
    }

    /// The last assigned bill id; zero when nothing was created yet.
    pub fn bill_count(&self) -> (r: u32)
        requires
            self.wf(),
        ensures
            r == self@.counter(),
    {
        self.counter
    }
}

} // verus!
