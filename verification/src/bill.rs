use vstd::prelude::*;

verus! {

/// A principal: the external identity a caller acts as, reduced to the plain
/// identifier whose exact equality the ledger's rules compare.
#[derive(Clone, Copy, PartialEq, Eq, Structural, Debug)]
pub struct Address {
    pub id: u64,
}

/// Mathematical model of one bill: unbounded integers for the amounts and
/// sequences for the participant list and the payment flags.
#[verifier::ext_equal]
pub struct BillModel {
    pub creator: Address,
    pub total: int,
    pub share: int,
    pub participants: Seq<Address>,
    pub paid: Seq<bool>,
    pub settled: bool,
}

/// Every flag in the sequence is set.
pub open spec fn all_true(s: Seq<bool>) -> bool {
    forall|i: int| 0 <= i < s.len() ==> s[i]
}

impl BillModel {
    /// Whether `p` owes a share of this bill.
    pub open spec fn is_participant(self, p: Address) -> bool {
        self.participants.contains(p)
    }

    /// The payment flag of participant `p` (meaningful when `p` participates).
    pub open spec fn paid_of(self, p: Address) -> bool {
        self.paid[self.participants.index_of(p)]
    }

    /// Every participant's share is recorded as paid.
    pub open spec fn all_paid(self) -> bool {
        all_true(self.paid)
    }

    /// Well-formedness: one flag per participant, a non-empty duplicate-free
    /// participant list, a positive total, the share the truncating quotient,
    /// and the settled flag exactly when every share is paid.
    pub open spec fn wf(self) -> bool {
        &&& self.paid.len() == self.participants.len()
        &&& self.participants.len() > 0
        &&& self.participants.no_duplicates()
        &&& self.total > 0
        &&& self.share == self.total / self.participants.len() as int
        &&& (self.settled <==> self.all_paid())
    }

    /// The bill after `p`'s share is recorded as paid: `p`'s flag is set and
    /// the bill settles exactly when no flag is left clear.
    pub open spec fn record_payment(self, p: Address) -> BillModel {
        let paid2 = self.paid.update(self.participants.index_of(p), true);
        BillModel { paid: paid2, settled: all_true(paid2), ..self }
    }
}

/// The model of a bill as `create_bill` registers it: all flags clear, not
/// settled, the share the truncating quotient of total by participant count.
pub open spec fn fresh_bill(creator: Address, total: i128, participants: Seq<Address>) -> BillModel {
    BillModel {
        creator,
        total: total as int,
        share: total as int / participants.len() as int,
        participants,
        paid: Seq::new(participants.len(), |i: int| false),
        settled: false,
    }
}

/// For an element a sequence contains, its chosen index is in range and holds
/// the element.
pub proof fn lemma_index_of_valid(s: Seq<Address>, p: Address)
    requires
        s.contains(p),
    ensures
        0 <= s.index_of(p) < s.len(),
        s[s.index_of(p)] == p,
{
    assert(exists|i: int| 0 <= i < s.len() && s[i] == p);
}

/// In a duplicate-free sequence, the chosen index of an element is the one
/// position where it stands.
pub proof fn lemma_index_of_unique(s: Seq<Address>, p: Address, k: int)
    requires
        s.no_duplicates(),
        0 <= k < s.len(),
        s[k] == p,
    ensures
        s.index_of(p) == k,
        s[s.index_of(p)] == p,
{
    assert(s.contains(p));
    lemma_index_of_valid(s, p);
}

/// One expense split: the creator, the full amount, the equal share, the
/// fixed participant list, one payment flag per participant (position `i`
/// flags `participants[i]`), and the settlement flag.
#[derive(Debug)]
pub struct Bill {
    pub creator: Address,
    pub total: i128,
    pub share: i128,
    pub participants: Vec<Address>,
    pub paid: Vec<bool>,
    pub settled: bool,
}

impl View for Bill {
    type V = BillModel;

    open spec fn view(&self) -> BillModel {
        BillModel {
            creator: self.creator,
            total: self.total as int,
            share: self.share as int,
            participants: self.participants@,
            paid: self.paid@,
            settled: self.settled,
        }
    }
}

impl Bill {
    /// Well-formedness of the concrete record, via its model.
    pub open spec fn wf(self) -> bool {
        self@.wf()
    }

    /// Whether `p` owes a share of this bill.
    pub fn is_participant(&self, p: Address) -> (r: bool)
        ensures
            r == self@.is_participant(p),
    {
        find_index(&self.participants, p).is_some()
    }

    /// Whether participant `p`'s share is recorded as paid; a stranger to the
    /// bill is reported as unpaid.
    pub fn has_paid(&self, p: Address) -> (r: bool)
        requires
            self.wf(),
        ensures
            self@.is_participant(p) ==> r == self@.paid_of(p),
            !self@.is_participant(p) ==> r == false,
    {
        match find_index(&self.participants, p) {
            Some(k) => {
                proof {
                    lemma_index_of_unique(self.participants@, p, k as int);
                }
                self.paid[k]
            },
            None => false,
        }
    }
}

impl Clone for Bill {
    /// A clone carries the same model as the original.
    fn clone(&self) -> (r: Self)
        ensures
            r@ == self@,
    {
        let r = Bill {
            creator: self.creator,
            total: self.total,
            share: self.share,
            participants: copy_addresses(&self.participants),
            paid: copy_flags(&self.paid),
            settled: self.settled,
        };
        proof {
            assert(r@ =~= self@);
        }
        r
    }
}

/// The position of `target` in `v`, when it occurs.
pub(crate) fn find_index(v: &Vec<Address>, target: Address) -> (r: Option<usize>)
    ensures
        match r {
            Some(k) => (k as int) < v@.len() && v@[k as int] == target,
            None => !v@.contains(target),
        },
{
    let mut i: usize = 0;
    while i < v.len()
        invariant
            i <= v@.len(),
            forall|j: int| 0 <= j < i ==> v@[j] != target,
        decreases v@.len() - i,
    {
        if v[i] == target {
            return Some(i);
        }
        i = i + 1;
    }
    None
}

/// Whether some identifier occurs twice in `v`.
pub(crate) fn has_duplicate(v: &Vec<Address>) -> (r: bool)
    ensures
        r == !v@.no_duplicates(),
{
    let mut j: usize = 0;
    while j < v.len()
        invariant
            j <= v@.len(),
            forall|a: int, b: int| 0 <= a < b < j ==> v@[a] != v@[b],
        decreases v@.len() - j,
    {
        let mut i: usize = 0;
        while i < j
            invariant
                i <= j,
                j < v@.len(),
                forall|a: int| 0 <= a < i ==> v@[a] != v@[j as int],
            decreases j - i,
        {
            if v[i] == v[j] {
                assert(!v@.no_duplicates());
                return true;
            }
            i = i + 1;
        }
        j = j + 1;
    }
    proof {
        assert forall|a: int, b: int|
            0 <= a < v@.len() && 0 <= b < v@.len() && a != b implies v@[a] != v@[b] by {
            if a < b {
                assert(v@[a] != v@[b]);
            } else {
                assert(v@[b] != v@[a]);
            }
        }
    }
    false
}

/// Whether every flag in `v` is set.
pub(crate) fn all_flags_true(v: &Vec<bool>) -> (r: bool)
    ensures
        r == all_true(v@),
{
    let mut i: usize = 0;
    while i < v.len()
        invariant
            i <= v@.len(),
            forall|j: int| 0 <= j < i ==> v@[j],
        decreases v@.len() - i,
    {
        if !v[i] {
            return false;
        }
        i = i + 1;
    }
    true
}

/// A fresh vector holding the same identifiers.
pub(crate) fn copy_addresses(v: &Vec<Address>) -> (r: Vec<Address>)
    ensures
        r@ == v@,
{
    let mut r: Vec<Address> = Vec::new();
    let mut i: usize = 0;
    while i < v.len()
        invariant
            i <= v@.len(),
            r@ == v@.subrange(0, i as int),
        decreases v@.len() - i,
    {
        r.push(v[i]);
        proof {
            assert(r@ =~= v@.subrange(0, i + 1));
        }
        i = i + 1;
    }
    proof {
        assert(r@ =~= v@);
    }
    r
}

/// A fresh vector holding the same flags.
pub(crate) fn copy_flags(v: &Vec<bool>) -> (r: Vec<bool>)
    ensures
        r@ == v@,
{
    let mut r: Vec<bool> = Vec::new();
    let mut i: usize = 0;
    while i < v.len()
        invariant
            i <= v@.len(),
            r@ == v@.subrange(0, i as int),
        decreases v@.len() - i,
    {
        r.push(v[i]);
        proof {
            assert(r@ =~= v@.subrange(0, i + 1));
        }
        i = i + 1;
    }
    proof {
        assert(r@ =~= v@);
    }
    r
}

/// Sets the flag at position `i`.
pub(crate) fn set_flag(v: &mut Vec<bool>, i: usize, b: bool)
    requires
        i < old(v)@.len(),
    ensures
        final(v)@ == old(v)@.update(i as int, b),
{
    let slot = &mut v[i];
    *slot = b;
    proof {
        assert(v@ =~= old(v)@.update(i as int, b));
    }
}

} // verus!
