use vstd::prelude::*;

use crate::bill::Address;
use crate::bill::find_index;

verus! {

/// The identity capability a call is made under: it records which principals
/// the host has proven for the current invocation. The ledger consumes it and
/// rejects an operation whose acting principal is not proven; how the proof
/// is established is the host's business and stays outside the ledger.
pub struct IdentityAuthenticator {
    /// The principals proven for the current invocation.
    pub proven: Vec<Address>,
}

impl IdentityAuthenticator {
    /// Whether this capability proves that `p` authorized the current call.
    pub open spec fn proves(self, p: Address) -> bool {
        self.proven@.contains(p)
    }

    /// A capability that proves no principal at all.
    pub fn new() -> (r: Self)
        ensures
            forall|p: Address| !r.proves(p),
    {
        IdentityAuthenticator { proven: Vec::new() }
    }

    /// Extends the capability with a proof for `p`.
    pub fn grant(&mut self, p: Address)
        ensures
            final(self).proven@ == old(self).proven@.push(p),
            forall|q: Address| final(self).proves(q) <==> (old(self).proves(q) || q == p),
    {
        self.proven.push(p);
        proof {
            assert forall|q: Address| self.proves(q) <==> (old(self).proves(q) || q == p) by {
                if old(self).proves(q) {
                    let i = choose|i: int|
                        0 <= i < old(self).proven@.len() && old(self).proven@[i] == q;
                    assert(self.proven@[i] == q);
                }
                if q == p {
                    assert(self.proven@[self.proven@.len() - 1] == q);
                }
                if self.proves(q) {
                    let i = choose|i: int| 0 <= i < self.proven@.len() && self.proven@[i] == q;
                    if i < old(self).proven@.len() {
                        assert(old(self).proven@[i] == q);
                    }
                }
            }
        }
    }

    /// Whether the current call is proven to originate from `p`.
    pub fn require(&self, p: Address) -> (r: bool)
        ensures
            r == self.proves(p),
    {
        find_index(&self.proven, p).is_some()
    }
}

} // verus!
