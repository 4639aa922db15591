use vstd::prelude::*;

use crate::derivation::derivation_view;
use crate::derivation::derived_address;
use crate::derivation::namespace_tag;
use crate::derivation::spec_namespace_tag;
use crate::derivation::try_derive_raw;

verus! {

broadcast use vstd::array::group_array_axioms;

/// Number of bytes a record slot occupies: eight bytes reserved for the
/// backend's type discriminator, the 32-byte owner identity and the 64-bit
/// counter.
pub const RECORD_BYTES: u64 = 8 + 32 + 8;

/// A portfolio record: the owner's identity, bound once at creation, and a
/// counter that starts at zero.
#[derive(Clone, Copy, Debug)]
pub struct Portfolio {
    pub owner: [u8; 32],
    pub total_value: u64,
}

impl Portfolio {
    /// The field values written when a record is created for `owner`.
    pub fn new(owner: [u8; 32]) -> (r: Portfolio)
        ensures
            r.owner@ == owner@,
            r.total_value == 0,
    {
        Portfolio { owner, total_value: 0 }
    }
}

/// The account that pays for an allocation: the identity that authorized the
/// request and the balance it can spend.
#[derive(Clone, Copy, Debug)]
pub struct FundingSource {
    pub identity: [u8; 32],
    pub balance: u64,
}

/// Why a request to initialize a record was refused.
#[derive(Clone, Copy, Debug, PartialEq, Eq, Structural)]
pub enum InitError {
    /// A record already exists at the owner's canonical address.
    AlreadyInitialized,
    /// The funding source cannot cover the allocation cost.
    InsufficientFunds,
    /// The caller is not the owner the record is requested for.
    Unauthorized,
    /// No disambiguation byte yields a valid slot address for this owner.
    AddressDerivationFailure,
}

/// One allocated storage slot: its address, the record held there, and the
/// reserve credited to it when it was created.
#[derive(Clone, Copy, Debug)]
pub struct Slot {
    pub address: [u8; 32],
    pub record: Portfolio,
    pub reserve: u64,
}

/// The deterministic record allocator: the program identity under which
/// addresses are derived, the per-byte allocation cost, and the slots
/// allocated so far, at most one per address.
pub struct Allocator {
    pub program_id: [u8; 32],
    pub cost_per_byte: u64,
    pub slots: Vec<Slot>,
}

impl Allocator {
    /// Well-formedness: slot addresses are pairwise distinct, and the
    /// allocation cost of one record fits in a 64-bit balance.
    pub open spec fn wf(self) -> bool {
        &&& (forall|i: int, j: int|
            #![trigger self.slots@[i].address@, self.slots@[j].address@]
            0 <= i < j < self.slots@.len() ==> self.slots@[i].address@ != self.slots@[j].address@)
        &&& RECORD_BYTES * self.cost_per_byte <= u64::MAX
    }

    /// The cost of allocating one record slot: proportional to its byte size.
    pub open spec fn alloc_cost(self) -> int {
        RECORD_BYTES * self.cost_per_byte
    }

    /// What address derivation yields for an owner identity under this
    /// allocator's program identity: a pure function of the namespace tag,
    /// the owner and the program identity.
    pub open spec fn derived_for(self, owner: Seq<u8>) -> Option<(Seq<u8>, u8)> {
        derived_address(spec_namespace_tag(), owner, self.program_id@)
    }

    /// The canonical address derived for an owner identity, where derivation
    /// succeeds.
    pub open spec fn derived_addr(self, owner: Seq<u8>) -> Seq<u8> {
        self.derived_for(owner)->Some_0.0
    }

    /// Whether some slot is allocated at the given address.
    pub open spec fn exists_at(self, addr: Seq<u8>) -> bool {
        exists|i: int|
            #![trigger self.slots@[i].address@]
            0 <= i < self.slots@.len() && self.slots@[i].address@ == addr
    }

    /// Every slot at the given address holds a record with exactly these
    /// fields; under well-formedness there is at most one such slot.
    pub open spec fn record_fields_at(self, addr: Seq<u8>, owner: Seq<u8>, total_value: u64) -> bool {
        forall|i: int|
            #![trigger self.slots@[i].address@]
            0 <= i < self.slots@.len() && self.slots@[i].address@ == addr
                ==> self.slots@[i].record.owner@ == owner
                    && self.slots@[i].record.total_value == total_value
    }

    /// No impersonation: every allocated slot sits at the address derived
    /// from the owner identity stored in its record.
    pub open spec fn ownership_bound(self) -> bool {
        forall|i: int|
            #![trigger self.slots@[i]]
            0 <= i < self.slots@.len() ==> self.derived_for(self.slots@[i].record.owner@) is Some
                && self.slots@[i].address@ == self.derived_addr(self.slots@[i].record.owner@)
    }

    /// A fresh allocator for the given program identity and per-byte cost,
    /// with no slot allocated yet.
    pub fn new(program_id: [u8; 32], cost_per_byte: u64) -> (r: Allocator)
        requires
            RECORD_BYTES * cost_per_byte <= u64::MAX,
        ensures
            r.wf(),
            r.ownership_bound(),
            r.program_id@ == program_id@,
            r.cost_per_byte == cost_per_byte,
            r.slots@.len() == 0,
    {
        Allocator { program_id, cost_per_byte, slots: Vec::new() }
    }

    /// Computes the canonical storage address and disambiguation byte for an
    /// owner identity. The result is pinned to a pure function of the
    /// namespace tag, the owner identity and the program identity, so two
    /// calls for the same owner always agree.
    pub fn derive_address(&self, owner: &[u8; 32]) -> (r: Option<([u8; 32], u8)>)
        ensures
            derivation_view(r) == self.derived_for(owner@),
    {
        let tag = namespace_tag();
        try_derive_raw(tag.as_slice(), owner, &self.program_id)
    }

    /// Whether a record slot exists at the given address.
    pub fn slot_exists(&self, addr: &[u8; 32]) -> (r: bool)
        ensures
            r == self.exists_at(addr@),
    {
        let mut i: usize = 0;
        while i < self.slots.len()
            invariant
                i <= self.slots@.len(),
                forall|k: int|
                    #![trigger self.slots@[k].address@]
                    0 <= k < i ==> self.slots@[k].address@ != addr@,
            decreases self.slots@.len() - i,
        {
            if bytes_equal(&self.slots[i].address, addr) {
                return true;
            }
            i += 1;
        }
        false
    }

    /// Reads the record at the given address, or `None` when no slot exists
    /// there.
    pub fn record_at_address(&self, addr: &[u8; 32]) -> (r: Option<Portfolio>)
        requires
            self.wf(),
        ensures
            match r {
                Option::Some(rec) => self.exists_at(addr@) && self.record_fields_at(
                    addr@,
                    rec.owner@,
                    rec.total_value,
                ),
                Option::None => !self.exists_at(addr@),
            },
    {
        let mut i: usize = 0;
        while i < self.slots.len()
            invariant
                self.wf(),
                i <= self.slots@.len(),
                forall|k: int|
                    #![trigger self.slots@[k].address@]
                    0 <= k < i ==> self.slots@[k].address@ != addr@,
            decreases self.slots@.len() - i,
        {
            if bytes_equal(&self.slots[i].address, addr) {
                let rec = self.slots[i].record;
                proof {
                    assert forall|k: int|
                        0 <= k < self.slots@.len() && (#[trigger] self.slots@[k].address@)
                            == addr@ implies self.slots@[k].record.owner@ == rec.owner@
                        && self.slots@[k].record.total_value == rec.total_value by {
                        if k < i as int {
                            assert(self.slots@[k].address@ != self.slots@[i as int].address@);
                        } else if (i as int) < k {
                            assert(self.slots@[i as int].address@ != self.slots@[k].address@);
                        }
                    }
                }
                return Some(rec);
            }
            i += 1;
        }
        None
    }

    /// Creates the record for `owner_identity` at its canonical derived
    /// address, exactly once: the caller must be the owner, the address must
    /// be derivable and still free, and `funding` must cover the allocation
    /// cost, which is debited on success. Every failure leaves the allocator
    /// and the funding source unchanged.
    pub fn initialize_portfolio(
        &mut self,
        owner_identity: &[u8; 32],
        funding: &mut FundingSource,
    ) -> (r: Result<Portfolio, InitError>)
        requires
            old(self).wf(),
            old(self).ownership_bound(),
        ensures
            final(self).wf(),
            final(self).ownership_bound(),
            init_post(
                *old(self),
                *old(funding),
                *final(self),
                *final(funding),
                owner_identity@,
                r,
            ),
    {
        if !bytes_equal(&funding.identity, owner_identity) {
            return Err(InitError::Unauthorized);
        }
        let derived = self.derive_address(owner_identity);
        match derived {
            None => Err(InitError::AddressDerivationFailure),
            Some((address, _bump)) => {
                if self.slot_exists(&address) {
                    return Err(InitError::AlreadyInitialized);
                }
                let cost: u64 = RECORD_BYTES * self.cost_per_byte;
                if funding.balance < cost {
                    return Err(InitError::InsufficientFunds);
                }
                funding.balance = funding.balance - cost;
                let record = Portfolio::new(*owner_identity);
                self.slots.push(Slot { address, record, reserve: cost });
                proof {
                    let s0 = *old(self);
                    let n = s0.slots@.len() as int;
                    assert(!s0.exists_at(address@));
                    assert forall|i: int, j: int|
                        0 <= i < j < self.slots@.len() implies (#[trigger] self.slots@[i].address@)
                        != (#[trigger] self.slots@[j].address@) by {
                        if j < n {
                            assert(s0.slots@[i].address@ != s0.slots@[j].address@);
                        } else {
                            assert(self.slots@[j].address@ == address@);
                            assert(s0.slots@[i].address@ != address@);
                        }
                    }
                    assert forall|i: int|
                        0 <= i < self.slots@.len() implies self.derived_for(
                        #[trigger] self.slots@[i].record.owner@,
                    ) is Some && self.slots@[i].address@ == self.derived_addr(
                        self.slots@[i].record.owner@,
                    ) by {
                        if i < n {
                            assert(self.slots@[i] == s0.slots@[i]);
                            assert(s0.derived_for(s0.slots@[i].record.owner@) is Some);
                        }
                    }
                }
                Ok(record)
            },
        }
    }
}

/// Everything `initialize_portfolio` promises: how the allocator and the
/// funding source after the call relate to their values before it, and
/// exactly which outcome each input receives.
pub open spec fn init_post(
    s0: Allocator,
    f0: FundingSource,
    s1: Allocator,
    f1: FundingSource,
    owner: Seq<u8>,
    r: Result<Portfolio, InitError>,
) -> bool {
    &&& s1.program_id@ == s0.program_id@
    &&& s1.cost_per_byte == s0.cost_per_byte
    &&& f1.identity@ == f0.identity@
    &&& match r {
        Result::Ok(rec) => {
            &&& f0.identity@ == owner
            &&& s0.derived_for(owner) is Some
            &&& !s0.exists_at(s0.derived_addr(owner))
            &&& f0.balance >= s0.alloc_cost()
            &&& rec.owner@ == owner
            &&& rec.total_value == 0
            &&& s1.slots@.len() == s0.slots@.len() + 1
            &&& s1.slots@ == s0.slots@.push(s1.slots@.last())
            &&& s1.slots@.last().address@ == s0.derived_addr(owner)
            &&& s1.slots@.last().record.owner@ == owner
            &&& s1.slots@.last().record.total_value == 0
            &&& s1.slots@.last().reserve == s0.alloc_cost()
            &&& f1.balance == f0.balance - s0.alloc_cost()
        },
        Result::Err(e) => {
            &&& s1.slots@ == s0.slots@
            &&& f1.balance == f0.balance
            &&& match e {
                InitError::Unauthorized => f0.identity@ != owner,
                InitError::AddressDerivationFailure => f0.identity@ == owner && s0.derived_for(
                    owner,
                ) is None,
                InitError::AlreadyInitialized => f0.identity@ == owner && s0.derived_for(
                    owner,
                ) is Some && s0.exists_at(s0.derived_addr(owner)),
                InitError::InsufficientFunds => f0.identity@ == owner && s0.derived_for(
                    owner,
                ) is Some && !s0.exists_at(s0.derived_addr(owner)) && f0.balance < s0.alloc_cost(),
            }
        },
    }
}

/// Whether two 32-byte identities hold the same bytes.
fn bytes_equal(a: &[u8; 32], b: &[u8; 32]) -> (r: bool)
    ensures
        r == (a@ == b@),
{
    let mut i: usize = 0;
    while i < 32
        invariant
            i <= 32,
            forall|k: int| 0 <= k < i ==> a@[k] == b@[k],
        decreases 32 - i,
    {
        if a[i] != b[i] {
            return false;
        }
        i += 1;
    }
    proof {
        assert(a@ =~= b@);
    }
    true
}

} // verus!
