use vstd::prelude::*;

use crate::allocator::init_post;
use crate::allocator::Allocator;
use crate::allocator::FundingSource;
use crate::allocator::InitError;
use crate::allocator::Portfolio;

verus! {

/// A first request for an owner: when the caller is the owner, the canonical
/// address is derivable and not yet allocated, and the funding source covers
/// the allocation cost, the operation succeeds and yields a record whose
/// owner is the requesting identity and whose counter is zero, held at the
/// derived address, with exactly the allocation cost debited.
pub proof fn lemma_first_call_succeeds(
    s0: Allocator,
    f0: FundingSource,
    s1: Allocator,
    f1: FundingSource,
    owner: Seq<u8>,
    r: Result<Portfolio, InitError>,
)
    requires
        init_post(s0, f0, s1, f1, owner, r),
        f0.identity@ == owner,
        s0.derived_for(owner) is Some,
        !s0.exists_at(s0.derived_addr(owner)),
        f0.balance >= s0.alloc_cost(),
    ensures
        r is Ok,
        r->Ok_0.owner@ == owner,
        r->Ok_0.total_value == 0,
        s1.exists_at(s0.derived_addr(owner)),
        s1.record_fields_at(s0.derived_addr(owner), owner, 0),
        f1.balance == f0.balance - s0.alloc_cost(),
{
    let addr = s0.derived_addr(owner);
    match r {
        Result::Ok(rec) => {
            let n = s0.slots@.len() as int;
            assert(s1.slots@[n].address@ == addr);
            assert(s1.exists_at(addr));
            assert forall|i: int|
                0 <= i < s1.slots@.len() && (#[trigger] s1.slots@[i].address@)
                    == addr implies s1.slots@[i].record.owner@ == owner
                && s1.slots@[i].record.total_value == 0 by {
                if i < n {
                    assert(s1.slots@[i] == s0.slots@[i]);
                    assert(!s0.exists_at(addr));
                    assert(s0.slots@[i].address@ != addr);
                }
            }
        },
        Result::Err(e) => {
            assert(false);
        },
    }
}

/// Allocate-once: after a successful initialization for an owner, a second
/// authorized request for the same owner fails with `AlreadyInitialized`,
/// leaves the allocator and the funding source unchanged, and the record at
/// the owner's canonical address still carries the fields written at
/// creation.
pub proof fn lemma_allocate_once(
    s0: Allocator,
    f0: FundingSource,
    s1: Allocator,
    f1: FundingSource,
    r1: Result<Portfolio, InitError>,
    s2: Allocator,
    f2: FundingSource,
    f3: FundingSource,
    r2: Result<Portfolio, InitError>,
    owner: Seq<u8>,
)
    requires
        init_post(s0, f0, s1, f1, owner, r1),
        r1 is Ok,
        init_post(s1, f2, s2, f3, owner, r2),
        f2.identity@ == owner,
    ensures
        r2 == Result::<Portfolio, InitError>::Err(InitError::AlreadyInitialized),
        s2.slots@ == s1.slots@,
        f3.balance == f2.balance,
        s2.record_fields_at(s0.derived_addr(owner), owner, 0),
{
    let addr = s0.derived_addr(owner);
    let n = s0.slots@.len() as int;
    assert(s1.derived_for(owner) == s0.derived_for(owner));
    assert(s1.slots@[n].address@ == addr);
    assert(s1.exists_at(addr));
    lemma_first_call_succeeds(s0, f0, s1, f1, owner, r1);
    match r2 {
        Result::Ok(rec) => {
            assert(false);
        },
        Result::Err(e) => {
            assert(e == InitError::AlreadyInitialized);
            assert forall|i: int|
                0 <= i < s2.slots@.len() && (#[trigger] s2.slots@[i].address@)
                    == addr implies s2.slots@[i].record.owner@ == owner
                && s2.slots@[i].record.total_value == 0 by {
                assert(s2.slots@[i] == s1.slots@[i]);
                assert(s1.record_fields_at(addr, owner, 0));
            }
        },
    }
}

/// An unfunded request: when the caller is the owner, the address is
/// derivable and free, but the funding source's balance is below the
/// allocation cost, the operation fails with `InsufficientFunds`, no slot
/// exists at the derived address afterwards, and no balance is debited.
pub proof fn lemma_insufficient_funds_creates_nothing(
    s0: Allocator,
    f0: FundingSource,
    s1: Allocator,
    f1: FundingSource,
    owner: Seq<u8>,
    r: Result<Portfolio, InitError>,
)
    requires
        init_post(s0, f0, s1, f1, owner, r),
        f0.identity@ == owner,
        s0.derived_for(owner) is Some,
        !s0.exists_at(s0.derived_addr(owner)),
        f0.balance < s0.alloc_cost(),
    ensures
        r == Result::<Portfolio, InitError>::Err(InitError::InsufficientFunds),
        !s1.exists_at(s0.derived_addr(owner)),
        f1.balance == f0.balance,
{
    let addr = s0.derived_addr(owner);
    match r {
        Result::Ok(rec) => {
            assert(false);
        },
        Result::Err(e) => {
            assert(e == InitError::InsufficientFunds);
            assert(s1.slots@ == s0.slots@);
            if s1.exists_at(addr) {
                let i = choose|i: int|
                    0 <= i < s1.slots@.len() && #[trigger] s1.slots@[i].address@ == addr;
                assert(s0.slots@[i].address@ == addr);
                assert(s0.exists_at(addr));
            }
        },
    }
}

/// Address derivation is pure: two allocators configured with the same
/// program identity derive the same address and disambiguation byte for the
/// same owner, so repeated derivations for one owner always agree.
pub proof fn lemma_derivation_pure(a: Allocator, b: Allocator, owner: Seq<u8>)
    requires
        a.program_id@ == b.program_id@,
    ensures
        a.derived_for(owner) == b.derived_for(owner),
{
}

} // verus!
