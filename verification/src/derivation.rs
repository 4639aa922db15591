use vstd::prelude::*;

verus! {

/// The bytes of the namespace tag `"portfolio"` under which every record
/// address is derived.
pub open spec fn spec_namespace_tag() -> Seq<u8> {
    seq![112u8, 111u8, 114u8, 116u8, 102u8, 111u8, 108u8, 105u8, 111u8]
}

/// Builds the namespace tag (the ASCII bytes of `"portfolio"`) as a vector.
pub fn namespace_tag() -> (r: Vec<u8>)
    ensures
        r@ == spec_namespace_tag(),
{
    let mut v: Vec<u8> = Vec::new();
    v.push(112);
    v.push(111);
    v.push(114);
    v.push(116);
    v.push(102);
    v.push(111);
    v.push(108);
    v.push(105);
    v.push(111);
    proof {
        assert(v@ =~= spec_namespace_tag());
    }
    v
}

/// The canonical address and disambiguation byte that the storage backend
/// derives for a namespace tag, an owner identity and a program identity,
/// or `None` when no disambiguation byte yields a valid slot address.
pub uninterp spec fn derived_address(tag: Seq<u8>, owner: Seq<u8>, program: Seq<u8>) -> Option<
    (Seq<u8>, u8),
>;

/// The view of a concrete derivation result: the address bytes as a sequence,
/// beside the disambiguation byte.
pub open spec fn derivation_view(r: Option<([u8; 32], u8)>) -> Option<(Seq<u8>, u8)> {
    match r {
        Option::Some(p) => Option::Some((p.0@, p.1)),
        Option::None => Option::None,
    }
}

/// Relies on `Pubkey::try_find_program_address` (re-exported by
/// `anchor_lang::prelude`): it scans disambiguation bytes from a fixed
/// starting point and returns the first address, derived by hashing the seed
/// slices, the byte and the program identity, that is valid for a non-signable
/// storage slot, or `None` when the scan finds none. The computation reads
/// its arguments alone, so the result is a pure function of `tag`, `owner`
/// and `program`.
#[verifier::external_body]
pub(crate) fn try_derive_raw(tag: &[u8], owner: &[u8; 32], program: &[u8; 32]) -> (r: Option<
    ([u8; 32], u8),
>)
    ensures
        derivation_view(r) == derived_address(tag@, owner@, program@),
{
    let program_id = anchor_lang::prelude::Pubkey::new_from_array(*program);
    let result = anchor_lang::prelude::Pubkey::try_find_program_address(
        &[tag, owner.as_slice()],
        &program_id,
    );
    result.map(|found: (anchor_lang::prelude::Pubkey, u8)| (found.0.to_bytes(), found.1))
}

} // verus!
