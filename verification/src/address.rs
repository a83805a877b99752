//! Where a record lives: a location derived from a fixed namespace tag, the
//! owner's identity and the program's identity. The same derivation serves
//! allocation and lookup, and deciding whether a caller may touch a location.

use anchor_lang::prelude::Pubkey;
use vstd::prelude::*;

verus! {

/// The namespace tag, the ASCII text `user-color`.
pub open spec fn namespace_tag_bytes() -> Seq<u8> {
    seq![117u8, 115u8, 101u8, 114u8, 45u8, 99u8, 111u8, 108u8, 111u8, 114u8]
}

/// The derived location and its bump for the given seeds under the given
/// program, or `None` where there is none. Stands for the value that
/// `Pubkey::try_find_program_address` computes from those bytes.
pub uninterp spec fn program_address(seeds: Seq<Seq<u8>>, program_id: Seq<u8>) -> Option<
    (Seq<u8>, u8),
>;

/// The location and bump derived for `owner` under `program_id`.
pub open spec fn derived_address(owner: Seq<u8>, program_id: Seq<u8>) -> Option<(Seq<u8>, u8)> {
    program_address(seq![namespace_tag_bytes(), owner], program_id)
}

/// Whether `account` is the location that belongs to `owner` under
/// `program_id`: the test a caller must pass before its record is touched.
pub open spec fn authorized(account: Seq<u8>, owner: Seq<u8>, program_id: Seq<u8>) -> bool {
    match derived_address(owner, program_id) {
        Some(found) => found.0 == account,
        None => false,
    }
}

/// What a derivation result says, over plain byte sequences.
pub open spec fn address_view(found: Option<([u8; 32], u8)>) -> Option<(Seq<u8>, u8)> {
    match found {
        Some(pair) => Some((pair.0@, pair.1)),
        None => None,
    }
}

/// Calls `Pubkey::try_find_program_address` with the two seeds `tag` and
/// `owner`. Trusted: the result is the derivation's value on exactly these
/// bytes, a deterministic function of them; nothing is claimed about which
/// bytes come out.
#[verifier::external_body]
fn find_program_address(tag: &[u8], owner: &[u8; 32], program_id: &[u8; 32]) -> (found: Option<
    ([u8; 32], u8),
>)
    ensures
        address_view(found) == program_address(seq![tag@, owner@], program_id@),
{
    let program = Pubkey::new_from_array(*program_id);
    match Pubkey::try_find_program_address(&[tag, &owner[..]], &program) {
        Some((address, bump)) => Some((address.to_bytes(), bump)),
        None => None,
    }
}

/// The namespace tag under which every record's location is derived.
pub fn namespace_tag() -> (tag: [u8; 10])
    ensures
        tag@ == namespace_tag_bytes(),
{
    let tag: [u8; 10] = [117u8, 115u8, 101u8, 114u8, 45u8, 99u8, 111u8, 108u8, 111u8, 114u8];
    assert(tag@ =~= namespace_tag_bytes());
    tag
}

/// Decides whether two identities are the same, byte for byte.
pub fn same_identity(left: &[u8; 32], right: &[u8; 32]) -> (same: bool)
    ensures
        same == (left@ == right@),
{
    let mut i: usize = 0;
    while i < 32
        invariant
            i <= 32,
            forall|j: int| 0 <= j < i ==> left@[j] == right@[j],
        decreases 32 - i,
    {
        if left[i] != right[i] {
            return false;
        }
        i += 1;
    }
    assert(left@ =~= right@);
    true
}

/// Derives the location of `owner`'s record under `program_id`, with its bump.
pub fn record_address(owner: &[u8; 32], program_id: &[u8; 32]) -> (found: Option<([u8; 32], u8)>)
    ensures
        address_view(found) == derived_address(owner@, program_id@),
{
    let tag = namespace_tag();
    find_program_address(tag.as_slice(), owner, program_id)
}

/// Decides whether a derivation produced exactly the location `account`.
pub fn address_matches(found: Option<([u8; 32], u8)>, account: &[u8; 32]) -> (ok: bool)
    ensures
        ok == match found {
            Some(pair) => pair.0@ == account@,
            None => false,
        },
{
    match found {
        Some(pair) => same_identity(&pair.0, account),
        None => false,
    }
}

/// Decides whether `account` is the location of `owner`'s record under
/// `program_id`.
pub fn is_authorized(account: &[u8; 32], owner: &[u8; 32], program_id: &[u8; 32]) -> (ok: bool)
    ensures
        ok == authorized(account@, owner@, program_id@),
{
    let found = record_address(owner, program_id);
    address_matches(found, account)
}

} // verus!
