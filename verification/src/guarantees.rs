//! What holds of every sequence of calls against the ledger, proved over the
//! two step functions that the calls are specified by.

use vstd::prelude::*;
use crate::error::{ErrorCode, LedgerError};
use crate::ledger::{all_fit, create_step, update_step};
use crate::record::color_fits;

verus! {

/// For a caller that passed the address check and has no record yet, a create
/// call succeeds exactly when the color is within the bound; when it is not,
/// the call answers `ColorTooLong` and the table stays as it was.
pub proof fn lemma_create_decided_by_length(
    records: Map<Seq<u8>, Seq<char>>,
    caller: Seq<u8>,
    color: Seq<char>,
)
    requires
        !records.contains_key(caller),
    ensures
        create_step(records, true, caller, color).1 is Ok <==> color_fits(color),
        color_fits(color) ==> create_step(records, true, caller, color).0 == records.insert(
            caller,
            color,
        ),
        !color_fits(color) ==> create_step(records, true, caller, color) == (
            records,
            Err::<(), LedgerError>(LedgerError::Rejected(ErrorCode::ColorTooLong)),
        ),
{
}

/// For a caller that passed the address check and has a record, an update
/// call succeeds exactly when the color is within the bound; when it is not,
/// the call answers `ColorTooLong` and the table stays as it was.
pub proof fn lemma_update_decided_by_length(
    records: Map<Seq<u8>, Seq<char>>,
    caller: Seq<u8>,
    color: Seq<char>,
)
    requires
        records.contains_key(caller),
    ensures
        update_step(records, true, caller, color).1 is Ok <==> color_fits(color),
        color_fits(color) ==> update_step(records, true, caller, color).0 == records.insert(
            caller,
            color,
        ),
        !color_fits(color) ==> update_step(records, true, caller, color) == (
            records,
            Err::<(), LedgerError>(LedgerError::Rejected(ErrorCode::ColorTooLong)),
        ),
{
}

/// No call, accepted or refused, ever leaves a color beyond the bound in the
/// table.
pub proof fn lemma_bound_kept(
    records: Map<Seq<u8>, Seq<char>>,
    authorized: bool,
    caller: Seq<u8>,
    color: Seq<char>,
)
    requires
        all_fit(records),
    ensures
        all_fit(create_step(records, authorized, caller, color).0),
        all_fit(update_step(records, authorized, caller, color).0),
{
}

/// A refused call changes nothing, whatever the reason for the refusal.
pub proof fn lemma_refused_call_changes_nothing(
    records: Map<Seq<u8>, Seq<char>>,
    authorized: bool,
    caller: Seq<u8>,
    color: Seq<char>,
)
    ensures
        create_step(records, authorized, caller, color).1 is Err ==> create_step(
            records,
            authorized,
            caller,
            color,
        ).0 == records,
        update_step(records, authorized, caller, color).1 is Err ==> update_step(
            records,
            authorized,
            caller,
            color,
        ).0 == records,
{
}

/// One record per owner: once a create call for an owner has succeeded, every
/// later create call for the same owner is refused, with `AlreadyExists` when
/// it passes the address check, and the stored color is still the first one.
pub proof fn lemma_second_create_refused(
    records: Map<Seq<u8>, Seq<char>>,
    caller: Seq<u8>,
    first_color: Seq<char>,
    second_color: Seq<char>,
    second_authorized: bool,
)
    requires
        create_step(records, true, caller, first_color).1 is Ok,
    ensures
        ({
            let first = create_step(records, true, caller, first_color);
            let second = create_step(first.0, second_authorized, caller, second_color);
            &&& second.1 is Err
            &&& second_authorized ==> second.1 == Err::<(), LedgerError>(
                LedgerError::AlreadyExists,
            )
            &&& second.0 == first.0
            &&& second.0.contains_key(caller)
            &&& second.0[caller] == first_color
        }),
{
}

/// Records are never removed: whoever has a record before a call has one
/// after it.
pub proof fn lemma_no_record_removed(
    records: Map<Seq<u8>, Seq<char>>,
    authorized: bool,
    caller: Seq<u8>,
    color: Seq<char>,
    owner: Seq<u8>,
)
    requires
        records.contains_key(owner),
    ensures
        create_step(records, authorized, caller, color).0.contains_key(owner),
        update_step(records, authorized, caller, color).0.contains_key(owner),
{
}

/// An update call for an owner without a record answers `NotFound` and creates
/// nothing.
pub proof fn lemma_update_needs_record(
    records: Map<Seq<u8>, Seq<char>>,
    authorized: bool,
    caller: Seq<u8>,
    color: Seq<char>,
)
    requires
        !records.contains_key(caller),
    ensures
        update_step(records, authorized, caller, color) == (
            records,
            Err::<(), LedgerError>(LedgerError::NotFound),
        ),
        !update_step(records, authorized, caller, color).0.contains_key(caller),
{
}

/// After a successful create and a successful update for the same owner, the
/// owner still has exactly one record, it holds the second color, and the set
/// of owners is what it was after the create.
pub proof fn lemma_update_after_create(
    records: Map<Seq<u8>, Seq<char>>,
    caller: Seq<u8>,
    first_color: Seq<char>,
    second_color: Seq<char>,
)
    requires
        create_step(records, true, caller, first_color).1 is Ok,
        color_fits(second_color),
    ensures
        ({
            let created = create_step(records, true, caller, first_color);
            let updated = update_step(created.0, true, caller, second_color);
            &&& updated.1 is Ok
            &&& updated.0.contains_key(caller)
            &&& updated.0[caller] == second_color
            &&& updated.0.dom() == created.0.dom()
            &&& updated.0 == records.insert(caller, second_color)
        }),
{
    let created = create_step(records, true, caller, first_color);
    let updated = update_step(created.0, true, caller, second_color);
    assert(updated.0.dom() =~= created.0.dom());
    assert(updated.0 =~= records.insert(caller, second_color));
}

/// Owners are independent: no call made for one owner, accepted or refused,
/// creates, removes or changes the record of another.
pub proof fn lemma_other_owner_untouched(
    records: Map<Seq<u8>, Seq<char>>,
    authorized: bool,
    caller: Seq<u8>,
    color: Seq<char>,
    other: Seq<u8>,
)
    requires
        other != caller,
    ensures
        create_step(records, authorized, caller, color).0.contains_key(other)
            == records.contains_key(other),
        update_step(records, authorized, caller, color).0.contains_key(other)
            == records.contains_key(other),
        records.contains_key(other) ==> create_step(records, authorized, caller, color).0[other]
            == records[other],
        records.contains_key(other) ==> update_step(records, authorized, caller, color).0[other]
            == records[other],
{
}

/// Two owners without records can both create one, in either order, and each
/// then holds its own color.
pub proof fn lemma_two_owners_two_records(
    records: Map<Seq<u8>, Seq<char>>,
    first: Seq<u8>,
    first_color: Seq<char>,
    second: Seq<u8>,
    second_color: Seq<char>,
)
    requires
        first != second,
        !records.contains_key(first),
        !records.contains_key(second),
        color_fits(first_color),
        color_fits(second_color),
    ensures
        ({
            let one = create_step(records, true, first, first_color);
            let two = create_step(one.0, true, second, second_color);
            &&& one.1 is Ok
            &&& two.1 is Ok
            &&& two.0.contains_key(first) && two.0[first] == first_color
            &&& two.0.contains_key(second) && two.0[second] == second_color
        }),
{
}

} // verus!
