//! The keyed storage that holds one record per owner, and the two calls
//! against it: the checks the platform makes around each guarded write.

use vstd::prelude::*;
use crate::address::{authorized, is_authorized, same_identity};
use crate::error::{ErrorCode, LedgerError};
use crate::instructions::{initialize, update_color, Initialize, UpdateColor};
use crate::record::{color_fits, RecordView, UserColor};

verus! {

/// Whether some entry belongs to `owner`.
pub open spec fn has_owner(entries: Seq<RecordView>, owner: Seq<u8>) -> bool {
    exists|i: int| 0 <= i < entries.len() && (#[trigger] entries[i]).owner == owner
}

/// The position of an entry that belongs to `owner`, where there is one.
pub open spec fn index_of(entries: Seq<RecordView>, owner: Seq<u8>) -> int {
    choose|i: int| 0 <= i < entries.len() && (#[trigger] entries[i]).owner == owner
}

/// No two entries belong to the same owner.
pub open spec fn distinct_owners(entries: Seq<RecordView>) -> bool {
    forall|i: int, j: int|
        0 <= i < j < entries.len() ==> (#[trigger] entries[i]).owner
            != (#[trigger] entries[j]).owner
}

/// The entries read as a lookup table: each owner's color.
pub open spec fn records_of(entries: Seq<RecordView>) -> Map<Seq<u8>, Seq<char>> {
    Map::new(
        |owner: Seq<u8>| has_owner(entries, owner),
        |owner: Seq<u8>| entries[index_of(entries, owner)].color,
    )
}

/// Every stored color is within the bound.
pub open spec fn all_fit(records: Map<Seq<u8>, Seq<char>>) -> bool {
    forall|owner: Seq<u8>| #[trigger] records.contains_key(owner) ==> color_fits(records[owner])
}

/// What a create call does to the table and what it answers, given whether
/// the caller passed the address check.
pub open spec fn create_step(
    records: Map<Seq<u8>, Seq<char>>,
    authorized: bool,
    caller: Seq<u8>,
    color: Seq<char>,
) -> (Map<Seq<u8>, Seq<char>>, Result<(), LedgerError>) {
    if !authorized {
        (records, Err(LedgerError::InvalidAddress))
    } else if records.contains_key(caller) {
        (records, Err(LedgerError::AlreadyExists))
    } else if !color_fits(color) {
        (records, Err(LedgerError::Rejected(ErrorCode::ColorTooLong)))
    } else {
        (records.insert(caller, color), Ok(()))
    }
}

/// What an update call does to the table and what it answers, given whether
/// the caller passed the address check.
pub open spec fn update_step(
    records: Map<Seq<u8>, Seq<char>>,
    authorized: bool,
    caller: Seq<u8>,
    color: Seq<char>,
) -> (Map<Seq<u8>, Seq<char>>, Result<(), LedgerError>) {
    if !records.contains_key(caller) {
        (records, Err(LedgerError::NotFound))
    } else if !authorized {
        (records, Err(LedgerError::InvalidAddress))
    } else if !color_fits(color) {
        (records, Err(LedgerError::Rejected(ErrorCode::ColorTooLong)))
    } else {
        (records.insert(caller, color), Ok(()))
    }
}

/// With distinct owners, the entry found for an owner is the one that holds
/// it, and the table gives that entry's color.
proof fn lemma_index_of(entries: Seq<RecordView>, i: int)
    requires
        distinct_owners(entries),
        0 <= i < entries.len(),
    ensures
        has_owner(entries, entries[i].owner),
        index_of(entries, entries[i].owner) == i,
        records_of(entries)[entries[i].owner] == entries[i].color,
{
    let owner = entries[i].owner;
    assert(0 <= i < entries.len() && entries[i].owner == owner);
    let j = index_of(entries, owner);
    assert(0 <= j < entries.len() && entries[j].owner == owner);
    if j < i {
        assert(entries[j].owner != entries[i].owner);
    } else if i < j {
        assert(entries[i].owner != entries[j].owner);
    }
}

/// Appending an entry for a new owner inserts that owner into the table.
proof fn lemma_push(entries: Seq<RecordView>, entry: RecordView)
    requires
        distinct_owners(entries),
        !has_owner(entries, entry.owner),
    ensures
        distinct_owners(entries.push(entry)),
        records_of(entries.push(entry)) == records_of(entries).insert(entry.owner, entry.color),
{
    let grown = entries.push(entry);
    assert forall|i: int, j: int| 0 <= i < j < grown.len() implies (#[trigger] grown[i]).owner
        != (#[trigger] grown[j]).owner by {
        if j < entries.len() {
            assert(entries[i].owner != entries[j].owner);
        } else {
            assert(grown[i] == entries[i]);
        }
    }
    let expected = records_of(entries).insert(entry.owner, entry.color);
    assert forall|owner: Seq<u8>| records_of(grown).contains_key(owner) implies #[trigger] expected
        .contains_key(owner) && records_of(grown)[owner] == expected[owner] by {
        let j = index_of(grown, owner);
        assert(0 <= j < grown.len() && grown[j].owner == owner);
        lemma_index_of(grown, j);
        if j < entries.len() {
            assert(entries[j] == grown[j]);
            lemma_index_of(entries, j);
        }
    }
    assert forall|owner: Seq<u8>| #[trigger] expected.contains_key(owner) implies records_of(
        grown,
    ).contains_key(owner) by {
        if owner == entry.owner {
            assert(grown[entries.len() as int].owner == owner);
        } else {
            let j = index_of(entries, owner);
            assert(0 <= j < entries.len() && entries[j].owner == owner);
            assert(grown[j].owner == owner);
        }
    }
    assert(records_of(grown) =~= expected);
}

/// Replacing the color of one entry replaces that owner's color in the table.
proof fn lemma_replace(entries: Seq<RecordView>, i: int, color: Seq<char>)
    requires
        distinct_owners(entries),
        0 <= i < entries.len(),
    ensures
        distinct_owners(entries.update(i, RecordView { owner: entries[i].owner, color })),
        records_of(entries.update(i, RecordView { owner: entries[i].owner, color })) == records_of(
            entries,
        ).insert(entries[i].owner, color),
{
    let entry = RecordView { owner: entries[i].owner, color };
    let changed = entries.update(i, entry);
    assert forall|a: int, b: int| 0 <= a < b < changed.len() implies (#[trigger] changed[a]).owner
        != (#[trigger] changed[b]).owner by {
        assert(changed[a].owner == entries[a].owner);
        assert(changed[b].owner == entries[b].owner);
    }
    let expected = records_of(entries).insert(entry.owner, color);
    assert forall|owner: Seq<u8>| records_of(changed).contains_key(owner) implies #[trigger] expected
        .contains_key(owner) && records_of(changed)[owner] == expected[owner] by {
        let j = index_of(changed, owner);
        assert(0 <= j < changed.len() && changed[j].owner == owner);
        lemma_index_of(changed, j);
        assert(entries[j].owner == owner);
        lemma_index_of(entries, j);
    }
    assert forall|owner: Seq<u8>| #[trigger] expected.contains_key(owner) implies records_of(
        changed,
    ).contains_key(owner) by {
        if owner == entry.owner {
            assert(changed[i].owner == owner);
        } else {
            let j = index_of(entries, owner);
            assert(0 <= j < entries.len() && entries[j].owner == owner);
            assert(changed[j].owner == owner);
        }
    }
    assert(records_of(changed) =~= expected);
}

/// The storage: at most one record per owner, under one program identity.
pub struct Ledger {
    program_id: [u8; 32],
    records: Vec<UserColor>,
}

impl View for Ledger {
    type V = Map<Seq<u8>, Seq<char>>;

    /// Each owner's stored color.
    closed spec fn view(&self) -> Map<Seq<u8>, Seq<char>> {
        records_of(self.entries())
    }
}

impl Ledger {
    /// The stored records, in the order of their creation.
    pub closed spec fn entries(&self) -> Seq<RecordView> {
        Seq::new(self.records@.len(), |i: int| self.records@[i]@)
    }

    /// The identity of the program under which locations are derived.
    pub closed spec fn program_id(&self) -> Seq<u8> {
        self.program_id@
    }

    /// The invariant: no owner has two records, and every color is within the
    /// bound.
    pub closed spec fn well_formed(&self) -> bool {
        &&& distinct_owners(self.entries())
        &&& forall|i: int|
            0 <= i < self.records@.len() ==> (#[trigger] self.records@[i]).well_formed()
    }

    /// In a well-formed ledger every stored color is within the bound.
    pub proof fn lemma_colors_fit(&self)
        requires
            self.well_formed(),
        ensures
            all_fit(self@),
    {
        assert forall|owner: Seq<u8>| #[trigger] self@.contains_key(owner) implies color_fits(
            self@[owner],
        ) by {
            let j = index_of(self.entries(), owner);
            assert(0 <= j < self.entries().len() && self.entries()[j].owner == owner);
            assert(self.records@[j].well_formed());
        }
    }

    /// An empty ledger for the program `program_id`.
    pub fn new(program_id: [u8; 32]) -> (ledger: Ledger)
        ensures
            ledger.well_formed(),
            ledger.program_id() == program_id@,
            ledger@ == Map::<Seq<u8>, Seq<char>>::empty(),
    {
        let ledger = Ledger { program_id, records: Vec::new() };
        assert(ledger@ =~= Map::<Seq<u8>, Seq<char>>::empty());
        ledger
    }

    /// Number of records held.
    pub fn len(&self) -> (count: usize)
        requires
            self.well_formed(),
        ensures
            count == self@.dom().len(),
            self@.dom().finite(),
    {
        proof {
            lemma_domain(self.entries());
        }
        self.records.len()
    }

    /// The position of the record of `owner`, where there is one.
    fn find(&self, owner: &[u8; 32]) -> (found: Option<usize>)
        ensures
            match found {
                Some(i) => i < self.records@.len() && self.entries()[i as int].owner == owner@,
                None => !has_owner(self.entries(), owner@),
            },
    {
        let mut i: usize = 0;
        while i < self.records.len()
            invariant
                i <= self.records@.len(),
                forall|j: int| 0 <= j < i ==> (#[trigger] self.entries()[j]).owner != owner@,
            decreases self.records@.len() - i,
        {
            if same_identity(&self.records[i].user, owner) {
                return Some(i);
            }
            i += 1;
        }
        None
    }

    /// The record of `owner`, where there is one.
    pub fn get(&self, owner: &[u8; 32]) -> (found: Option<&UserColor>)
        requires
            self.well_formed(),
        ensures
            match found {
                Some(record) => self@.contains_key(owner@) && record@ == (RecordView {
                    owner: owner@,
                    color: self@[owner@],
                }) && record.well_formed(),
                None => !self@.contains_key(owner@),
            },
    {
        match self.find(owner) {
            Some(i) => {
                proof {
                    lemma_index_of(self.entries(), i as int);
                }
                Some(&self.records[i])
            },
            None => None,
        }
    }

    /// Creates the caller's record at the location `account`.
    ///
    /// Refused, with the ledger unchanged, when `account` is not the location
    /// derived for the caller, when the caller already has a record, or when
    /// the color is too long, in that order. Otherwise the caller's record is
    /// stored with `color`.
    pub fn create(&mut self, caller: [u8; 32], account: [u8; 32], color: String) -> (outcome:
        Result<(), LedgerError>)
        requires
            old(self).well_formed(),
        ensures
            final(self).well_formed(),
            final(self).program_id() == old(self).program_id(),
            final(self)@ == create_step(
                old(self)@,
                authorized(account@, caller@, old(self).program_id()),
                caller@,
                color@,
            ).0,
            outcome == create_step(
                old(self)@,
                authorized(account@, caller@, old(self).program_id()),
                caller@,
                color@,
            ).1,
    {
        if !is_authorized(&account, &caller, &self.program_id) {
            return Err(LedgerError::InvalidAddress);
        }
        if self.find(&caller).is_some() {
            return Err(LedgerError::AlreadyExists);
        }
        let mut ctx = Initialize { user_color: UserColor::blank(), user: caller };
        match initialize(&mut ctx, color) {
            Err(code) => Err(LedgerError::Rejected(code)),
            Ok(()) => {
                let ghost before = self.entries();
                let ghost entry = ctx.user_color@;
                self.records.push(ctx.user_color);
                proof {
                    assert(self.entries() =~= before.push(entry));
                    lemma_push(before, entry);
                }
                Ok(())
            },
        }
    }

    /// Overwrites the color of the caller's record at the location `account`.
    ///
    /// Refused, with the ledger unchanged, when the caller has no record, when
    /// `account` is not the location derived for the caller, or when the color
    /// is too long, in that order. Otherwise only the color of the caller's
    /// record changes.
    pub fn update(&mut self, caller: [u8; 32], account: [u8; 32], new_color: String) -> (outcome:
        Result<(), LedgerError>)
        requires
            old(self).well_formed(),
        ensures
            final(self).well_formed(),
            final(self).program_id() == old(self).program_id(),
            final(self)@ == update_step(
                old(self)@,
                authorized(account@, caller@, old(self).program_id()),
                caller@,
                new_color@,
            ).0,
            outcome == update_step(
                old(self)@,
                authorized(account@, caller@, old(self).program_id()),
                caller@,
                new_color@,
            ).1,
    {
        let i = match self.find(&caller) {
            Some(i) => i,
            None => {
                return Err(LedgerError::NotFound);
            },
        };
        if !is_authorized(&account, &caller, &self.program_id) {
            return Err(LedgerError::InvalidAddress);
        }
        let mut ctx = UpdateColor { user_color: self.records[i].duplicate(), user: caller };
        match update_color(&mut ctx, new_color) {
            Err(code) => Err(LedgerError::Rejected(code)),
            Ok(()) => {
                let ghost before = self.entries();
                let ghost entry = ctx.user_color@;
                self.records.set(i, ctx.user_color);
                proof {
                    assert(self.entries() =~= before.update(i as int, entry));
                    lemma_replace(before, i as int, entry.color);
                }
                Ok(())
            },
        }
    }
}

/// With distinct owners, the table has as many owners as there are entries.
proof fn lemma_domain(entries: Seq<RecordView>)
    requires
        distinct_owners(entries),
    ensures
        records_of(entries).dom().finite(),
        records_of(entries).dom().len() == entries.len(),
    decreases entries.len(),
{
    if entries.len() == 0 {
        assert(records_of(entries).dom() =~= Set::<Seq<u8>>::empty());
    } else {
        let front = entries.drop_last();
        let entry = entries.last();
        assert(distinct_owners(front)) by {
            assert forall|i: int, j: int| 0 <= i < j < front.len() implies (#[trigger] front[i]).owner
                != (#[trigger] front[j]).owner by {
                assert(entries[i].owner != entries[j].owner);
            }
        }
        assert(!has_owner(front, entry.owner)) by {
            if has_owner(front, entry.owner) {
                let j = index_of(front, entry.owner);
                assert(0 <= j < front.len() && front[j].owner == entry.owner);
                assert(entries[j].owner != entries[entries.len() - 1].owner);
            }
        }
        lemma_domain(front);
        lemma_push(front, entry);
        assert(front.push(entry) =~= entries);
        assert(records_of(entries).dom() =~= records_of(front).dom().insert(entry.owner));
    }
}

} // verus!
