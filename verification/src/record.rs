//! The stored record and the bound on its text.

use vstd::prelude::*;
use vstd::utf8::encode_utf8;

verus! {

/// Largest number of bytes a stored color may take.
pub const MAX_COLOR_LEN: usize = 50;

/// Bytes reserved for one record: an 8-byte tag, the 32-byte owner, a 4-byte
/// length prefix and the color at its longest.
pub const RECORD_SPACE: usize = 94;

/// Number of bytes a color takes once encoded, which is what the bound counts.
pub open spec fn color_len(color: Seq<char>) -> nat {
    encode_utf8(color).len()
}

/// Whether a color is short enough to be stored.
pub open spec fn color_fits(color: Seq<char>) -> bool {
    color_len(color) <= MAX_COLOR_LEN
}

/// Bytes that a record with this color occupies in its fixed layout.
pub open spec fn stored_len(color: Seq<char>) -> nat {
    8 + 32 + 4 + color_len(color)
}

/// What a record is: who owns it, and the color it holds.
pub struct RecordView {
    pub owner: Seq<u8>,
    pub color: Seq<char>,
}

/// The record kept for one owner.
#[derive(Debug)]
pub struct UserColor {
    /// Identity of the creator. Set once, at creation.
    pub user: [u8; 32],
    /// The owner's current color.
    pub color: String,
}

impl View for UserColor {
    type V = RecordView;

    open spec fn view(&self) -> RecordView {
        RecordView { owner: self.user@, color: self.color@ }
    }
}

impl UserColor {
    /// The invariant of every stored record: its color is within the bound.
    pub open spec fn well_formed(&self) -> bool {
        color_fits(self.color@)
    }

    /// A record as freshly allocated storage holds it: no owner yet, no color.
    pub fn blank() -> (record: UserColor)
        ensures
            record.user@ == Seq::new(32, |i: int| 0u8),
            record.color@ == Seq::<char>::empty(),
    {
        let record = UserColor { user: [0u8; 32], color: String::new() };
        assert(record.user@ =~= Seq::new(32, |i: int| 0u8));
        record
    }

    /// An independent copy of the record.
    pub fn duplicate(&self) -> (copy: UserColor)
        ensures
            copy == *self,
    {
        UserColor { user: self.user, color: self.color.clone() }
    }
}

/// Decides whether a color is short enough to be stored.
pub fn fits(color: &String) -> (ok: bool)
    ensures
        ok == color_fits(color@),
{
    let bytes = color.as_str().as_bytes();
    bytes.len() <= MAX_COLOR_LEN
}

/// A record that satisfies its invariant never outgrows the space reserved
/// for it.
pub proof fn lemma_record_fits_space(record: UserColor)
    requires
        record.well_formed(),
    ensures
        stored_len(record.color@) <= RECORD_SPACE,
{
}

} // verus!
