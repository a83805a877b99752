//! The two guarded writes, each on the accounts it is handed.

use vstd::prelude::*;
use crate::error::ErrorCode;
use crate::record::{color_fits, fits, RecordView, UserColor};

verus! {

/// What creating a record works on.
#[derive(Debug)]
pub struct Initialize {
    /// The freshly allocated record to fill in.
    pub user_color: UserColor,
    /// Identity of the authenticated caller.
    pub user: [u8; 32],
}

/// What overwriting a record works on.
#[derive(Debug)]
pub struct UpdateColor {
    /// The caller's existing record.
    pub user_color: UserColor,
    /// Identity of the authenticated caller.
    pub user: [u8; 32],
}

/// Fills in a new record: the caller becomes its owner and `color` its color.
///
/// Succeeds exactly when the color is within the bound; a refused call leaves
/// the accounts as they were.
pub fn initialize(ctx: &mut Initialize, color: String) -> (outcome: Result<(), ErrorCode>)
    ensures
        outcome is Ok <==> color_fits(color@),
        outcome is Ok ==> final(ctx).user == old(ctx).user && final(ctx).user_color@ == (RecordView {
            owner: old(ctx).user@,
            color: color@,
        }),
        outcome is Ok ==> final(ctx).user_color.well_formed(),
        outcome is Err ==> outcome == Err::<(), ErrorCode>(ErrorCode::ColorTooLong) && *final(ctx)
            == *old(ctx),
{
    if !fits(&color) {
        return Err(ErrorCode::ColorTooLong);
    }
    ctx.user_color.user = ctx.user;
    ctx.user_color.color = color;
    Ok(())
}

/// Overwrites the color of an existing record and nothing else.
///
/// Succeeds exactly when the new color is within the bound; a refused call
/// leaves the accounts as they were.
pub fn update_color(ctx: &mut UpdateColor, new_color: String) -> (outcome: Result<(), ErrorCode>)
    ensures
        outcome is Ok <==> color_fits(new_color@),
        outcome is Ok ==> final(ctx).user == old(ctx).user && final(ctx).user_color.user == old(
            ctx,
        ).user_color.user && final(ctx).user_color.color@ == new_color@,
        outcome is Ok ==> final(ctx).user_color.well_formed(),
        outcome is Err ==> outcome == Err::<(), ErrorCode>(ErrorCode::ColorTooLong) && *final(ctx)
            == *old(ctx),
{
    if !fits(&new_color) {
        return Err(ErrorCode::ColorTooLong);
    }
    ctx.user_color.color = new_color;
    Ok(())
}

} // verus!
