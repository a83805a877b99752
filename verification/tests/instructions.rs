use favorite_color_program::{
    fits, initialize, update_color, ErrorCode, Initialize, UpdateColor, UserColor, MAX_COLOR_LEN,
    RECORD_SPACE,
};

fn identity(fill: u8) -> [u8; 32] {
    [fill; 32]
}

fn text_of(len: usize) -> String {
    "a".repeat(len)
}

#[test]
fn bound_is_fifty_bytes() {
    assert_eq!(MAX_COLOR_LEN, 50);
    assert_eq!(RECORD_SPACE, 8 + 32 + 4 + 50);
}

#[test]
fn fits_at_the_bound_and_not_beyond() {
    assert!(fits(&String::new()));
    assert!(fits(&text_of(49)));
    assert!(fits(&text_of(50)));
    assert!(!fits(&text_of(51)));
    assert!(!fits(&text_of(500)));
}

#[test]
fn fits_counts_bytes_not_characters() {
    // 25 two-byte characters are 50 bytes; 26 are 52.
    assert!(fits(&"\u{e9}".repeat(25)));
    assert!(!fits(&"\u{e9}".repeat(26)));
    // 13 four-byte characters are 52 bytes.
    assert!(fits(&"\u{1f3a8}".repeat(12)));
    assert!(!fits(&"\u{1f3a8}".repeat(13)));
}

#[test]
fn blank_record_is_zeroed() {
    let record = UserColor::blank();
    assert_eq!(record.user, [0u8; 32]);
    assert_eq!(record.color, "");
}

#[test]
fn duplicate_copies_both_fields() {
    let record = UserColor { user: identity(7), color: String::from("teal") };
    let copy = record.duplicate();
    assert_eq!(copy.user, identity(7));
    assert_eq!(copy.color, "teal");
    assert_eq!(record.color, "teal");
}

#[test]
fn initialize_sets_owner_and_color() {
    let mut ctx = Initialize { user_color: UserColor::blank(), user: identity(1) };
    assert_eq!(initialize(&mut ctx, String::from("red")), Ok(()));
    assert_eq!(ctx.user_color.user, identity(1));
    assert_eq!(ctx.user_color.color, "red");
    assert_eq!(ctx.user, identity(1));
}

#[test]
fn initialize_accepts_fifty_bytes() {
    let mut ctx = Initialize { user_color: UserColor::blank(), user: identity(1) };
    assert_eq!(initialize(&mut ctx, text_of(50)), Ok(()));
    assert_eq!(ctx.user_color.color, text_of(50));
}

#[test]
fn initialize_refuses_fifty_one_bytes() {
    let mut ctx = Initialize { user_color: UserColor::blank(), user: identity(1) };
    assert_eq!(initialize(&mut ctx, text_of(51)), Err(ErrorCode::ColorTooLong));
    assert_eq!(ctx.user_color.user, [0u8; 32]);
    assert_eq!(ctx.user_color.color, "");
    assert_eq!(ctx.user, identity(1));
}

#[test]
fn initialize_accepts_empty_color() {
    let mut ctx = Initialize { user_color: UserColor::blank(), user: identity(3) };
    assert_eq!(initialize(&mut ctx, String::new()), Ok(()));
    assert_eq!(ctx.user_color.user, identity(3));
    assert_eq!(ctx.user_color.color, "");
}

#[test]
fn update_color_overwrites_color_only() {
    let record = UserColor { user: identity(1), color: String::from("red") };
    let mut ctx = UpdateColor { user_color: record, user: identity(1) };
    assert_eq!(update_color(&mut ctx, String::from("blue")), Ok(()));
    assert_eq!(ctx.user_color.user, identity(1));
    assert_eq!(ctx.user_color.color, "blue");
}

#[test]
fn update_color_leaves_stored_owner_alone() {
    // The write never touches the owner field, whoever the caller is.
    let record = UserColor { user: identity(1), color: String::from("red") };
    let mut ctx = UpdateColor { user_color: record, user: identity(2) };
    assert_eq!(update_color(&mut ctx, String::from("blue")), Ok(()));
    assert_eq!(ctx.user_color.user, identity(1));
    assert_eq!(ctx.user, identity(2));
}

#[test]
fn update_color_refuses_fifty_one_bytes() {
    let record = UserColor { user: identity(1), color: String::from("green") };
    let mut ctx = UpdateColor { user_color: record, user: identity(1) };
    assert_eq!(update_color(&mut ctx, text_of(51)), Err(ErrorCode::ColorTooLong));
    assert_eq!(ctx.user_color.user, identity(1));
    assert_eq!(ctx.user_color.color, "green");
}

#[test]
fn update_color_accepts_fifty_bytes() {
    let record = UserColor { user: identity(1), color: String::from("green") };
    let mut ctx = UpdateColor { user_color: record, user: identity(1) };
    assert_eq!(update_color(&mut ctx, text_of(50)), Ok(()));
    assert_eq!(ctx.user_color.color, text_of(50));
}
