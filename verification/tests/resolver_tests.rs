use moderation::errors::EngineError;
use moderation::resolver::{resolve_targets, user_ids_from};

#[test]
fn test_user_ids_from() {
    let expected_ids = vec![1146444622176981142, 1242767296020353056];
    let message = "<@1146444622176981142> 1242767296020353056";
    let ids = user_ids_from(&message);
    assert_eq!(ids, expected_ids);
}

#[test]
fn resolves_tokens_in_order_with_duplicates() {
    let ids = user_ids_from("<@7> then 42, then <@7> again");
    assert_eq!(ids, vec![7, 42, 7]);
}

#[test]
fn resolves_nothing_from_plain_text() {
    let ids = user_ids_from("no numbers in here");
    assert_eq!(ids, Vec::<u64>::new());
}

#[test]
fn resolves_empty_input() {
    let ids = user_ids_from("");
    assert_eq!(ids, Vec::<u64>::new());
}

#[test]
fn keeps_largest_identifier() {
    let ids = user_ids_from("18446744073709551615");
    assert_eq!(ids, vec![u64::MAX]);
}

#[test]
fn skips_token_above_identifier_range() {
    let ids = user_ids_from("18446744073709551616 7");
    assert_eq!(ids, vec![7]);
}

#[test]
fn skips_very_long_token() {
    let ids = user_ids_from("99999999999999999999999999 12 0003");
    assert_eq!(ids, vec![12, 3]);
}

#[test]
fn token_ends_at_text_boundary() {
    let ids = user_ids_from("111>222");
    assert_eq!(ids, vec![111, 222]);
}

#[test]
fn resolve_targets_rejects_empty_resolution() {
    assert_eq!(resolve_targets("nothing"), Err(EngineError::InvalidInput));
}

#[test]
fn resolve_targets_returns_ids() {
    assert_eq!(resolve_targets("<@5> <@6>"), Ok(vec![5, 6]));
}
