use moderation::auth::{authorize, rank_targets, user_ids_below_user, AuthDecision, Rank,
    RankTable, RankedTarget};

fn ranked(id: u64, rank: Rank) -> RankedTarget {
    RankedTarget { id, rank }
}

#[test]
fn authorizes_when_issuer_outranks_every_target() {
    let targets = vec![ranked(1, Rank::Known(2)), ranked(2, Rank::Known(0))];
    assert_eq!(authorize(5, &targets), AuthDecision::Authorized);
}

#[test]
fn denies_on_equal_rank() {
    let targets = vec![ranked(1, Rank::Known(5))];
    assert_eq!(authorize(5, &targets), AuthDecision::Denied { target: 1 });
}

#[test]
fn denies_and_names_the_first_offender() {
    let targets = vec![
        ranked(1, Rank::Known(0)),
        ranked(2, Rank::Known(9)),
        ranked(3, Rank::Known(8)),
    ];
    assert_eq!(authorize(5, &targets), AuthDecision::Denied { target: 2 });
}

#[test]
fn unknown_rank_counts_as_highest() {
    let targets = vec![ranked(1, Rank::Known(0)), ranked(2, Rank::Unknown)];
    assert_eq!(authorize(u64::MAX, &targets), AuthDecision::Denied { target: 2 });
}

#[test]
fn empty_batch_is_authorized() {
    assert_eq!(authorize(0, &Vec::new()), AuthDecision::Authorized);
}

#[test]
fn below_filter_keeps_order_and_drops_unknowns() {
    let targets = vec![
        ranked(1, Rank::Known(1)),
        ranked(2, Rank::Unknown),
        ranked(3, Rank::Known(9)),
        ranked(4, Rank::Known(0)),
    ];
    assert_eq!(user_ids_below_user(5, &targets), vec![1, 4]);
}

#[test]
fn rank_table_reports_first_match_and_unknown() {
    let mut table = RankTable::new();
    table.push(7, 3);
    table.push(7, 9);
    assert_eq!(table.rank_of(7), Rank::Known(3));
    assert_eq!(table.rank_of(8), Rank::Unknown);
}

#[test]
fn rank_targets_pairs_ids_with_their_ranks() {
    let mut table = RankTable::new();
    table.push(7, 3);
    let paired = rank_targets(&table, &vec![7, 8]);
    assert_eq!(paired, vec![ranked(7, Rank::Known(3)), ranked(8, Rank::Unknown)]);
}
