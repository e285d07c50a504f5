use moderation::audit::AuditLog;
use moderation::dispatch::{action_for, aggregate, record_ad_hoc_outcomes, record_policy_outcomes,
    Action};
use moderation::models::Punishment;

#[test]
fn aggregate_partitions_in_input_order() {
    let targets = vec![1, 2, 3, 4, 5];
    let ok = vec![true, false, false, true, true];
    let (succeeded, failed) = aggregate(&targets, &ok);
    assert_eq!(succeeded, vec![1, 4, 5]);
    assert_eq!(failed, vec![2, 3]);
}

#[test]
fn aggregate_of_empty_batch_is_empty() {
    let (succeeded, failed) = aggregate(&Vec::new(), &Vec::new());
    assert_eq!(succeeded, Vec::<u64>::new());
    assert_eq!(failed, Vec::<u64>::new());
}

#[test]
fn record_writes_exactly_one_record_per_success() {
    let mut log = AuditLog::new();
    let targets = vec![11, 22, 33, 44];
    let ok = vec![true, false, true, false];
    let (succeeded, failed) = record_policy_outcomes(&mut log, 7, &targets, &ok, 500);
    assert_eq!(succeeded, vec![11, 33]);
    assert_eq!(failed, vec![22, 44]);
    let linked = log.linked_entries();
    assert_eq!(linked.len(), 2);
    assert_eq!(linked[0].user_id, 11);
    assert_eq!(linked[0].infraction_id, 7);
    assert_eq!(linked[0].id, 0);
    assert_eq!(linked[1].user_id, 33);
    assert_eq!(linked[1].id, 1);
    assert_eq!(log.ad_hoc_entries().len(), 0);
}

#[test]
fn record_keeps_earlier_records_in_place() {
    let mut log = AuditLog::new();
    record_policy_outcomes(&mut log, 7, &vec![11], &vec![true], 500);
    record_policy_outcomes(&mut log, 8, &vec![22], &vec![true], 600);
    let linked = log.linked_entries();
    assert_eq!(linked.len(), 2);
    assert_eq!(linked[0].user_id, 11);
    assert_eq!(linked[0].infraction_id, 7);
    assert_eq!(linked[1].user_id, 22);
    assert_eq!(linked[1].infraction_id, 8);
    assert_eq!(linked[1].id, 1);
}

#[test]
fn record_ad_hoc_writes_kind_and_duration() {
    let mut log = AuditLog::new();
    let targets = vec![5, 6];
    let ok = vec![false, true];
    let (succeeded, failed) = record_ad_hoc_outcomes(
        &mut log,
        Punishment::Ban,
        0,
        &targets,
        &ok,
        900,
    );
    assert_eq!(succeeded, vec![6]);
    assert_eq!(failed, vec![5]);
    let ad_hoc = log.ad_hoc_entries();
    assert_eq!(ad_hoc.len(), 1);
    assert_eq!(ad_hoc[0].user_id, 6);
    assert_eq!(ad_hoc[0].punishment, Punishment::Ban);
    assert_eq!(ad_hoc[0].duration, 0);
    assert_eq!(ad_hoc[0].created_at, 900);
    assert_eq!(log.linked_entries().len(), 0);
}

#[test]
fn action_mapping_matches_the_kinds() {
    let now = 100;
    assert_eq!(action_for(Punishment::Strike, now, 0), Action::Strike);
    assert_eq!(action_for(Punishment::Kick, now, 0), Action::Kick);
    assert_eq!(action_for(Punishment::Ban, now, 0), Action::Ban { purge_window_seconds: 0 });
    assert_eq!(action_for(Punishment::Unban, now, 0), Action::Unban);
    assert_eq!(action_for(Punishment::Untimeout, now, 0), Action::Untimeout);
    assert_eq!(action_for(Punishment::Timeout, now, 60), Action::Timeout { until: 160 });
}
