use moderation::audit::AuditLog;
use moderation::auth::RankTable;
use moderation::catalog::Catalog;
use moderation::dispatch::{plan_actions, Action};
use moderation::engine::punish;
use moderation::errors::EngineError;
use moderation::models::{Punishment, Severity};

fn catalog_with_strike_policy() -> Catalog {
    let mut catalog = Catalog::new();
    catalog.create(1, Severity::Low, Punishment::Strike, 0).unwrap();
    catalog
}

#[test]
fn punish_by_policy_writes_one_linked_record_per_success() {
    let catalog = catalog_with_strike_policy();
    let mut log = AuditLog::new();
    let mut ranks = RankTable::new();
    ranks.push(111, 1);
    ranks.push(222, 2);
    let outcomes = vec![true, true];

    let report = punish(&catalog, &mut log, 1, "<@111> <@222> spam", 5, &ranks, &outcomes, 1000)
        .unwrap();

    assert_eq!(report.succeeded, vec![111, 222]);
    assert_eq!(report.failed, Vec::<u64>::new());
    assert_eq!(report.policy.id, 1);
    assert_eq!(report.policy.punishment, Punishment::Strike);

    let linked = log.linked_entries();
    assert_eq!(linked.len(), 2);
    assert_eq!(linked[0].user_id, 111);
    assert_eq!(linked[1].user_id, 222);
    assert_eq!(linked[0].infraction_id, 1);
    assert_eq!(linked[1].infraction_id, 1);
    assert_eq!(linked[0].id, 0);
    assert_eq!(linked[1].id, 1);
    assert_eq!(log.ad_hoc_entries().len(), 0);
}

#[test]
fn strike_policy_attempts_one_private_warning_per_target() {
    let targets = vec![111, 222];
    let planned = plan_actions(&targets, Punishment::Strike, 1_700_000_000, 0);
    assert_eq!(planned, vec![(111, Action::Strike), (222, Action::Strike)]);
}

#[test]
fn punish_fails_unauthorized_when_issuer_is_below_one_target() {
    let catalog = catalog_with_strike_policy();
    let mut log = AuditLog::new();
    let mut ranks = RankTable::new();
    ranks.push(111, 1);
    ranks.push(222, 9);
    let outcomes = vec![true, true];

    let res = punish(&catalog, &mut log, 1, "<@111> <@222> spam", 5, &ranks, &outcomes, 1000);

    assert_eq!(res.err(), Some(EngineError::Unauthorized { target: 222 }));
    assert_eq!(log.linked_entries().len(), 0);
    assert_eq!(log.ad_hoc_entries().len(), 0);
}

#[test]
fn punish_fails_unauthorized_on_unknown_rank() {
    let catalog = catalog_with_strike_policy();
    let mut log = AuditLog::new();
    let mut ranks = RankTable::new();
    ranks.push(111, 1);
    let outcomes = vec![true, true];

    let res = punish(&catalog, &mut log, 1, "<@111> <@222>", 5, &ranks, &outcomes, 1000);

    assert_eq!(res.err(), Some(EngineError::Unauthorized { target: 222 }));
    assert_eq!(log.linked_entries().len(), 0);
}

#[test]
fn punish_fails_not_found_for_absent_policy() {
    let catalog = catalog_with_strike_policy();
    let mut log = AuditLog::new();
    let mut ranks = RankTable::new();
    ranks.push(111, 1);
    let outcomes = vec![true];

    let res = punish(&catalog, &mut log, 99, "<@111> spam", 5, &ranks, &outcomes, 1000);

    assert_eq!(res.err(), Some(EngineError::NotFound));
    assert_eq!(log.linked_entries().len(), 0);
    assert_eq!(log.ad_hoc_entries().len(), 0);
}

#[test]
fn punish_fails_invalid_input_without_targets() {
    let catalog = catalog_with_strike_policy();
    let mut log = AuditLog::new();
    let ranks = RankTable::new();
    let outcomes = Vec::<bool>::new();

    let res = punish(&catalog, &mut log, 1, "spam only", 5, &ranks, &outcomes, 1000);

    assert_eq!(res.err(), Some(EngineError::InvalidInput));
    assert_eq!(log.linked_entries().len(), 0);
}

#[test]
fn punish_reports_partial_success_in_input_order() {
    let catalog = catalog_with_strike_policy();
    let mut log = AuditLog::new();
    let mut ranks = RankTable::new();
    ranks.push(10, 1);
    ranks.push(20, 1);
    ranks.push(30, 1);
    let outcomes = vec![true, false, true];

    let report = punish(&catalog, &mut log, 1, "10 20 30", 5, &ranks, &outcomes, 77).unwrap();

    assert_eq!(report.succeeded, vec![10, 30]);
    assert_eq!(report.failed, vec![20]);
    let linked = log.linked_entries();
    assert_eq!(linked.len(), 2);
    assert_eq!(linked[0].user_id, 10);
    assert_eq!(linked[1].user_id, 30);
    assert_eq!(linked[0].created_at, 77);
}

#[test]
fn timeout_policy_computes_expiry_and_reads_back() {
    let mut catalog = Catalog::new();
    catalog.create(2, Severity::Mid, Punishment::Timeout, 3600).unwrap();
    let policy = catalog.get(2).unwrap();
    let now = 1_700_000_000;

    let action = moderation::dispatch::action_for(policy.punishment, now, policy.duration as u64);
    assert_eq!(action, Action::Timeout { until: now + 3600 });

    match action {
        Action::Timeout { until } => {
            assert_eq!(moderation::duration::from_absolute(now, until), 3600);
        },
        _ => panic!("expected a timeout action"),
    }
}

#[test]
fn error_descriptions_name_the_failure() {
    assert_eq!(
        EngineError::InvalidInput.describe(),
        "no targets resolved from the input"
    );
    assert_eq!(
        EngineError::Unauthorized { target: 1 }.describe(),
        "issuer does not outrank every target"
    );
    assert_eq!(EngineError::NotFound.describe(), "no policy with the requested id");
    assert_eq!(
        EngineError::AlreadyExists.describe(),
        "a policy with this id already exists"
    );
    assert_eq!(
        EngineError::PersistenceFailed.describe(),
        "an audit record could not be written"
    );
}

#[test]
fn handle_setup_error_builds_the_abort_message() {
    assert_eq!(
        moderation::errors::handle_setup_error("no token"),
        "Failed to start bot: no token"
    );
}
