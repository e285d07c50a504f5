use moderation::catalog::Catalog;
use moderation::errors::EngineError;
use moderation::models::{InfractionModel, Punishment, Severity};

#[test]
fn create_and_get_policy() {
    let mut catalog = Catalog::new();
    let created = catalog.create(3, Severity::Mid, Punishment::Timeout, 3600).unwrap();
    assert_eq!(
        created,
        InfractionModel { id: 3, severity: Severity::Mid, punishment: Punishment::Timeout, duration: 3600 }
    );
    assert_eq!(catalog.get(3), Ok(created));
}

#[test]
fn get_missing_policy_fails_not_found() {
    let catalog = Catalog::new();
    assert_eq!(catalog.get(9), Err(EngineError::NotFound));
}

#[test]
fn create_duplicate_fails_and_catalog_is_unchanged() {
    let mut catalog = Catalog::new();
    catalog.create(1, Severity::Low, Punishment::Strike, 0).unwrap();
    catalog.create(2, Severity::High, Punishment::Ban, 0).unwrap();
    let before = catalog.list();
    let res = catalog.create(1, Severity::High, Punishment::Kick, 5);
    assert_eq!(res, Err(EngineError::AlreadyExists));
    let after = catalog.list();
    assert_eq!(before, after);
}

#[test]
fn list_is_ordered_by_id_ascending() {
    let mut catalog = Catalog::new();
    catalog.create(5, Severity::Low, Punishment::Strike, 0).unwrap();
    catalog.create(1, Severity::Mid, Punishment::Kick, 0).unwrap();
    catalog.create(3, Severity::High, Punishment::Ban, 0).unwrap();
    let ids: Vec<i32> = catalog.list().iter().map(|m| m.id).collect();
    assert_eq!(ids, vec![1, 3, 5]);
}

#[test]
fn update_replaces_record() {
    let mut catalog = Catalog::new();
    catalog.create(4, Severity::Low, Punishment::Strike, 0).unwrap();
    catalog.update(4, Severity::High, Punishment::Timeout, 60).unwrap();
    assert_eq!(
        catalog.get(4),
        Ok(InfractionModel { id: 4, severity: Severity::High, punishment: Punishment::Timeout, duration: 60 })
    );
}

#[test]
fn update_missing_policy_fails_not_found() {
    let mut catalog = Catalog::new();
    assert_eq!(catalog.update(8, Severity::Low, Punishment::Kick, 0), Err(EngineError::NotFound));
}

#[test]
fn delete_present_policy_removes_one_row() {
    let mut catalog = Catalog::new();
    catalog.create(2, Severity::Low, Punishment::Strike, 0).unwrap();
    assert_eq!(catalog.delete(2), 1);
    assert_eq!(catalog.get(2), Err(EngineError::NotFound));
}

#[test]
fn delete_missing_policy_returns_zero_without_error() {
    let mut catalog = Catalog::new();
    catalog.create(2, Severity::Low, Punishment::Strike, 0).unwrap();
    let before = catalog.list();
    assert_eq!(catalog.delete(77), 0);
    assert_eq!(catalog.list(), before);
}
