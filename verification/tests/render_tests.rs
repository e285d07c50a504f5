use moderation::models::{AnimalModel, BangPointModel, InfractionModel, Punishment, Severity, Tag,
    UserInfractionModel};
use moderation::render::{format_infraction, format_infractions_list, format_tags,
    format_user_ids_list, format_user_infractions, i64_to_string, parse_animals, parse_ranking,
    u64_to_string};

#[test]
fn renders_unsigned_numbers() {
    assert_eq!(u64_to_string(0), "0");
    assert_eq!(u64_to_string(7), "7");
    assert_eq!(u64_to_string(1042), "1042");
    assert_eq!(u64_to_string(u64::MAX), "18446744073709551615");
}

#[test]
fn renders_signed_numbers() {
    assert_eq!(i64_to_string(0), "0");
    assert_eq!(i64_to_string(-1), "-1");
    assert_eq!(i64_to_string(-42), "-42");
    assert_eq!(i64_to_string(i64::MIN), "-9223372036854775808");
    assert_eq!(i64_to_string(i64::MAX), "9223372036854775807");
}

#[test]
fn renders_one_infraction() {
    let m = InfractionModel { id: 3, severity: Severity::Mid, punishment: Punishment::Timeout, duration: 3600 };
    assert_eq!(
        format_infraction(m),
        ":information_source: ID: 3\n:information_source: Severity: Mid\n:information_source: Punishment: Timeout\n:information_source: Duration: 3600\r\n"
    );
}

#[test]
fn renders_infraction_listing() {
    let rows = vec![
        InfractionModel { id: 1, severity: Severity::Low, punishment: Punishment::Strike, duration: 0 },
        InfractionModel { id: 2, severity: Severity::High, punishment: Punishment::Ban, duration: 0 },
    ];
    assert_eq!(
        format_infractions_list(&rows),
        "- ID: `1` | Severity: `Low` | Punishment: `Strike` | Duration: `0`\n- ID: `2` | Severity: `High` | Punishment: `Ban` | Duration: `0`"
    );
    assert_eq!(format_infractions_list(&Vec::new()), "No infractions in table!");
}

#[test]
fn renders_user_infraction_history() {
    let rows = vec![UserInfractionModel { id: 0, user_id: 111, infraction_id: 1, created_at: 99 }];
    assert_eq!(
        format_user_infractions(&rows),
        "- ID: `0` | User ID: `111` | Infraction ID: `1` | Created At: `99`"
    );
    assert_eq!(format_user_infractions(&Vec::new()), "User has no infractions!");
}

#[test]
fn renders_animal_listing() {
    let rows = vec![
        AnimalModel { id: 1, animal: "capy".to_string(), emoji: ":c:".to_string(), points: 5 },
        AnimalModel { id: 2, animal: "owl".to_string(), emoji: ":o:".to_string(), points: -2 },
    ];
    assert_eq!(
        parse_animals(&rows),
        "- `capy` | `:c:` | `5` points\n- `owl` | `:o:` | `-2` points"
    );
    assert_eq!(parse_animals(&Vec::new()), "No animals!");
}

#[test]
fn renders_ranking_listing() {
    let rows = vec![
        BangPointModel { user_id: "111".to_string(), points: 12 },
        BangPointModel { user_id: "222".to_string(), points: 3 },
    ];
    assert_eq!(parse_ranking(&rows), "- `111` | `12` points\n- `222` | `3` points");
    assert_eq!(parse_ranking(&Vec::new()), "No one is ranked!");
}

#[test]
fn renders_tag_listing() {
    let tag = |id: i64, name: &str| Tag {
        id,
        name: name.to_string(),
        content: "body".to_string(),
        owner: "111".to_string(),
    };
    assert_eq!(format_tags(Some(vec![tag(1, "hello"), tag(2, "rules")])), "- hello\n- rules");
    assert_eq!(format_tags(Some(Vec::new())), "");
    assert_eq!(format_tags(None), "");
}

#[test]
fn renders_target_mention_list() {
    assert_eq!(format_user_ids_list(vec![11, 22]), "- <@11>\n- <@22>");
    assert_eq!(format_user_ids_list(Vec::new()), "");
}
