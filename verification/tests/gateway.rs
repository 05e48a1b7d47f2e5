use cigarette_counter::database::{Database, SmokingType, StoreError, Timestamp};

fn at(day: i32, second: u32) -> Timestamp {
    Timestamp { day, second }
}

fn entry(id: i32, name: &str, description: Option<&str>) -> SmokingType {
    SmokingType {
        id,
        name: name.to_string(),
        description: description.map(|text| text.to_string()),
        created_at: Some(at(1, 0)),
    }
}

fn store() -> Database {
    let mut db = Database::new();
    db.insert_smoking_type(entry(2, "heated", Some("加熱式"))).unwrap();
    db.insert_smoking_type(entry(1, "paper", Some("紙巻き"))).unwrap();
    db.insert_smoking_type(entry(3, "other", None)).unwrap();
    db
}

#[test]
fn get_or_create_twice_with_one_name_writes_once() {
    let mut db = Database::new();
    let first = db.get_or_create_user("42", "alice", at(10, 5)).unwrap();
    let second = db.get_or_create_user("42", "alice", at(11, 6)).unwrap();
    assert_eq!(first.discord_id, "42");
    assert_eq!(second.discord_id, first.discord_id);
    assert_eq!(second.username, "alice");
    assert_eq!(second.created_at, Some(at(10, 5)));
    assert_eq!(second.updated_at, Some(at(10, 5)));
    assert_eq!(db.create_user("42", "alice", at(12, 0)).unwrap_err(), StoreError::UniqueViolation);
}

#[test]
fn get_or_create_with_another_name_stores_it() {
    let mut db = Database::new();
    db.get_or_create_user("42", "alice", at(10, 5)).unwrap();
    let renamed = db.get_or_create_user("42", "alicia", at(11, 6)).unwrap();
    assert_eq!(renamed.discord_id, "42");
    assert_eq!(renamed.username, "alicia");
    assert_eq!(renamed.created_at, Some(at(10, 5)));
    assert_eq!(renamed.updated_at, Some(at(11, 6)));
    let again = db.get_or_create_user("42", "alicia", at(12, 7)).unwrap();
    assert_eq!(again.username, "alicia");
    assert_eq!(again.updated_at, Some(at(11, 6)));
}

#[test]
fn get_or_create_keeps_users_apart() {
    let mut db = Database::new();
    db.get_or_create_user("1", "alice", at(1, 0)).unwrap();
    db.get_or_create_user("2", "bob", at(1, 1)).unwrap();
    db.get_or_create_user("1", "alicia", at(1, 2)).unwrap();
    assert_eq!(db.get_or_create_user("2", "bob", at(1, 3)).unwrap().updated_at, Some(at(1, 1)));
    assert_eq!(db.get_or_create_user("1", "alicia", at(1, 4)).unwrap().updated_at, Some(at(1, 2)));
}

#[test]
fn create_user_inserts_once() {
    let mut db = Database::new();
    assert_eq!(db.user_exists("7"), Ok(false));
    let user = db.create_user("7", "carol", at(3, 9)).unwrap();
    assert_eq!(user.discord_id, "7");
    assert_eq!(user.username, "carol");
    assert_eq!(user.created_at, Some(at(3, 9)));
    assert_eq!(user.updated_at, Some(at(3, 9)));
    assert_eq!(db.user_exists("7"), Ok(true));
    assert_eq!(db.user_exists("8"), Ok(false));
    assert_eq!(db.create_user("7", "dave", at(4, 0)).unwrap_err(), StoreError::UniqueViolation);
    assert_eq!(db.get_or_create_user("7", "carol", at(5, 0)).unwrap().updated_at, Some(at(3, 9)));
}

#[test]
fn catalog_is_listed_in_ascending_order() {
    let db = store();
    let listed = db.get_smoking_types().unwrap();
    let ids: Vec<i32> = listed.iter().map(|t| t.id).collect();
    assert_eq!(ids, vec![1, 2, 3]);
    assert_eq!(listed[0].name, "paper");
    assert_eq!(listed[1].description.as_deref(), Some("加熱式"));
    assert_eq!(listed[2].description, None);
}

#[test]
fn catalog_listing_does_not_depend_on_insertion_order() {
    let orders = [[1, 2, 3], [1, 3, 2], [2, 1, 3], [2, 3, 1], [3, 1, 2], [3, 2, 1]];
    for order in orders {
        let mut db = Database::new();
        for id in order {
            db.insert_smoking_type(entry(id, "n", None)).unwrap();
        }
        let ids: Vec<i32> = db.get_smoking_types().unwrap().iter().map(|t| t.id).collect();
        assert_eq!(ids, vec![1, 2, 3]);
    }
}

#[test]
fn catalog_refuses_a_taken_identifier() {
    let mut db = store();
    assert_eq!(
        db.insert_smoking_type(entry(2, "again", None)),
        Err(StoreError::UniqueViolation)
    );
    assert_eq!(db.get_smoking_types().unwrap().len(), 3);
    assert_eq!(db.get_smoking_type(2).unwrap().name, "heated");
}

#[test]
fn catalog_lookup_by_identifier() {
    let db = store();
    let found = db.get_smoking_type(1).unwrap();
    assert_eq!(found.id, 1);
    assert_eq!(found.name, "paper");
    assert_eq!(db.get_smoking_type(9).unwrap_err(), StoreError::RowNotFound);
    assert_eq!(db.smoking_type_exists(3), Ok(true));
    assert_eq!(db.smoking_type_exists(0), Ok(false));
}

#[test]
fn log_numbers_rows_from_one() {
    let mut db = store();
    db.get_or_create_user("42", "alice", at(10, 0)).unwrap();
    let first = db.log_smoking("42", 1, 1, at(10, 30)).unwrap();
    let second = db.log_smoking("42", 2, 5, at(10, 31)).unwrap();
    assert_eq!(first.id, 1);
    assert_eq!(first.discord_id, "42");
    assert_eq!(first.smoking_type_id, 1);
    assert_eq!(first.quantity, 1);
    assert_eq!(first.smoked_at, at(10, 30));
    assert_eq!(second.id, 2);
    assert_eq!(second.quantity, 5);
}

#[test]
fn log_needs_user_and_type() {
    let mut db = store();
    assert_eq!(
        db.log_smoking("42", 1, 1, at(10, 30)).unwrap_err(),
        StoreError::ForeignKeyViolation
    );
    db.get_or_create_user("42", "alice", at(10, 0)).unwrap();
    assert_eq!(
        db.log_smoking("42", 9, 1, at(10, 30)).unwrap_err(),
        StoreError::ForeignKeyViolation
    );
    assert!(db.get_daily_summary("42", 10).unwrap().is_empty());
}

#[test]
fn one_log_gives_a_total_of_one_and_no_other_row() {
    let mut db = store();
    db.get_or_create_user("42", "alice", at(10, 0)).unwrap();
    db.log_smoking("42", 2, 1, at(10, 30)).unwrap();
    let summary = db.get_daily_summary("42", 10).unwrap();
    assert_eq!(summary.len(), 1);
    assert_eq!(summary[0].discord_id, "42");
    assert_eq!(summary[0].username, "alice");
    assert_eq!(summary[0].smoke_date, 10);
    assert_eq!(summary[0].name, "heated");
    assert_eq!(summary[0].description, "加熱式");
    assert_eq!(summary[0].total_quantity, Some(1));
}

#[test]
fn three_logs_give_a_total_of_three_and_leave_other_days() {
    let mut db = store();
    db.get_or_create_user("42", "alice", at(10, 0)).unwrap();
    db.log_smoking("42", 1, 1, at(10, 1)).unwrap();
    db.log_smoking("42", 1, 1, at(10, 2)).unwrap();
    db.log_smoking("42", 1, 1, at(10, 86399)).unwrap();
    let before = db.get_daily_summary("42", 10).unwrap();
    assert_eq!(before.len(), 1);
    assert_eq!(before[0].total_quantity, Some(3));
    db.log_smoking("42", 1, 1, at(11, 0)).unwrap();
    db.log_smoking("42", 1, 1, at(9, 86399)).unwrap();
    let after = db.get_daily_summary("42", 10).unwrap();
    assert_eq!(after.len(), 1);
    assert_eq!(after[0].total_quantity, Some(3));
    assert_eq!(db.get_daily_summary("42", 11).unwrap()[0].total_quantity, Some(1));
    assert!(db.get_daily_summary("42", 12).unwrap().is_empty());
}

#[test]
fn summary_sums_by_type_in_catalog_order_for_one_user() {
    let mut db = store();
    db.get_or_create_user("42", "alice", at(10, 0)).unwrap();
    db.get_or_create_user("43", "bob", at(10, 0)).unwrap();
    db.log_smoking("42", 3, 2, at(10, 1)).unwrap();
    db.log_smoking("43", 1, 7, at(10, 2)).unwrap();
    db.log_smoking("42", 1, 4, at(10, 3)).unwrap();
    db.log_smoking("42", 3, 5, at(10, 4)).unwrap();
    let summary = db.get_daily_summary("42", 10).unwrap();
    assert_eq!(summary.len(), 2);
    assert_eq!(summary[0].name, "paper");
    assert_eq!(summary[0].total_quantity, Some(4));
    assert_eq!(summary[1].name, "other");
    assert_eq!(summary[1].description, "");
    assert_eq!(summary[1].total_quantity, Some(7));
    let other = db.get_daily_summary("43", 10).unwrap();
    assert_eq!(other.len(), 1);
    assert_eq!(other[0].username, "bob");
    assert_eq!(other[0].total_quantity, Some(7));
}

#[test]
fn summary_sums_beyond_thirty_two_bits() {
    let mut db = store();
    db.get_or_create_user("42", "alice", at(10, 0)).unwrap();
    db.log_smoking("42", 1, i32::MAX, at(10, 1)).unwrap();
    db.log_smoking("42", 1, i32::MAX, at(10, 2)).unwrap();
    db.log_smoking("42", 2, i32::MIN, at(10, 3)).unwrap();
    db.log_smoking("42", 2, i32::MIN, at(10, 4)).unwrap();
    let summary = db.get_daily_summary("42", 10).unwrap();
    assert_eq!(summary[0].total_quantity, Some(4294967294));
    assert_eq!(summary[1].total_quantity, Some(-4294967296));
}

#[test]
fn summary_of_an_unknown_user_is_empty() {
    let db = store();
    assert!(db.get_daily_summary("nobody", 10).unwrap().is_empty());
}

#[test]
fn summary_shows_the_name_as_it_stands() {
    let mut db = store();
    db.get_or_create_user("42", "alice", at(10, 0)).unwrap();
    db.log_smoking("42", 1, 1, at(10, 1)).unwrap();
    db.get_or_create_user("42", "alicia", at(10, 2)).unwrap();
    assert_eq!(db.get_daily_summary("42", 10).unwrap()[0].username, "alicia");
}
