use cigarette_counter::commands::{
    buttons_for, create_cigarette_buttons, format_daily_summary, handle_interaction,
    reply_content, BotError,
};
use cigarette_counter::config::{Config, ConfigError};
use cigarette_counter::database::{
    DailySmokingSummary, Database, SmokingType, StoreError, Timestamp,
};
use cigarette_counter::decimal::DecodeError;

fn at(day: i32, second: u32) -> Timestamp {
    Timestamp { day, second }
}

fn entry(id: i32, name: &str, description: Option<&str>) -> SmokingType {
    SmokingType {
        id,
        name: name.to_string(),
        description: description.map(|text| text.to_string()),
        created_at: None,
    }
}

fn store() -> Database {
    let mut db = Database::new();
    db.insert_smoking_type(entry(42, "heated", Some("加熱式"))).unwrap();
    db.insert_smoking_type(entry(7, "paper", Some("紙巻き"))).unwrap();
    db
}

fn row(description: &str, total: Option<i64>) -> DailySmokingSummary {
    DailySmokingSummary {
        discord_id: "42".to_string(),
        username: "alice".to_string(),
        smoke_date: 10,
        name: "n".to_string(),
        description: description.to_string(),
        total_quantity: total,
    }
}

#[test]
fn buttons_carry_token_and_id_in_catalog_order() {
    let db = store();
    let buttons = create_cigarette_buttons(&db, "abc123def").unwrap();
    assert_eq!(buttons.len(), 2);
    assert_eq!(buttons[0].custom_id, "abc123def7");
    assert_eq!(buttons[0].label, "紙巻き");
    assert_eq!(buttons[1].custom_id, "abc123def42");
    assert_eq!(buttons[1].label, "加熱式");
}

#[test]
fn buttons_for_labels_a_missing_description_with_nothing() {
    let buttons = buttons_for(&vec![entry(5, "x", None), entry(-3, "y", Some("z"))], "t");
    assert_eq!(buttons[0].custom_id, "t5");
    assert_eq!(buttons[0].label, "");
    assert_eq!(buttons[1].custom_id, "t-3");
    assert_eq!(buttons[1].label, "z");
    assert!(buttons_for(&Vec::new(), "t").is_empty());
}

#[test]
fn format_writes_one_line_for_each_row() {
    let text = format_daily_summary(vec![row("紙巻き", Some(3)), row("加熱式", Some(12))]);
    assert_eq!(text, "\n紙巻き: 3本\n加熱式: 12本");
}

#[test]
fn format_of_no_rows_is_empty() {
    assert_eq!(format_daily_summary(Vec::new()), "");
}

#[test]
fn format_leaves_out_rows_with_a_total_of_zero() {
    let text = format_daily_summary(vec![
        row("a", Some(0)),
        row("b", Some(-2)),
        row("c", None),
        row("d", Some(1)),
    ]);
    assert_eq!(text, "\nb: -2本\nd: 1本");
}

#[test]
fn reply_begins_with_the_header() {
    assert_eq!(reply_content(Vec::new()), "記録しました。\n本日の累計本数");
    assert_eq!(
        reply_content(vec![row("紙巻き", Some(1))]),
        "記録しました。\n本日の累計本数\n紙巻き: 1本"
    );
}

#[test]
fn press_logs_one_and_answers_with_the_total() {
    let mut db = store();
    let first = handle_interaction(&mut db, "1001", "alice", "abc123def42", "abc123def", at(10, 5));
    assert_eq!(first.unwrap(), "記録しました。\n本日の累計本数\n加熱式: 1本");
    let second = handle_interaction(&mut db, "1001", "alice", "abc123def42", "abc123def", at(10, 6));
    assert_eq!(second.unwrap(), "記録しました。\n本日の累計本数\n加熱式: 2本");
    let third = handle_interaction(&mut db, "1001", "alice", "abc123def7", "abc123def", at(10, 7));
    assert_eq!(third.unwrap(), "記録しました。\n本日の累計本数\n紙巻き: 1本\n加熱式: 2本");
    let next_day = handle_interaction(&mut db, "1001", "alice", "abc123def7", "abc123def", at(11, 0));
    assert_eq!(next_day.unwrap(), "記録しました。\n本日の累計本数\n紙巻き: 1本");
    assert_eq!(db.user_exists("1001"), Ok(true));
}

#[test]
fn press_with_a_suffix_that_is_no_number_writes_no_log() {
    let mut db = store();
    let answer = handle_interaction(&mut db, "1001", "alice", "abc123defXY", "abc123def", at(10, 5));
    assert_eq!(answer, Err(BotError::Decode(DecodeError::InvalidDigit)));
    assert!(db.get_daily_summary("1001", 10).unwrap().is_empty());
    assert_eq!(db.user_exists("1001"), Ok(true));
    let log = db.log_smoking("1001", 42, 1, at(10, 6)).unwrap();
    assert_eq!(log.id, 1);
}

#[test]
fn press_for_a_type_outside_the_catalog_is_refused() {
    let mut db = store();
    let answer = handle_interaction(&mut db, "1001", "alice", "abc8", "abc", at(10, 5));
    assert_eq!(answer, Err(BotError::Database(StoreError::ForeignKeyViolation)));
    assert!(db.get_daily_summary("1001", 10).unwrap().is_empty());
}

#[test]
fn press_renews_the_display_name() {
    let mut db = store();
    handle_interaction(&mut db, "1001", "alice", "t42", "t", at(10, 5)).unwrap();
    handle_interaction(&mut db, "1001", "alicia", "t42", "t", at(10, 6)).unwrap();
    let summary = db.get_daily_summary("1001", 10).unwrap();
    assert_eq!(summary[0].username, "alicia");
    assert_eq!(summary[0].total_quantity, Some(2));
}

#[test]
fn two_users_have_their_own_totals() {
    let mut db = store();
    handle_interaction(&mut db, "1", "alice", "a42", "a", at(10, 5)).unwrap();
    let bob = handle_interaction(&mut db, "2", "bob", "b42", "b", at(10, 6)).unwrap();
    assert_eq!(bob, "記録しました。\n本日の累計本数\n加熱式: 1本");
}

#[test]
fn config_needs_token_and_url() {
    let url = Some("postgres://localhost/db".to_string());
    let token = Some("token".to_string());
    assert_eq!(Config::load(None, url.clone(), None).unwrap_err(), ConfigError::MissingBotToken);
    assert_eq!(Config::load(None, None, None).unwrap_err(), ConfigError::MissingBotToken);
    assert_eq!(
        Config::load(token.clone(), None, Some("!".to_string())).unwrap_err(),
        ConfigError::MissingDatabaseUrl
    );
    let config = Config::load(token, url, None).unwrap();
    assert_eq!(config.bot_token, "token");
    assert_eq!(config.database_url, "postgres://localhost/db");
    assert_eq!(config.command_prefix, "c:");
}

#[test]
fn config_takes_the_prefix_that_is_set() {
    let config = Config::load(Some("t".to_string()), Some("u".to_string()), Some("!".to_string()))
        .unwrap();
    assert_eq!(config.command_prefix, "!");
}

#[test]
fn config_error_texts() {
    assert_eq!(ConfigError::MissingBotToken.message(), "Missing BOT_TOKEN environment variable");
    assert_eq!(
        ConfigError::MissingDatabaseUrl.message(),
        "Missing DATABASE_URL environment variable"
    );
}

#[test]
fn error_texts_name_what_failed() {
    assert_eq!(
        BotError::Config(ConfigError::MissingBotToken).message(),
        "Configuration error: Missing BOT_TOKEN environment variable"
    );
    assert_eq!(
        BotError::Database(StoreError::RowNotFound).message(),
        "Database connection error: no row was found"
    );
    assert_eq!(
        BotError::Decode(DecodeError::InvalidDigit).message(),
        "Failed to parse cigarette ID: invalid digit found in string"
    );
}

#[test]
fn decode_error_texts() {
    assert_eq!(
        DecodeError::Empty.message(),
        "Failed to parse cigarette ID: cannot parse integer from empty string"
    );
    assert_eq!(
        DecodeError::PosOverflow.message(),
        "Failed to parse cigarette ID: number too large to fit in target type"
    );
    assert_eq!(
        DecodeError::NegOverflow.message(),
        "Failed to parse cigarette ID: number too small to fit in target type"
    );
}

#[test]
fn store_error_texts() {
    assert_eq!(StoreError::UniqueViolation.message(), "a row with this key exists already");
    assert_eq!(
        StoreError::ForeignKeyViolation.message(),
        "the row refers to a row that does not exist"
    );
    assert_eq!(StoreError::OutOfRange.message(), "no row number is left");
}
