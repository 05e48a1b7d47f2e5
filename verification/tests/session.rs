use cigarette_counter::button::button_custom_id;
use cigarette_counter::commands::{create_cigarette_ui, BotError, Press};
use cigarette_counter::database::{Database, SmokingType, Timestamp};
use cigarette_counter::decimal::DecodeError;

fn catalog() -> Database {
    let mut db = Database::new();
    for (id, description) in [(2, "加熱式"), (1, "紙巻き")] {
        db.insert_smoking_type(SmokingType {
            id,
            name: format!("type{id}"),
            description: Some(description.to_string()),
            created_at: None,
        })
        .unwrap();
    }
    db
}

fn press(user: &str, custom_id: &str, second: u32) -> Press {
    Press {
        user_id: user.to_string(),
        user_name: format!("user{user}"),
        custom_id: custom_id.to_string(),
        at: Timestamp { day: 20, second },
    }
}

#[test]
fn session_without_presses_only_shows_the_panel() {
    let mut db = catalog();
    let session = create_cigarette_ui(&mut db, "900", &Vec::new());
    assert_eq!(session.outcome, Ok(()));
    assert!(session.replies.is_empty());
    assert_eq!(session.title, "喫煙カウント");
    let ids: Vec<&str> = session.buttons.iter().map(|b| b.custom_id.as_str()).collect();
    assert_eq!(ids, vec!["9001", "9002"]);
    let labels: Vec<&str> = session.buttons.iter().map(|b| b.label.as_str()).collect();
    assert_eq!(labels, vec!["紙巻き", "加熱式"]);
}

#[test]
fn session_answers_each_press_of_its_own_buttons() {
    let mut db = catalog();
    let presses = vec![press("5", "9001", 1), press("5", "9001", 2), press("6", "9002", 3)];
    let session = create_cigarette_ui(&mut db, "900", &presses);
    assert_eq!(session.outcome, Ok(()));
    assert_eq!(
        session.replies,
        vec![
            "記録しました。\n本日の累計本数\n紙巻き: 1本",
            "記録しました。\n本日の累計本数\n紙巻き: 2本",
            "記録しました。\n本日の累計本数\n加熱式: 1本",
        ]
    );
}

#[test]
fn session_leaves_the_buttons_of_another_panel_alone() {
    let mut db = catalog();
    let own = button_custom_id("1100000000000000001", 1);
    let foreign = button_custom_id("1100000000000000002", 1);
    let presses = vec![press("5", &foreign, 1), press("5", &own, 2), press("7", &foreign, 3)];
    let session = create_cigarette_ui(&mut db, "1100000000000000001", &presses);
    assert_eq!(session.outcome, Ok(()));
    assert_eq!(session.replies, vec!["記録しました。\n本日の累計本数\n紙巻き: 1本"]);
    assert_eq!(db.user_exists("5"), Ok(true));
    assert_eq!(db.user_exists("7"), Ok(false));
}

#[test]
fn session_ends_at_the_first_error() {
    let mut db = catalog();
    let presses = vec![press("5", "9001", 1), press("5", "900XY", 2), press("5", "9001", 3)];
    let session = create_cigarette_ui(&mut db, "900", &presses);
    assert_eq!(session.outcome, Err(BotError::Decode(DecodeError::InvalidDigit)));
    assert_eq!(session.replies.len(), 1);
    let summary = db.get_daily_summary("5", 20).unwrap();
    assert_eq!(summary.len(), 1);
    assert_eq!(summary[0].total_quantity, Some(1));
}
