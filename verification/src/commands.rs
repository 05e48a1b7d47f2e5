//! The command's own logic: the panel of buttons, the listener's choice for
//! each button press, the handling of a press and the text of the reply.

use crate::button::{
    belongs_to, button_custom_id, button_id_spec, extract_cigarette_id, extract_spec, has_token,
    lemma_no_cross_dispatch,
};
use crate::config::ConfigError;
use crate::database::{
    has_type, lemma_upsert_stores_name, summary_views, type_rows, users_after_upsert,
    DailySmokingSummary, DailySmokingSummaryView, Database, DatabaseView, SmokingLogView,
    SmokingType, SmokingTypeView, StoreError, Timestamp,
};
use crate::decimal::{append_decimal, decimal_int, DecodeError};
use vstd::prelude::*;
use vstd::string::*;

verus! {

/// What ends a unit of work: a missing setting, a refusal of the store or a
/// button identifier that does not decode.
#[derive(Clone, Copy, Debug, PartialEq, Eq, Structural)]
pub enum BotError {
    Config(ConfigError),
    Database(StoreError),
    Decode(DecodeError),
}

impl BotError {
    /// The text of the error: what failed, then the text of the cause.
    pub open spec fn message_spec(self) -> Seq<char> {
        match self {
            BotError::Config(e) => "Configuration error: "@ + e.message_spec(),
            BotError::Database(e) => "Database connection error: "@ + e.message_spec(),
            BotError::Decode(e) => e.message_spec(),
        }
    }

    /// The text of the error.
    pub fn message(&self) -> (r: String)
        ensures
            r@ == self.message_spec(),
    {
        match self {
            BotError::Config(e) => {
                let cause = e.message();
                String::from_str("Configuration error: ").concat(cause.as_str())
            },
            BotError::Database(e) => {
                let cause = e.message();
                String::from_str("Database connection error: ").concat(cause.as_str())
            },
            BotError::Decode(e) => e.message(),
        }
    }
}

/// A button of the panel: its identifier and the text it shows.
#[derive(Debug)]
pub struct Button {
    pub custom_id: String,
    pub label: String,
}

/// The mathematical value of a `Button`.
pub struct ButtonView {
    pub custom_id: Seq<char>,
    pub label: Seq<char>,
}

impl View for Button {
    type V = ButtonView;

    open spec fn view(&self) -> ButtonView {
        ButtonView { custom_id: self.custom_id@, label: self.label@ }
    }
}

/// The values of the buttons in `buttons`, in their order.
pub open spec fn button_views(buttons: Seq<Button>) -> Seq<ButtonView> {
    Seq::new(buttons.len(), |i: int| buttons[i]@)
}

/// The button that a panel with `token` shows for a catalog entry: the token
/// followed by the entry's identifier, labelled with the entry's description.
pub open spec fn button_of(token: Seq<char>, smoking_type: SmokingTypeView) -> ButtonView {
    ButtonView {
        custom_id: button_id_spec(token, smoking_type.id as int),
        label: match smoking_type.description {
            Some(text) => text,
            None => Seq::<char>::empty(),
        },
    }
}

/// The panel for a catalog: one button for each entry, in the catalog's order.
pub open spec fn buttons_of(token: Seq<char>, types: Seq<SmokingTypeView>) -> Seq<ButtonView> {
    Seq::new(types.len(), |i: int| button_of(token, types[i]))
}

/// Builds the panel's buttons for the catalog rows `types`.
pub fn buttons_for(types: &Vec<SmokingType>, uuid: &str) -> (r: Vec<Button>)
    ensures
        button_views(r@) == buttons_of(uuid@, type_rows(types@)),
{
    let mut out: Vec<Button> = Vec::new();
    let mut i: usize = 0;
    while i < types.len()
        invariant
            i <= types@.len(),
            out@.len() == i,
            forall|k: int| 0 <= k < i ==> (#[trigger] out@[k])@ == button_of(uuid@, types@[k]@),
        decreases types@.len() - i,
    {
        let smoking_type = &types[i];
        let label = match &smoking_type.description {
            Some(text) => text.clone(),
            None => String::new(),
        };
        out.push(Button { custom_id: button_custom_id(uuid, smoking_type.id), label });
        i = i + 1;
    }
    proof {
        assert(button_views(out@) =~= buttons_of(uuid@, type_rows(types@)));
    }
    out
}

/// Reads the catalog and builds the panel's buttons for it.
pub fn create_cigarette_buttons(db: &Database, uuid: &str) -> (r: Result<Vec<Button>, BotError>)
    requires
        db@.wf(),
    ensures
        r.is_ok(),
        button_views(r.unwrap()@) == buttons_of(uuid@, db@.types),
{
    match db.get_smoking_types() {
        Ok(types) => Ok(buttons_for(&types, uuid)),
        Err(e) => Err(BotError::Database(e)),
    }
}

/// The sum that a summary row shows: 0 where the row has none.
pub open spec fn shown_total(row: DailySmokingSummaryView) -> int {
    match row.total_quantity {
        Some(total) => total as int,
        None => 0,
    }
}

/// The line of the reply for one summary row: a line break, the description,
/// the sum and the unit. A row whose sum is 0 gives no line.
pub open spec fn summary_line(row: DailySmokingSummaryView) -> Seq<char> {
    if shown_total(row) == 0 {
        Seq::<char>::empty()
    } else {
        "\n"@ + row.description + ": "@ + decimal_int(shown_total(row)) + "本"@
    }
}

/// The lines of the reply for the summary rows, in their order.
pub open spec fn format_daily_summary_spec(rows: Seq<DailySmokingSummaryView>) -> Seq<char>
    decreases rows.len(),
{
    if rows.len() == 0 {
        Seq::<char>::empty()
    } else {
        format_daily_summary_spec(rows.drop_last()) + summary_line(rows.last())
    }
}

/// The reply to a button press: the fixed header, then the lines of the summary.
pub open spec fn reply_content_spec(rows: Seq<DailySmokingSummaryView>) -> Seq<char> {
    "記録しました。\n本日の累計本数"@ + format_daily_summary_spec(rows)
}

/// Appends the lines of the reply for the summary rows to `out`.
fn append_summary_lines(out: &mut String, daily_summary: &Vec<DailySmokingSummary>)
    ensures
        final(out)@ == old(out)@ + format_daily_summary_spec(summary_views(daily_summary@)),
{
    let ghost rows = summary_views(daily_summary@);
    let mut i: usize = 0;
    while i < daily_summary.len()
        invariant
            rows == summary_views(daily_summary@),
            i <= daily_summary@.len(),
            out@ == old(out)@ + format_daily_summary_spec(rows.take(i as int)),
        decreases daily_summary@.len() - i,
    {
        proof {
            assert(rows.take(i + 1).drop_last() =~= rows.take(i as int));
            assert(rows.take(i + 1).last() == daily_summary@[i as int]@);
        }
        let row = &daily_summary[i];
        let total: i64 = match row.total_quantity {
            Some(total) => total,
            None => 0,
        };
        if total != 0 {
            let ghost before = out@;
            out.append("\n");
            out.append(row.description.as_str());
            out.append(": ");
            append_decimal(out, total);
            out.append("本");
            proof {
                assert(out@ =~= before + summary_line(row@));
            }
        }
        proof {
            assert(out@ =~= old(out)@ + format_daily_summary_spec(rows.take(i + 1)));
        }
        i = i + 1;
    }
    proof {
        assert(rows.take(i as int) =~= rows);
    }
}

/// Formats the daily summary: for each row with a sum other than 0, in the
/// rows' order, a line break, the description, `": "`, the sum and `"本"`.
pub fn format_daily_summary(daily_summary: Vec<DailySmokingSummary>) -> (r: String)
    ensures
        r@ == format_daily_summary_spec(summary_views(daily_summary@)),
{
    let mut out = String::new();
    append_summary_lines(&mut out, &daily_summary);
    proof {
        assert(out@ =~= format_daily_summary_spec(summary_views(daily_summary@)));
    }
    out
}

/// The text of the reply to a button press, for the presser's daily summary.
pub fn reply_content(daily_summary: Vec<DailySmokingSummary>) -> (r: String)
    ensures
        r@ == reply_content_spec(summary_views(daily_summary@)),
{
    let mut out = String::from_str("記録しました。\n本日の累計本数");
    append_summary_lines(&mut out, &daily_summary);
    out
}

/// What the listener does with what the event source hands it.
#[derive(Clone, Copy, Debug, PartialEq, Eq, Structural)]
pub enum Step {
    /// A press of one of the panel's own buttons: handle it.
    Handle,
    /// A press of another panel's button: leave it alone and go on listening.
    Skip,
    /// The event source is exhausted: the command ends.
    Stop,
}

/// The listener's choice, given the token of its panel.
pub open spec fn next_step_spec(pressed: Option<Seq<char>>, token: Seq<char>) -> Step {
    match pressed {
        None => Step::Stop,
        Some(custom_id) => if belongs_to(custom_id, token) {
            Step::Handle
        } else {
            Step::Skip
        },
    }
}

/// Decides what the listener of the panel with token `uuid` does next:
/// `pressed` is the identifier of the button that was pressed, or `None`
/// where no further event arrives.
pub fn next_step(pressed: Option<&str>, uuid: &str) -> (r: Step)
    ensures
        r == next_step_spec(
            match pressed {
                Some(custom_id) => Some(custom_id@),
                None => None,
            },
            uuid@,
        ),
{
    match pressed {
        None => Step::Stop,
        Some(custom_id) => if has_token(custom_id, uuid) {
            Step::Handle
        } else {
            Step::Skip
        },
    }
}

/// The log row that a press writes: quantity 1, numbered behind the rows
/// that are there, at the time of the press.
pub open spec fn pressed_log(
    logs: Seq<SmokingLogView>,
    user_id: Seq<char>,
    type_id: i32,
    now: Timestamp,
) -> SmokingLogView {
    SmokingLogView {
        id: (logs.len() + 1) as i32,
        discord_id: user_id,
        smoking_type_id: type_id,
        quantity: 1,
        smoked_at: now,
        created_at: Some(now),
        updated_at: Some(now),
    }
}

/// The store after a press was handled: the presser's row is created or
/// renewed in any case; the log row is written where the button's identifier
/// decodes to a smoking type of the catalog and a row number is left.
pub open spec fn store_after_press(
    store: DatabaseView,
    user_id: Seq<char>,
    user_name: Seq<char>,
    custom_id: Seq<char>,
    token: Seq<char>,
    now: Timestamp,
) -> DatabaseView {
    let users = users_after_upsert(store.users, user_id, user_name, now);
    match extract_spec(custom_id, token) {
        Ok(type_id) => if has_type(store.types, type_id) && store.logs.len() < i32::MAX {
            DatabaseView {
                users,
                logs: store.logs.push(pressed_log(store.logs, user_id, type_id, now)),
                ..store
            }
        } else {
            DatabaseView { users, ..store }
        },
        Err(_) => DatabaseView { users, ..store },
    }
}

/// What handling a press answers: the reply with the presser's summary of
/// the day of the press, or the error that ended the handling.
pub open spec fn answer_to_press(
    store: DatabaseView,
    user_id: Seq<char>,
    user_name: Seq<char>,
    custom_id: Seq<char>,
    token: Seq<char>,
    now: Timestamp,
) -> Result<Seq<char>, BotError> {
    match extract_spec(custom_id, token) {
        Err(e) => Err(BotError::Decode(e)),
        Ok(type_id) => if !has_type(store.types, type_id) {
            Err(BotError::Database(StoreError::ForeignKeyViolation))
        } else if store.logs.len() >= i32::MAX {
            Err(BotError::Database(StoreError::OutOfRange))
        } else {
            Ok(
                reply_content_spec(
                    store_after_press(
                        store,
                        user_id,
                        user_name,
                        custom_id,
                        token,
                        now,
                    ).daily_summary(user_id, now.day),
                ),
            )
        },
    }
}

/// A press whose button identifier does not decode writes no log row and
/// leaves the catalog as it is; only the presser's row is created or renewed.
pub proof fn lemma_undecodable_press_writes_no_log(
    store: DatabaseView,
    user_id: Seq<char>,
    user_name: Seq<char>,
    custom_id: Seq<char>,
    token: Seq<char>,
    now: Timestamp,
)
    requires
        extract_spec(custom_id, token).is_err(),
    ensures
        store_after_press(store, user_id, user_name, custom_id, token, now).logs == store.logs,
        store_after_press(store, user_id, user_name, custom_id, token, now).types == store.types,
        answer_to_press(store, user_id, user_name, custom_id, token, now).is_err(),
{
}

/// Handles one button press: resolves or creates the presser, decodes the
/// smoking type from the button's identifier, logs quantity 1 and answers
/// with the presser's summary of the day. An identifier that does not decode
/// ends the handling before any log row is written.
pub fn handle_interaction(
    db: &mut Database,
    user_id: &str,
    user_name: &str,
    custom_id: &str,
    uuid: &str,
    now: Timestamp,
) -> (r: Result<String, BotError>)
    requires
        old(db)@.wf(),
    ensures
        final(db)@.wf(),
        final(db)@ == store_after_press(old(db)@, user_id@, user_name@, custom_id@, uuid@, now),
        match answer_to_press(old(db)@, user_id@, user_name@, custom_id@, uuid@, now) {
            Ok(text) => r.is_ok() && r.unwrap()@ == text,
            Err(e) => r == Err::<String, BotError>(e),
        },
{
    proof {
        lemma_upsert_stores_name(old(db)@.users, user_id@, user_name@, now);
    }
    let user = match db.get_or_create_user(user_id, user_name, now) {
        Ok(user) => user,
        Err(e) => {
            return Err(BotError::Database(e));
        },
    };
    let cigarette_id = match extract_cigarette_id(custom_id, uuid) {
        Ok(id) => id,
        Err(e) => {
            return Err(BotError::Decode(e));
        },
    };
    match db.log_smoking(user.discord_id.as_str(), cigarette_id, 1, now) {
        Ok(_) => {},
        Err(e) => {
            return Err(BotError::Database(e));
        },
    }
    match db.get_daily_summary(user.discord_id.as_str(), now.day) {
        Ok(daily_summary) => Ok(reply_content(daily_summary)),
        Err(e) => Err(BotError::Database(e)),
    }
}

/// A button press as the event source hands it on: who pressed, under which
/// display name, which button, and when.
#[derive(Debug)]
pub struct Press {
    pub user_id: String,
    pub user_name: String,
    pub custom_id: String,
    pub at: Timestamp,
}

/// The mathematical value of a `Press`.
pub struct PressView {
    pub user_id: Seq<char>,
    pub user_name: Seq<char>,
    pub custom_id: Seq<char>,
    pub at: Timestamp,
}

impl View for Press {
    type V = PressView;

    open spec fn view(&self) -> PressView {
        PressView {
            user_id: self.user_id@,
            user_name: self.user_name@,
            custom_id: self.custom_id@,
            at: self.at,
        }
    }
}

/// The values of the presses in `presses`, in their order.
pub open spec fn press_views(presses: Seq<Press>) -> Seq<PressView> {
    Seq::new(presses.len(), |i: int| presses[i]@)
}

/// The texts in `texts`, in their order.
pub open spec fn text_views(texts: Seq<String>) -> Seq<Seq<char>> {
    Seq::new(texts.len(), |i: int| texts[i]@)
}

/// The text that the panel is sent with.
pub open spec fn panel_title_spec() -> Seq<char> {
    "喫煙カウント"@
}

/// The text that the panel is sent with.
pub fn panel_title() -> (r: String)
    ensures
        r@ == panel_title_spec(),
{
    String::from_str("喫煙カウント")
}

/// What one invocation of the command has sent: the panel with its title,
/// the replies to the presses it handled, and how it ended.
#[derive(Debug)]
pub struct Session {
    pub title: String,
    pub buttons: Vec<Button>,
    pub replies: Vec<String>,
    pub outcome: Result<(), BotError>,
}

/// The state of an invocation: the store, the replies sent so far, and
/// whether an error has ended it.
pub struct SessionView {
    pub store: DatabaseView,
    pub replies: Seq<Seq<char>>,
    pub outcome: Result<(), BotError>,
}

/// The invocation with token `token` after the first `n` of `presses` were
/// offered to it: a press of another panel's button is left alone, a press of
/// its own is handled, and the first error ends it.
pub open spec fn session_after(
    store: DatabaseView,
    token: Seq<char>,
    presses: Seq<PressView>,
    n: int,
) -> SessionView
    decreases n,
{
    if n <= 0 {
        SessionView { store, replies: Seq::empty(), outcome: Ok(()) }
    } else {
        let before = session_after(store, token, presses, n - 1);
        let press = presses[n - 1];
        if before.outcome.is_err() || next_step_spec(Some(press.custom_id), token) != Step::Handle {
            before
        } else {
            let after = store_after_press(
                before.store,
                press.user_id,
                press.user_name,
                press.custom_id,
                token,
                press.at,
            );
            match answer_to_press(
                before.store,
                press.user_id,
                press.user_name,
                press.custom_id,
                token,
                press.at,
            ) {
                Ok(text) => SessionView {
                    store: after,
                    replies: before.replies.push(text),
                    outcome: Ok(()),
                },
                Err(e) => SessionView { store: after, replies: before.replies, outcome: Err(e) },
            }
        }
    }
}

/// An invocation that an error has ended stays as it is, whatever is pressed
/// afterwards.
pub proof fn lemma_session_ends_at_first_error(
    store: DatabaseView,
    token: Seq<char>,
    presses: Seq<PressView>,
    n: int,
    m: int,
)
    requires
        0 <= n <= m,
        session_after(store, token, presses, n).outcome.is_err(),
    ensures
        session_after(store, token, presses, m) == session_after(store, token, presses, n),
    decreases m - n,
{
    if n < m {
        lemma_session_ends_at_first_error(store, token, presses, n, m - 1);
    }
}

/// A press of a button of another panel, whose token and this panel's do
/// not begin with one another, changes nothing in this panel's invocation.
pub proof fn lemma_foreign_press_is_left_alone(
    store: DatabaseView,
    token: Seq<char>,
    other: Seq<char>,
    type_id: int,
    presses: Seq<PressView>,
    n: int,
)
    requires
        0 < n <= presses.len(),
        !token.is_prefix_of(other),
        !other.is_prefix_of(token),
        presses[n - 1].custom_id == button_id_spec(other, type_id),
    ensures
        next_step_spec(Some(button_id_spec(other, type_id)), token) == Step::Skip,
        session_after(store, token, presses, n) == session_after(store, token, presses, n - 1),
{
    lemma_no_cross_dispatch(other, token, type_id);
}

/// Runs one invocation of the command with the token `uuid`: builds the
/// panel from the catalog, then takes the presses in their order, handles
/// those of its own buttons and ends at the first error or when the presses
/// are exhausted.
pub fn create_cigarette_ui(db: &mut Database, uuid: &str, presses: &Vec<Press>) -> (r: Session)
    requires
        old(db)@.wf(),
    ensures
        final(db)@.wf(),
        r.title@ == panel_title_spec(),
        button_views(r.buttons@) == buttons_of(uuid@, old(db)@.types),
        final(db)@ == session_after(
            old(db)@,
            uuid@,
            press_views(presses@),
            presses@.len() as int,
        ).store,
        text_views(r.replies@) == session_after(
            old(db)@,
            uuid@,
            press_views(presses@),
            presses@.len() as int,
        ).replies,
        r.outcome == session_after(
            old(db)@,
            uuid@,
            press_views(presses@),
            presses@.len() as int,
        ).outcome,
{
    let buttons = match create_cigarette_buttons(db, uuid) {
        Ok(buttons) => buttons,
        Err(e) => {
            return Session {
                title: panel_title(),
                buttons: Vec::new(),
                replies: Vec::new(),
                outcome: Err(e),
            };
        },
    };
    let ghost events = press_views(presses@);
    let mut replies: Vec<String> = Vec::new();
    let mut i: usize = 0;
    proof {
        assert(text_views(replies@) =~= session_after(old(db)@, uuid@, events, 0).replies);
    }
    while i < presses.len()
        invariant
            events == press_views(presses@),
            i <= presses@.len(),
            db@.wf(),
            button_views(buttons@) == buttons_of(uuid@, old(db)@.types),
            db@ == session_after(old(db)@, uuid@, events, i as int).store,
            text_views(replies@) == session_after(old(db)@, uuid@, events, i as int).replies,
            session_after(old(db)@, uuid@, events, i as int).outcome == Ok::<(), BotError>(()),
        decreases presses@.len() - i,
    {
        let press = &presses[i];
        proof {
            assert(events[i as int] == press@);
        }
        match next_step(Some(press.custom_id.as_str()), uuid) {
            Step::Handle => {
                let ghost sent = text_views(replies@);
                match handle_interaction(
                    db,
                    press.user_id.as_str(),
                    press.user_name.as_str(),
                    press.custom_id.as_str(),
                    uuid,
                    press.at,
                ) {
                    Ok(text) => {
                        let ghost added = text@;
                        replies.push(text);
                        proof {
                            assert(text_views(replies@) =~= sent.push(added));
                        }
                    },
                    Err(e) => {
                        proof {
                            lemma_session_ends_at_first_error(
                                old(db)@,
                                uuid@,
                                events,
                                i + 1,
                                presses@.len() as int,
                            );
                        }
                        return Session { title: panel_title(), buttons, replies, outcome: Err(e) };
                    },
                }
            },
            _ => {},
        }
        i = i + 1;
    }
    Session { title: panel_title(), buttons, replies, outcome: Ok(()) }
}

} // verus!
