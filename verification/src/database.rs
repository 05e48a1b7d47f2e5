//! The persistence gateway's rows and an in-memory gateway that states, over
//! plain sequences of rows, what each operation does to the store.

use vstd::prelude::*;
use vstd::string::*;

verus! {

/// A point in time: a day number and the second within that day.
#[derive(Clone, Copy, Debug, PartialEq, Eq, Structural)]
pub struct Timestamp {
    pub day: i32,
    pub second: u32,
}

/// Why the store refused an operation.
#[derive(Clone, Copy, Debug, PartialEq, Eq, Structural)]
pub enum StoreError {
    /// A row with the same key is already there.
    UniqueViolation,
    /// A row refers to a user or a smoking type that the store does not hold.
    ForeignKeyViolation,
    /// The row asked for is not there.
    RowNotFound,
    /// No identifier is left for a new row.
    OutOfRange,
}

impl StoreError {
    /// The text of the error.
    pub open spec fn message_spec(self) -> Seq<char> {
        match self {
            StoreError::UniqueViolation => "a row with this key exists already"@,
            StoreError::ForeignKeyViolation => "the row refers to a row that does not exist"@,
            StoreError::RowNotFound => "no row was found"@,
            StoreError::OutOfRange => "no row number is left"@,
        }
    }

    /// The text of the error.
    pub fn message(&self) -> (r: String)
        ensures
            r@ == self.message_spec(),
    {
        match self {
            StoreError::UniqueViolation => String::from_str("a row with this key exists already"),
            StoreError::ForeignKeyViolation => String::from_str(
                "the row refers to a row that does not exist",
            ),
            StoreError::RowNotFound => String::from_str("no row was found"),
            StoreError::OutOfRange => String::from_str("no row number is left"),
        }
    }
}

/// A user of the chat platform, known by the platform's identifier.
#[derive(Debug)]
pub struct User {
    pub discord_id: String,
    pub username: String,
    pub created_at: Option<Timestamp>,
    pub updated_at: Option<Timestamp>,
}

/// The mathematical value of a `User`.
pub struct UserView {
    pub discord_id: Seq<char>,
    pub username: Seq<char>,
    pub created_at: Option<Timestamp>,
    pub updated_at: Option<Timestamp>,
}

impl View for User {
    type V = UserView;

    open spec fn view(&self) -> UserView {
        UserView {
            discord_id: self.discord_id@,
            username: self.username@,
            created_at: self.created_at,
            updated_at: self.updated_at,
        }
    }
}

impl Clone for User {
    fn clone(&self) -> (r: Self)
        ensures
            r@ == self@,
    {
        User {
            discord_id: self.discord_id.clone(),
            username: self.username.clone(),
            created_at: self.created_at,
            updated_at: self.updated_at,
        }
    }
}

/// An entry of the catalog of smoking types.
#[derive(Debug)]
pub struct SmokingType {
    pub id: i32,
    pub name: String,
    pub description: Option<String>,
    pub created_at: Option<Timestamp>,
}

/// The mathematical value of a `SmokingType`.
pub struct SmokingTypeView {
    pub id: i32,
    pub name: Seq<char>,
    pub description: Option<Seq<char>>,
    pub created_at: Option<Timestamp>,
}

impl View for SmokingType {
    type V = SmokingTypeView;

    open spec fn view(&self) -> SmokingTypeView {
        SmokingTypeView {
            id: self.id,
            name: self.name@,
            description: match self.description {
                Some(text) => Some(text@),
                None => None,
            },
            created_at: self.created_at,
        }
    }
}

impl Clone for SmokingType {
    fn clone(&self) -> (r: Self)
        ensures
            r@ == self@,
    {
        SmokingType {
            id: self.id,
            name: self.name.clone(),
            description: match &self.description {
                Some(text) => Some(text.clone()),
                None => None,
            },
            created_at: self.created_at,
        }
    }
}

/// One logged event.
#[derive(Debug)]
pub struct SmokingLog {
    pub id: i32,
    pub discord_id: String,
    pub smoking_type_id: i32,
    pub quantity: i32,
    pub smoked_at: Timestamp,
    pub created_at: Option<Timestamp>,
    pub updated_at: Option<Timestamp>,
}

/// The mathematical value of a `SmokingLog`.
pub struct SmokingLogView {
    pub id: i32,
    pub discord_id: Seq<char>,
    pub smoking_type_id: i32,
    pub quantity: i32,
    pub smoked_at: Timestamp,
    pub created_at: Option<Timestamp>,
    pub updated_at: Option<Timestamp>,
}

impl View for SmokingLog {
    type V = SmokingLogView;

    open spec fn view(&self) -> SmokingLogView {
        SmokingLogView {
            id: self.id,
            discord_id: self.discord_id@,
            smoking_type_id: self.smoking_type_id,
            quantity: self.quantity,
            smoked_at: self.smoked_at,
            created_at: self.created_at,
            updated_at: self.updated_at,
        }
    }
}

impl Clone for SmokingLog {
    fn clone(&self) -> (r: Self)
        ensures
            r@ == self@,
    {
        SmokingLog {
            id: self.id,
            discord_id: self.discord_id.clone(),
            smoking_type_id: self.smoking_type_id,
            quantity: self.quantity,
            smoked_at: self.smoked_at,
            created_at: self.created_at,
            updated_at: self.updated_at,
        }
    }
}

/// The aggregate of one user's logs of one smoking type on one day.
#[derive(Debug)]
pub struct DailySmokingSummary {
    pub discord_id: String,
    pub username: String,
    pub smoke_date: i32,
    pub name: String,
    pub description: String,
    pub total_quantity: Option<i64>,
}

/// The mathematical value of a `DailySmokingSummary`.
pub struct DailySmokingSummaryView {
    pub discord_id: Seq<char>,
    pub username: Seq<char>,
    pub smoke_date: i32,
    pub name: Seq<char>,
    pub description: Seq<char>,
    pub total_quantity: Option<i64>,
}

impl View for DailySmokingSummary {
    type V = DailySmokingSummaryView;

    open spec fn view(&self) -> DailySmokingSummaryView {
        DailySmokingSummaryView {
            discord_id: self.discord_id@,
            username: self.username@,
            smoke_date: self.smoke_date,
            name: self.name@,
            description: self.description@,
            total_quantity: self.total_quantity,
        }
    }
}

impl Clone for DailySmokingSummary {
    fn clone(&self) -> (r: Self)
        ensures
            r@ == self@,
    {
        DailySmokingSummary {
            discord_id: self.discord_id.clone(),
            username: self.username.clone(),
            smoke_date: self.smoke_date,
            name: self.name.clone(),
            description: self.description.clone(),
            total_quantity: self.total_quantity,
        }
    }
}

/// The values of the catalog rows in `rows`, in their order.
pub open spec fn type_rows(rows: Seq<SmokingType>) -> Seq<SmokingTypeView> {
    Seq::new(rows.len(), |i: int| rows[i]@)
}

/// The values of the summary rows in `rows`, in their order.
pub open spec fn summary_views(rows: Seq<DailySmokingSummary>) -> Seq<DailySmokingSummaryView> {
    Seq::new(rows.len(), |i: int| rows[i]@)
}

/// What a get-or-create has to write, given what the lookup found.
#[derive(Clone, Copy, Debug, PartialEq, Eq, Structural)]
pub enum UserWrite {
    /// No row for the user: insert one.
    Insert,
    /// A row with another display name: update the name.
    Rename,
    /// A row with this display name: write nothing.
    Keep,
}

/// The write that a get-or-create owes: none where the stored name is the
/// supplied one.
pub open spec fn plan_user_write_spec(found: Option<UserView>, username: Seq<char>) -> UserWrite {
    match found {
        None => UserWrite::Insert,
        Some(user) => if user.username == username {
            UserWrite::Keep
        } else {
            UserWrite::Rename
        },
    }
}

/// Decides what a get-or-create writes once the lookup has answered.
pub fn plan_user_write(found: Option<&User>, username: &str) -> (r: UserWrite)
    ensures
        r == plan_user_write_spec(
            match found {
                Some(user) => Some(user@),
                None => None,
            },
            username@,
        ),
{
    match found {
        None => UserWrite::Insert,
        Some(user) => {
            let name = String::from_str(username);
            if user.username == name {
                UserWrite::Keep
            } else {
                UserWrite::Rename
            }
        },
    }
}

/// Whether some row of `users` has the identifier `id`.
pub open spec fn has_user(users: Seq<UserView>, id: Seq<char>) -> bool {
    exists|i: int| 0 <= i < users.len() && (#[trigger] users[i]).discord_id == id
}

/// The place of the row with identifier `id`, where there is one.
pub open spec fn user_position(users: Seq<UserView>, id: Seq<char>) -> int {
    choose|i: int| 0 <= i < users.len() && (#[trigger] users[i]).discord_id == id
}

/// No two rows share an identifier.
pub open spec fn users_unique(users: Seq<UserView>) -> bool {
    forall|i: int, j: int|
        0 <= i < j < users.len() ==> (#[trigger] users[i]).discord_id != (
        #[trigger] users[j]).discord_id
}

/// The row that a get-or-create returns.
pub open spec fn upserted_user(
    users: Seq<UserView>,
    id: Seq<char>,
    name: Seq<char>,
    now: Timestamp,
) -> UserView {
    if has_user(users, id) {
        let stored = users[user_position(users, id)];
        match plan_user_write_spec(Some(stored), name) {
            UserWrite::Keep => stored,
            _ => UserView { username: name, updated_at: Some(now), ..stored },
        }
    } else {
        UserView { discord_id: id, username: name, created_at: Some(now), updated_at: Some(now) }
    }
}

/// The user rows after a get-or-create.
pub open spec fn users_after_upsert(
    users: Seq<UserView>,
    id: Seq<char>,
    name: Seq<char>,
    now: Timestamp,
) -> Seq<UserView> {
    if has_user(users, id) {
        users.update(user_position(users, id), upserted_user(users, id, name, now))
    } else {
        users.push(upserted_user(users, id, name, now))
    }
}

/// Whether some row of `types` has the identifier `id`.
pub open spec fn has_type(types: Seq<SmokingTypeView>, id: i32) -> bool {
    exists|i: int| 0 <= i < types.len() && (#[trigger] types[i]).id == id
}

/// The place of the catalog row with identifier `id`, where there is one.
pub open spec fn type_position(types: Seq<SmokingTypeView>, id: i32) -> int {
    choose|i: int| 0 <= i < types.len() && (#[trigger] types[i]).id == id
}

/// The catalog rows stand in strictly ascending order of their identifiers.
pub open spec fn types_ascending(types: Seq<SmokingTypeView>) -> bool {
    forall|i: int, j: int|
        0 <= i < j < types.len() ==> (#[trigger] types[i]).id < (#[trigger] types[j]).id
}

/// The log rows are numbered from 1 in the order in which they were written,
/// and their numbers fit 32 bits.
pub open spec fn logs_numbered(logs: Seq<SmokingLogView>) -> bool {
    &&& logs.len() <= i32::MAX
    &&& forall|i: int| 0 <= i < logs.len() ==> (#[trigger] logs[i]).id == i + 1
}

/// Whether the log row `log` is one of `user` for `type_id` on `day`.
pub open spec fn log_counts(log: SmokingLogView, user: Seq<char>, type_id: i32, day: i32) -> bool {
    log.discord_id == user && log.smoking_type_id == type_id && log.smoked_at.day == day
}

/// How many rows of `logs` are of `user` for `type_id` on `day`.
pub open spec fn log_count(logs: Seq<SmokingLogView>, user: Seq<char>, type_id: i32, day: i32) -> nat
    decreases logs.len(),
{
    if logs.len() == 0 {
        0
    } else {
        log_count(logs.drop_last(), user, type_id, day) + if log_counts(
            logs.last(),
            user,
            type_id,
            day,
        ) {
            1nat
        } else {
            0nat
        }
    }
}

/// The sum of the quantities of the rows of `logs` that are of `user` for
/// `type_id` on `day`.
pub open spec fn total_quantity(
    logs: Seq<SmokingLogView>,
    user: Seq<char>,
    type_id: i32,
    day: i32,
) -> int
    decreases logs.len(),
{
    if logs.len() == 0 {
        0
    } else {
        total_quantity(logs.drop_last(), user, type_id, day) + if log_counts(
            logs.last(),
            user,
            type_id,
            day,
        ) {
            logs.last().quantity as int
        } else {
            0
        }
    }
}

/// The summary row of `user` for the catalog row `smoking_type` on `day`
/// with the sum `total`; a catalog row without description gives an empty one.
pub open spec fn summary_row(
    user: UserView,
    smoking_type: SmokingTypeView,
    day: i32,
    total: int,
) -> DailySmokingSummaryView {
    DailySmokingSummaryView {
        discord_id: user.discord_id,
        username: user.username,
        smoke_date: day,
        name: smoking_type.name,
        description: match smoking_type.description {
            Some(text) => text,
            None => Seq::<char>::empty(),
        },
        total_quantity: Some(total as i64),
    }
}

/// The summary rows of `user` on `day` for the first `upto` catalog rows: one
/// for each smoking type with a log that day, in the catalog's order.
pub open spec fn summary_rows(
    types: Seq<SmokingTypeView>,
    logs: Seq<SmokingLogView>,
    user: UserView,
    day: i32,
    upto: int,
) -> Seq<DailySmokingSummaryView>
    decreases upto,
{
    if upto <= 0 {
        Seq::empty()
    } else {
        let before = summary_rows(types, logs, user, day, upto - 1);
        let smoking_type = types[upto - 1];
        if log_count(logs, user.discord_id, smoking_type.id, day) > 0 {
            before.push(
                summary_row(
                    user,
                    smoking_type,
                    day,
                    total_quantity(logs, user.discord_id, smoking_type.id, day),
                ),
            )
        } else {
            before
        }
    }
}

/// The value of a store: its three tables, each as a sequence of rows.
pub struct DatabaseView {
    pub users: Seq<UserView>,
    pub types: Seq<SmokingTypeView>,
    pub logs: Seq<SmokingLogView>,
}

impl DatabaseView {
    /// What holds of every store: no two users share an identifier, the
    /// catalog is in ascending order and the logs are numbered from 1.
    pub open spec fn wf(self) -> bool {
        &&& users_unique(self.users)
        &&& types_ascending(self.types)
        &&& logs_numbered(self.logs)
    }

    /// The daily summary of `user` on `day`: the user's logs of that day
    /// joined with the user's row and the catalog, summed by smoking type.
    pub open spec fn daily_summary(self, user: Seq<char>, day: i32) -> Seq<DailySmokingSummaryView> {
        if has_user(self.users, user) {
            summary_rows(
                self.types,
                self.logs,
                self.users[user_position(self.users, user)],
                day,
                self.types.len() as int,
            )
        } else {
            Seq::empty()
        }
    }
}

/// The gateway to the store, held in memory.
pub struct Database {
    users: Vec<User>,
    types: Vec<SmokingType>,
    logs: Vec<SmokingLog>,
}

impl View for Database {
    type V = DatabaseView;

    closed spec fn view(&self) -> DatabaseView {
        DatabaseView {
            users: Seq::new(self.users@.len(), |i: int| self.users@[i]@),
            types: Seq::new(self.types@.len(), |i: int| self.types@[i]@),
            logs: Seq::new(self.logs@.len(), |i: int| self.logs@[i]@),
        }
    }
}

impl Database {
    /// An empty store.
    pub fn new() -> (r: Self)
        ensures
            r@.wf(),
            r@.users.len() == 0,
            r@.types.len() == 0,
            r@.logs.len() == 0,
    {
        Database { users: Vec::new(), types: Vec::new(), logs: Vec::new() }
    }

    /// The place of the user with identifier `key`.
    fn find_user(&self, key: &String) -> (r: Option<usize>)
        requires
            self@.wf(),
        ensures
            r.is_some() == has_user(self@.users, key@),
            r.is_some() ==> r.unwrap() as int == user_position(self@.users, key@),
            r.is_some() ==> r.unwrap() < self.users@.len(),
    {
        let mut i: usize = 0;
        while i < self.users.len()
            invariant
                self@.wf(),
                i <= self.users@.len(),
                forall|k: int| 0 <= k < i ==> (#[trigger] self@.users[k]).discord_id != key@,
            decreases self.users@.len() - i,
        {
            if self.users[i].discord_id == *key {
                proof {
                    assert(self@.users[i as int].discord_id == key@);
                    let chosen = user_position(self@.users, key@);
                    assert(self@.users[chosen].discord_id == key@);
                    assert(chosen == i);
                }
                return Some(i);
            }
            i = i + 1;
        }
        None
    }

    /// Whether a user with the identifier `discord_id` exists.
    pub fn user_exists(&self, discord_id: &str) -> (r: Result<bool, StoreError>)
        requires
            self@.wf(),
        ensures
            r == Ok::<bool, StoreError>(has_user(self@.users, discord_id@)),
    {
        let key = String::from_str(discord_id);
        Ok(self.find_user(&key).is_some())
    }

    /// Inserts a user; refused where the identifier is taken.
    pub fn create_user(&mut self, discord_id: &str, username: &str, now: Timestamp) -> (r: Result<
        User,
        StoreError,
    >)
        requires
            old(self)@.wf(),
        ensures
            final(self)@.wf(),
            has_user(old(self)@.users, discord_id@) ==> r == Err::<User, StoreError>(
                StoreError::UniqueViolation,
            ) && final(self)@ == old(self)@,
            !has_user(old(self)@.users, discord_id@) ==> r.is_ok() && r.unwrap()@ == (UserView {
                discord_id: discord_id@,
                username: username@,
                created_at: Some(now),
                updated_at: Some(now),
            }) && final(self)@.users == old(self)@.users.push(r.unwrap()@),
    {
        let key = String::from_str(discord_id);
        match self.find_user(&key) {
            Some(_) => Err(StoreError::UniqueViolation),
            None => {
                let row = User {
                    discord_id: key,
                    username: String::from_str(username),
                    created_at: Some(now),
                    updated_at: Some(now),
                };
                let out = row.clone();
                self.users.push(row);
                proof {
                    assert(self@.users =~= old(self)@.users.push(out@));
                }
                Ok(out)
            },
        }
    }

    /// Looks the user up and creates the row where there is none, or renews
    /// the display name where it differs; returns the row as it then stands.
    pub fn get_or_create_user(&mut self, discord_id: &str, username: &str, now: Timestamp) -> (r:
        Result<User, StoreError>)
        requires
            old(self)@.wf(),
        ensures
            final(self)@.wf(),
            r.is_ok(),
            r.unwrap()@ == upserted_user(old(self)@.users, discord_id@, username@, now),
            final(self)@.users == users_after_upsert(old(self)@.users, discord_id@, username@, now),
            final(self)@.types == old(self)@.types,
            final(self)@.logs == old(self)@.logs,
    {
        let key = String::from_str(discord_id);
        let found = self.find_user(&key);
        match found {
            Some(i) => {
                match plan_user_write(Some(&self.users[i]), username) {
                    UserWrite::Keep => {
                        let out = self.users[i].clone();
                        proof {
                            assert(self@.users =~= users_after_upsert(
                                old(self)@.users,
                                discord_id@,
                                username@,
                                now,
                            ));
                        }
                        Ok(out)
                    },
                    _ => {
                        let row = User {
                            discord_id: key,
                            username: String::from_str(username),
                            created_at: self.users[i].created_at,
                            updated_at: Some(now),
                        };
                        let out = row.clone();
                        self.users.set(i, row);
                        proof {
                            assert(self@.users =~= users_after_upsert(
                                old(self)@.users,
                                discord_id@,
                                username@,
                                now,
                            ));
                        }
                        Ok(out)
                    },
                }
            },
            None => {
                let row = User {
                    discord_id: key,
                    username: String::from_str(username),
                    created_at: Some(now),
                    updated_at: Some(now),
                };
                let out = row.clone();
                self.users.push(row);
                proof {
                    assert(self@.users =~= users_after_upsert(
                        old(self)@.users,
                        discord_id@,
                        username@,
                        now,
                    ));
                }
                Ok(out)
            },
        }
    }
}

impl Database {
    /// The place of the catalog row with identifier `id`.
    fn find_type(&self, id: i32) -> (r: Option<usize>)
        requires
            self@.wf(),
        ensures
            r.is_some() == has_type(self@.types, id),
            r.is_some() ==> r.unwrap() as int == type_position(self@.types, id),
            r.is_some() ==> r.unwrap() < self.types@.len(),
    {
        let mut i: usize = 0;
        while i < self.types.len()
            invariant
                self@.wf(),
                i <= self.types@.len(),
                forall|k: int| 0 <= k < i ==> (#[trigger] self@.types[k]).id != id,
            decreases self.types@.len() - i,
        {
            if self.types[i].id == id {
                proof {
                    assert(self@.types[i as int].id == id);
                    let chosen = type_position(self@.types, id);
                    assert(self@.types[chosen].id == id);
                    assert(chosen == i);
                }
                return Some(i);
            }
            i = i + 1;
        }
        None
    }

    /// Adds an entry to the catalog, at the place that its identifier gives
    /// it; refused where the identifier is taken.
    pub fn insert_smoking_type(&mut self, smoking_type: SmokingType) -> (r: Result<(), StoreError>)
        requires
            old(self)@.wf(),
        ensures
            final(self)@.wf(),
            final(self)@.users == old(self)@.users,
            final(self)@.logs == old(self)@.logs,
            has_type(old(self)@.types, smoking_type.id) ==> r == Err::<(), StoreError>(
                StoreError::UniqueViolation,
            ) && final(self)@ == old(self)@,
            !has_type(old(self)@.types, smoking_type.id) ==> r.is_ok() && exists|at: int|
                0 <= at <= old(self)@.types.len() && final(self)@.types == old(
                    self,
                )@.types.insert(at, smoking_type@),
    {
        let id: i32 = smoking_type.id;
        let mut at: usize = 0;
        while at < self.types.len() && self.types[at].id < id
            invariant
                self@ == old(self)@,
                self@.wf(),
                at <= self.types@.len(),
                forall|k: int| 0 <= k < at ==> (#[trigger] self@.types[k]).id < id,
            decreases self.types@.len() - at,
        {
            at = at + 1;
        }
        if at < self.types.len() && self.types[at].id == id {
            proof {
                assert(self@.types[at as int].id == id);
            }
            return Err(StoreError::UniqueViolation);
        }
        proof {
            assert forall|k: int| at <= k < self@.types.len() implies (
            #[trigger] self@.types[k]).id > id by {
                if k > at {
                    assert(self@.types[at as int].id < self@.types[k].id);
                }
            }
            assert(!has_type(self@.types, id));
        }
        let ghost row = smoking_type@;
        self.types.insert(at, smoking_type);
        proof {
            assert(self@.types =~= old(self)@.types.insert(at as int, row));
            assert(self@.users =~= old(self)@.users);
            assert(self@.logs =~= old(self)@.logs);
        }
        Ok(())
    }

    /// The whole catalog, in ascending order of the identifiers.
    pub fn get_smoking_types(&self) -> (r: Result<Vec<SmokingType>, StoreError>)
        requires
            self@.wf(),
        ensures
            r.is_ok(),
            type_rows(r.unwrap()@) == self@.types,
            types_ascending(type_rows(r.unwrap()@)),
    {
        let mut out: Vec<SmokingType> = Vec::new();
        let mut i: usize = 0;
        while i < self.types.len()
            invariant
                i <= self.types@.len(),
                out@.len() == i,
                forall|k: int| 0 <= k < i ==> (#[trigger] out@[k])@ == self@.types[k],
            decreases self.types@.len() - i,
        {
            out.push(self.types[i].clone());
            i = i + 1;
        }
        proof {
            assert(type_rows(out@) =~= self@.types);
        }
        Ok(out)
    }

    /// The catalog entry with identifier `id`; refused where there is none.
    pub fn get_smoking_type(&self, id: i32) -> (r: Result<SmokingType, StoreError>)
        requires
            self@.wf(),
        ensures
            !has_type(self@.types, id) ==> r == Err::<SmokingType, StoreError>(
                StoreError::RowNotFound,
            ),
            has_type(self@.types, id) ==> r.is_ok() && r.unwrap()@ == self@.types[type_position(
                self@.types,
                id,
            )] && r.unwrap().id == id,
    {
        match self.find_type(id) {
            Some(i) => Ok(self.types[i].clone()),
            None => Err(StoreError::RowNotFound),
        }
    }

    /// Whether the catalog has an entry with identifier `id`.
    pub fn smoking_type_exists(&self, id: i32) -> (r: Result<bool, StoreError>)
        requires
            self@.wf(),
        ensures
            r == Ok::<bool, StoreError>(has_type(self@.types, id)),
    {
        Ok(self.find_type(id).is_some())
    }

    /// Writes one log row for the user and the smoking type, at the time
    /// `now`. Refused where the user or the smoking type is not in the store,
    /// or where no row number is left.
    pub fn log_smoking(
        &mut self,
        discord_id: &str,
        smoking_type_id: i32,
        quantity: i32,
        now: Timestamp,
    ) -> (r: Result<SmokingLog, StoreError>)
        requires
            old(self)@.wf(),
        ensures
            final(self)@.wf(),
            final(self)@.users == old(self)@.users,
            final(self)@.types == old(self)@.types,
            r.is_err() ==> final(self)@.logs == old(self)@.logs,
            !has_user(old(self)@.users, discord_id@) || !has_type(
                old(self)@.types,
                smoking_type_id,
            ) ==> r == Err::<SmokingLog, StoreError>(StoreError::ForeignKeyViolation),
            has_user(old(self)@.users, discord_id@) && has_type(old(self)@.types, smoking_type_id)
                && old(self)@.logs.len() >= i32::MAX ==> r == Err::<SmokingLog, StoreError>(
                StoreError::OutOfRange,
            ),
            has_user(old(self)@.users, discord_id@) && has_type(old(self)@.types, smoking_type_id)
                && old(self)@.logs.len() < i32::MAX ==> r.is_ok() && r.unwrap()@ == (
            SmokingLogView {
                id: (old(self)@.logs.len() + 1) as i32,
                discord_id: discord_id@,
                smoking_type_id,
                quantity,
                smoked_at: now,
                created_at: Some(now),
                updated_at: Some(now),
            }) && final(self)@.logs == old(self)@.logs.push(r.unwrap()@),
    {
        let key = String::from_str(discord_id);
        if self.find_user(&key).is_none() || self.find_type(smoking_type_id).is_none() {
            return Err(StoreError::ForeignKeyViolation);
        }
        let count: usize = self.logs.len();
        if count >= 0x7fff_ffff {
            return Err(StoreError::OutOfRange);
        }
        let row = SmokingLog {
            id: (count + 1) as i32,
            discord_id: key,
            smoking_type_id,
            quantity,
            smoked_at: now,
            created_at: Some(now),
            updated_at: Some(now),
        };
        let out = row.clone();
        self.logs.push(row);
        proof {
            assert(self@.logs =~= old(self)@.logs.push(out@));
            assert(self@.users =~= old(self)@.users);
            assert(self@.types =~= old(self)@.types);
        }
        Ok(out)
    }

    /// Whether the user has a log of the smoking type on the day, and the sum
    /// of the quantities of those logs.
    fn tally(&self, user: &String, type_id: i32, day: i32) -> (r: (bool, i64))
        requires
            self@.wf(),
        ensures
            r.0 == (log_count(self@.logs, user@, type_id, day) > 0),
            r.1 == total_quantity(self@.logs, user@, type_id, day),
    {
        let mut any: bool = false;
        let mut total: i64 = 0;
        let mut j: usize = 0;
        while j < self.logs.len()
            invariant
                self@.wf(),
                j <= self.logs@.len(),
                any == (log_count(self@.logs.take(j as int), user@, type_id, day) > 0),
                total == total_quantity(self@.logs.take(j as int), user@, type_id, day),
                -0x8000_0000 * j <= total <= 0x8000_0000 * j,
            decreases self.logs@.len() - j,
        {
            proof {
                assert(self@.logs.take(j + 1).drop_last() =~= self@.logs.take(j as int));
                assert(self@.logs.take(j + 1).last() == self.logs@[j as int]@);
            }
            let log = &self.logs[j];
            if log.discord_id == *user && log.smoking_type_id == type_id && log.smoked_at.day
                == day {
                any = true;
                total = total + log.quantity as i64;
            }
            j = j + 1;
        }
        proof {
            assert(self@.logs.take(j as int) =~= self@.logs);
        }
        (any, total)
    }

    /// The daily summary of the user: for each smoking type of the catalog
    /// that the user has a log of on `date`, in the catalog's order, one row
    /// with the sum of the quantities. Empty where nothing was logged.
    pub fn get_daily_summary(&self, discord_id: &str, date: i32) -> (r: Result<
        Vec<DailySmokingSummary>,
        StoreError,
    >)
        requires
            self@.wf(),
        ensures
            r.is_ok(),
            summary_views(r.unwrap()@) == self@.daily_summary(discord_id@, date),
    {
        let mut out: Vec<DailySmokingSummary> = Vec::new();
        let key = String::from_str(discord_id);
        let found = self.find_user(&key);
        match found {
            None => {
                proof {
                    assert(summary_views(out@) =~= self@.daily_summary(discord_id@, date));
                }
                Ok(out)
            },
            Some(at) => {
                let user = &self.users[at];
                let mut k: usize = 0;
                while k < self.types.len()
                    invariant
                        self@.wf(),
                        at < self.users@.len(),
                        user@ == self@.users[at as int],
                        user@.discord_id == key@,
                        k <= self.types@.len(),
                        summary_views(out@) == summary_rows(
                            self@.types,
                            self@.logs,
                            user@,
                            date,
                            k as int,
                        ),
                    decreases self.types@.len() - k,
                {
                    let smoking_type = &self.types[k];
                    let (any, total) = self.tally(&key, smoking_type.id, date);
                    if any {
                        let row = DailySmokingSummary {
                            discord_id: user.discord_id.clone(),
                            username: user.username.clone(),
                            smoke_date: date,
                            name: smoking_type.name.clone(),
                            description: match &smoking_type.description {
                                Some(text) => text.clone(),
                                None => String::new(),
                            },
                            total_quantity: Some(total),
                        };
                        let ghost before = summary_views(out@);
                        let ghost added = row@;
                        out.push(row);
                        proof {
                            assert(self@.types[k as int] == smoking_type@);
                            assert(summary_views(out@) =~= before.push(added));
                        }
                    }
                    proof {
                        assert(self@.types[k as int] == smoking_type@);
                    }
                    k = k + 1;
                }
                Ok(out)
            },
        }
    }
}

/// A get-or-create leaves exactly one row for the identifier, with the
/// supplied display name, and keeps the rows apart.
pub proof fn lemma_upsert_stores_name(
    users: Seq<UserView>,
    id: Seq<char>,
    name: Seq<char>,
    now: Timestamp,
)
    requires
        users_unique(users),
    ensures
        users_unique(users_after_upsert(users, id, name, now)),
        has_user(users_after_upsert(users, id, name, now), id),
        users_after_upsert(users, id, name, now)[user_position(
            users_after_upsert(users, id, name, now),
            id,
        )] == upserted_user(users, id, name, now),
        upserted_user(users, id, name, now).discord_id == id,
        upserted_user(users, id, name, now).username == name,
{
    let after = users_after_upsert(users, id, name, now);
    let row = upserted_user(users, id, name, now);
    let at = if has_user(users, id) {
        user_position(users, id)
    } else {
        users.len() as int
    };
    assert(after[at] == row);
    assert(row.discord_id == id);
    assert(has_user(after, id));
    let chosen = user_position(after, id);
    assert(chosen == at) by {
        if chosen != at {
            assert(after[chosen].discord_id == after[at].discord_id);
        }
    }
}

/// A second get-or-create with the same identifier and display name returns
/// the row of the first and writes nothing, whatever the time of the second.
pub proof fn lemma_upsert_twice_same_name(
    users: Seq<UserView>,
    id: Seq<char>,
    name: Seq<char>,
    first: Timestamp,
    second: Timestamp,
)
    requires
        users_unique(users),
    ensures
        ({
            let once = users_after_upsert(users, id, name, first);
            &&& users_after_upsert(once, id, name, second) == once
            &&& upserted_user(once, id, name, second) == upserted_user(users, id, name, first)
            &&& plan_user_write_spec(Some(once[user_position(once, id)]), name) == UserWrite::Keep
        }),
{
    lemma_upsert_stores_name(users, id, name, first);
    let once = users_after_upsert(users, id, name, first);
    assert(users_after_upsert(once, id, name, second) =~= once);
}

/// A get-or-create with one display name and then another leaves the second
/// name stored for the identifier.
pub proof fn lemma_upsert_renames(
    users: Seq<UserView>,
    id: Seq<char>,
    name1: Seq<char>,
    name2: Seq<char>,
    first: Timestamp,
    second: Timestamp,
)
    requires
        users_unique(users),
        name1 != name2,
    ensures
        ({
            let once = users_after_upsert(users, id, name1, first);
            let twice = users_after_upsert(once, id, name2, second);
            &&& has_user(twice, id)
            &&& twice[user_position(twice, id)].username == name2
            &&& twice[user_position(twice, id)].updated_at == Some(second)
            &&& twice.len() == once.len()
        }),
{
    lemma_upsert_stores_name(users, id, name1, first);
    let once = users_after_upsert(users, id, name1, first);
    lemma_upsert_stores_name(once, id, name2, second);
}

/// One more log row adds its quantity to the total of its own user, smoking
/// type and day, and leaves every other total as it was.
pub proof fn lemma_log_adds_quantity(
    logs: Seq<SmokingLogView>,
    row: SmokingLogView,
    user: Seq<char>,
    type_id: i32,
    day: i32,
)
    ensures
        total_quantity(logs.push(row), user, type_id, day) == total_quantity(
            logs,
            user,
            type_id,
            day,
        ) + if log_counts(row, user, type_id, day) {
            row.quantity as int
        } else {
            0
        },
        log_count(logs.push(row), user, type_id, day) == log_count(logs, user, type_id, day)
            + if log_counts(row, user, type_id, day) {
            1nat
        } else {
            0nat
        },
{
    assert(logs.push(row).drop_last() =~= logs);
}

/// Where nothing was logged for a user, a smoking type and a day, the total is 0.
pub proof fn lemma_no_logs_no_total(
    logs: Seq<SmokingLogView>,
    user: Seq<char>,
    type_id: i32,
    day: i32,
)
    requires
        log_count(logs, user, type_id, day) == 0,
    ensures
        total_quantity(logs, user, type_id, day) == 0,
    decreases logs.len(),
{
    if logs.len() > 0 {
        lemma_no_logs_no_total(logs.drop_last(), user, type_id, day);
    }
}

/// The first log of a day with quantity 1 makes that day's total for its
/// smoking type exactly 1.
pub proof fn lemma_first_log_totals_one(logs: Seq<SmokingLogView>, row: SmokingLogView)
    requires
        log_count(logs, row.discord_id, row.smoking_type_id, row.smoked_at.day) == 0,
        row.quantity == 1,
    ensures
        total_quantity(logs.push(row), row.discord_id, row.smoking_type_id, row.smoked_at.day)
            == 1,
        log_count(logs.push(row), row.discord_id, row.smoking_type_id, row.smoked_at.day) == 1,
{
    lemma_no_logs_no_total(logs, row.discord_id, row.smoking_type_id, row.smoked_at.day);
    lemma_log_adds_quantity(logs, row, row.discord_id, row.smoking_type_id, row.smoked_at.day);
}

/// Three logs of quantity 1 for one user, smoking type and day raise that
/// day's total by 3; a log of another day that follows does not change it,
/// and the three leave the total of every other day as it was.
pub proof fn lemma_three_logs_total_three(
    logs: Seq<SmokingLogView>,
    a: SmokingLogView,
    b: SmokingLogView,
    c: SmokingLogView,
    later: SmokingLogView,
    user: Seq<char>,
    type_id: i32,
    day: i32,
    other_day: i32,
)
    requires
        log_counts(a, user, type_id, day) && a.quantity == 1,
        log_counts(b, user, type_id, day) && b.quantity == 1,
        log_counts(c, user, type_id, day) && c.quantity == 1,
        later.smoked_at.day != day,
        other_day != day,
    ensures
        total_quantity(logs.push(a).push(b).push(c), user, type_id, day) == total_quantity(
            logs,
            user,
            type_id,
            day,
        ) + 3,
        total_quantity(logs.push(a).push(b).push(c).push(later), user, type_id, day)
            == total_quantity(logs, user, type_id, day) + 3,
        total_quantity(logs.push(a).push(b).push(c), user, type_id, other_day) == total_quantity(
            logs,
            user,
            type_id,
            other_day,
        ),
{
    lemma_log_adds_quantity(logs, a, user, type_id, day);
    lemma_log_adds_quantity(logs.push(a), b, user, type_id, day);
    lemma_log_adds_quantity(logs.push(a).push(b), c, user, type_id, day);
    lemma_log_adds_quantity(logs.push(a).push(b).push(c), later, user, type_id, day);
    lemma_log_adds_quantity(logs, a, user, type_id, other_day);
    lemma_log_adds_quantity(logs.push(a), b, user, type_id, other_day);
    lemma_log_adds_quantity(logs.push(a).push(b), c, user, type_id, other_day);
}

/// Whether the user has a log of the catalog's `i`-th smoking type on `day`.
pub open spec fn logged(
    types: Seq<SmokingTypeView>,
    logs: Seq<SmokingLogView>,
    user: UserView,
    day: i32,
    i: int,
) -> bool {
    log_count(logs, user.discord_id, types[i].id, day) > 0
}

/// The summary row of the catalog's `i`-th smoking type.
pub open spec fn row_of(
    types: Seq<SmokingTypeView>,
    logs: Seq<SmokingLogView>,
    user: UserView,
    day: i32,
    i: int,
) -> DailySmokingSummaryView {
    summary_row(user, types[i], day, total_quantity(logs, user.discord_id, types[i].id, day))
}

/// Whether `r` is the summary row of one of the catalog's first `upto`
/// smoking types, and one that the user has a log of on `day`.
pub open spec fn is_row_of_logged(
    types: Seq<SmokingTypeView>,
    logs: Seq<SmokingLogView>,
    user: UserView,
    day: i32,
    upto: int,
    r: DailySmokingSummaryView,
) -> bool {
    exists|i: int|
        0 <= i < upto && #[trigger] logged(types, logs, user, day, i) && r == row_of(
            types,
            logs,
            user,
            day,
            i,
        )
}

/// The summary holds the row of every smoking type that was logged that day,
/// and no row of a smoking type that was not.
pub proof fn lemma_summary_rows_exact(
    types: Seq<SmokingTypeView>,
    logs: Seq<SmokingLogView>,
    user: UserView,
    day: i32,
    upto: int,
)
    requires
        0 <= upto <= types.len(),
    ensures
        forall|i: int|
            0 <= i < upto && #[trigger] logged(types, logs, user, day, i) ==> summary_rows(
                types,
                logs,
                user,
                day,
                upto,
            ).contains(row_of(types, logs, user, day, i)),
        forall|r: DailySmokingSummaryView| #[trigger]
            summary_rows(types, logs, user, day, upto).contains(r) ==> is_row_of_logged(
                types,
                logs,
                user,
                day,
                upto,
                r,
            ),
    decreases upto,
{
    if upto > 0 {
        lemma_summary_rows_exact(types, logs, user, day, upto - 1);
        let before = summary_rows(types, logs, user, day, upto - 1);
        let rows = summary_rows(types, logs, user, day, upto);
        assert forall|i: int| 0 <= i < upto && #[trigger] logged(types, logs, user, day, i) implies rows.contains(
            row_of(types, logs, user, day, i),
        ) by {
            if i < upto - 1 {
                assert(before.contains(row_of(types, logs, user, day, i)));
                let at = choose|at: int|
                    0 <= at < before.len() && before[at] == row_of(types, logs, user, day, i);
                assert(rows[at] == row_of(types, logs, user, day, i));
            } else {
                assert(rows[rows.len() - 1] == row_of(types, logs, user, day, i));
            }
        }
        assert forall|r: DailySmokingSummaryView| #[trigger] rows.contains(r) implies is_row_of_logged(
            types,
            logs,
            user,
            day,
            upto,
            r,
        ) by {
            let k = choose|k: int| 0 <= k < rows.len() && rows[k] == r;
            if k < before.len() {
                assert(before.contains(r));
                let i = choose|i: int|
                    0 <= i < upto - 1 && #[trigger] logged(types, logs, user, day, i) && r
                        == row_of(types, logs, user, day, i);
                assert(logged(types, logs, user, day, i) && r == row_of(types, logs, user, day, i));
            } else {
                assert(logged(types, logs, user, day, upto - 1) && r == row_of(
                    types,
                    logs,
                    user,
                    day,
                    upto - 1,
                ));
            }
        }
    }
}

/// After the first log of a day, of quantity 1, the user's summary of that
/// day holds the row of the log's smoking type with the total 1, and every
/// row in it is the row of a smoking type that was logged that day.
pub proof fn lemma_summary_after_first_log(store: DatabaseView, row: SmokingLogView)
    requires
        store.wf(),
        has_user(store.users, row.discord_id),
        has_type(store.types, row.smoking_type_id),
        log_count(store.logs, row.discord_id, row.smoking_type_id, row.smoked_at.day) == 0,
        row.quantity == 1,
    ensures
        ({
            let after = DatabaseView { logs: store.logs.push(row), ..store };
            let user = store.users[user_position(store.users, row.discord_id)];
            let smoking_type = store.types[type_position(store.types, row.smoking_type_id)];
            let summary = after.daily_summary(row.discord_id, row.smoked_at.day);
            &&& summary.contains(summary_row(user, smoking_type, row.smoked_at.day, 1))
            &&& forall|r: DailySmokingSummaryView| #[trigger]
                summary.contains(r) ==> is_row_of_logged(
                    after.types,
                    after.logs,
                    user,
                    row.smoked_at.day,
                    after.types.len() as int,
                    r,
                )
        }),
{
    let after = DatabaseView { logs: store.logs.push(row), ..store };
    let user = store.users[user_position(store.users, row.discord_id)];
    let at = type_position(store.types, row.smoking_type_id);
    let day = row.smoked_at.day;
    lemma_first_log_totals_one(store.logs, row);
    lemma_summary_rows_exact(after.types, after.logs, user, day, after.types.len() as int);
    assert(logged(after.types, after.logs, user, day, at));
    assert(row_of(after.types, after.logs, user, day, at) == summary_row(
        user,
        store.types[at],
        day,
        1,
    ));
}

/// Of two catalogs in ascending order with the same entries, the one does
/// not have a smaller identifier than the other at the first place where
/// they could differ.
proof fn lemma_listing_not_less(a: Seq<SmokingTypeView>, b: Seq<SmokingTypeView>, k: int)
    requires
        types_ascending(a),
        types_ascending(b),
        forall|t: SmokingTypeView| a.contains(t) ==> b.contains(t),
        0 <= k < a.len(),
        k < b.len(),
        forall|j: int| 0 <= j < k ==> a[j] == b[j],
    ensures
        a[k].id >= b[k].id,
{
    if a[k].id < b[k].id {
        assert(a.contains(a[k]));
        assert(b.contains(a[k]));
        let j = choose|j: int| 0 <= j < b.len() && b[j] == a[k];
        if j > k {
            assert(b[k].id < b[j].id);
        }
        assert(j < k);
        assert(a[j].id < a[k].id);
    }
}

/// Two catalogs in ascending order with the same entries agree at every place
/// that both have.
proof fn lemma_listing_same_at(a: Seq<SmokingTypeView>, b: Seq<SmokingTypeView>, k: int)
    requires
        types_ascending(a),
        types_ascending(b),
        forall|t: SmokingTypeView| a.contains(t) <==> b.contains(t),
        0 <= k < a.len(),
        k < b.len(),
    ensures
        forall|j: int| 0 <= j <= k ==> a[j] == b[j],
    decreases k,
{
    if k > 0 {
        lemma_listing_same_at(a, b, k - 1);
    }
    lemma_listing_not_less(a, b, k);
    lemma_listing_not_less(b, a, k);
    assert(a.contains(a[k]));
    assert(b.contains(a[k]));
    let j = choose|j: int| 0 <= j < b.len() && b[j] == a[k];
    if j < k {
        assert(b[j].id < b[k].id);
    }
    if j > k {
        assert(b[k].id < b[j].id);
    }
}

/// The catalog's listing is determined by its entries: two catalogs in
/// ascending order that hold the same entries are the same sequence, in
/// whatever order the entries were inserted.
pub proof fn lemma_listing_determined(a: Seq<SmokingTypeView>, b: Seq<SmokingTypeView>)
    requires
        types_ascending(a),
        types_ascending(b),
        forall|t: SmokingTypeView| a.contains(t) <==> b.contains(t),
    ensures
        a == b,
{
    if a.len() > 0 && b.len() > 0 {
        let k = if a.len() <= b.len() {
            a.len() - 1
        } else {
            b.len() - 1
        };
        lemma_listing_same_at(a, b, k);
    }
    if a.len() < b.len() {
        let extra = b[a.len() as int];
        assert(b.contains(extra));
        assert(a.contains(extra));
        let j = choose|j: int| 0 <= j < a.len() && a[j] == extra;
        assert(b[j].id < b[a.len() as int].id);
    }
    if b.len() < a.len() {
        let extra = a[b.len() as int];
        assert(a.contains(extra));
        assert(b.contains(extra));
        let j = choose|j: int| 0 <= j < b.len() && b[j] == extra;
        assert(a[j].id < a[b.len() as int].id);
    }
    assert(a =~= b);
}

/// A catalog with one more entry holds that entry and what it held before.
pub proof fn lemma_insert_holds(
    types: Seq<SmokingTypeView>,
    at: int,
    added: SmokingTypeView,
    t: SmokingTypeView,
)
    requires
        0 <= at <= types.len(),
    ensures
        types.insert(at, added).contains(t) <==> types.contains(t) || t == added,
{
    let after = types.insert(at, added);
    if after.contains(t) {
        let i = choose|i: int| 0 <= i < after.len() && after[i] == t;
        if i < at {
            assert(types[i] == t);
        } else if i > at {
            assert(types[i - 1] == t);
        }
    }
    if types.contains(t) {
        let i = choose|i: int| 0 <= i < types.len() && types[i] == t;
        if i < at {
            assert(after[i] == t);
        } else {
            assert(after[i + 1] == t);
        }
    }
    if t == added {
        assert(after[at] == t);
    }
}

/// Inserting two entries into the catalog gives the same listing in either
/// order of insertion.
pub proof fn lemma_insertion_order_irrelevant(
    types: Seq<SmokingTypeView>,
    x: SmokingTypeView,
    y: SmokingTypeView,
    x_first: int,
    y_second: int,
    y_first: int,
    x_second: int,
)
    requires
        0 <= x_first <= types.len(),
        0 <= y_second <= types.len() + 1,
        0 <= y_first <= types.len(),
        0 <= x_second <= types.len() + 1,
        types_ascending(types.insert(x_first, x).insert(y_second, y)),
        types_ascending(types.insert(y_first, y).insert(x_second, x)),
    ensures
        types.insert(x_first, x).insert(y_second, y) == types.insert(y_first, y).insert(
            x_second,
            x,
        ),
{
    let a = types.insert(x_first, x).insert(y_second, y);
    let b = types.insert(y_first, y).insert(x_second, x);
    assert forall|t: SmokingTypeView| a.contains(t) <==> b.contains(t) by {
        lemma_insert_holds(types, x_first, x, t);
        lemma_insert_holds(types.insert(x_first, x), y_second, y, t);
        lemma_insert_holds(types, y_first, y, t);
        lemma_insert_holds(types.insert(y_first, y), x_second, x, t);
    }
    lemma_listing_determined(a, b);
}

} // verus!
