//! The table of user records, and what each command does to it.

use vstd::prelude::*;
use vstd::string::*;
use crate::errors::{failed, BotError, ErrorKind};
use crate::text::{same_text, text_of, texts};

verus! {

/// A list of user ids.
pub type UserArray = Vec<String>;

/// What a record says, as plain values.
pub struct UserRecord {
    pub id: Seq<char>,
    pub birthdate: Option<Seq<char>>,
    pub subscribed_to: Option<Seq<Seq<char>>>,
    pub subscribed_to_all: bool,
}

/// One user's record: the birthday, written as year, month and day, and the
/// users whose birthdays this one wants to hear of.
#[derive(Debug, PartialEq, Eq)]
pub struct DbUser {
    pub id: String,
    pub birthdate: Option<String>,
    pub subscribed_to: Option<UserArray>,
    pub subscribed_to_all: bool,
}

impl View for DbUser {
    type V = UserRecord;

    open spec fn view(&self) -> UserRecord {
        UserRecord {
            id: self.id@,
            birthdate: text_of(self.birthdate),
            subscribed_to: match self.subscribed_to {
                Some(list) => Some(texts(list@)),
                None => None,
            },
            subscribed_to_all: self.subscribed_to_all,
        }
    }
}

/// The JSON text that `serde_json::to_string` writes for a list of texts.
pub uninterp spec fn json_of_texts(list: Seq<Seq<char>>) -> Seq<char>;

/// The list of texts that `serde_json::from_str` reads out of a JSON text;
/// `None` where the text is no JSON array of strings.
pub uninterp spec fn texts_of_json(json: Seq<char>) -> Option<Seq<Seq<char>>>;

/// Writes the list as JSON with `serde_json::to_string`, which does not fail
/// on a list of strings. Nothing is proved of the text: it is
/// `json_of_texts` of the list by definition of that name.
#[verifier::external_body]
fn user_array_to_string(s: &UserArray) -> (json: String)
    ensures
        json@ == json_of_texts(texts(s@)),
{
    serde_json::to_string(s).unwrap_or_default()
}

/// Reads a list of strings out of a JSON text with `serde_json::from_str`.
/// Nothing is proved of the reading: the result is `texts_of_json` of the
/// text by definition of that name.
#[verifier::external_body]
fn string_to_user_array(s: &str) -> (list: Option<UserArray>)
    ensures
        match texts_of_json(s@) {
            Some(read) => list matches Some(l) && texts(l@) == read,
            None => list is None,
        },
{
    serde_json::from_str::<UserArray>(s).ok()
}

/// A copy of `list`, text by text.
pub fn copy_texts(list: &Vec<String>) -> (copy: Vec<String>)
    ensures
        texts(copy@) == texts(list@),
{
    let mut copy: Vec<String> = Vec::new();
    let mut i: usize = 0;
    while i < list.len()
        invariant
            i <= list.len(),
            copy.len() == i,
            forall|j: int| 0 <= j < i ==> copy@[j]@ == list@[j]@,
        decreases list.len() - i,
    {
        copy.push(list[i].clone());
        i += 1;
    }
    assert(texts(copy@) =~= texts(list@));
    copy
}

impl Clone for DbUser {
    fn clone(&self) -> (copy: Self)
        ensures
            copy@ == self@,
    {
        DbUser {
            id: self.id.clone(),
            birthdate: match &self.birthdate {
                Some(date) => Some(date.clone()),
                None => None,
            },
            subscribed_to: match &self.subscribed_to {
                Some(list) => Some(copy_texts(list)),
                None => None,
            },
            subscribed_to_all: self.subscribed_to_all,
        }
    }
}

impl DbUser {
    /// The birthdate as a borrowed text.
    pub fn birthdate_str(&self) -> (date: Option<&str>)
        ensures
            match date {
                Some(text) => self@.birthdate == Some(text@),
                None => self@.birthdate is None,
            },
    {
        match &self.birthdate {
            Some(date) => Some(date.as_str()),
            None => None,
        }
    }

    /// The subscriptions as one JSON text, as they are stored.
    pub fn subscription_string(&self) -> (json: Option<String>)
        ensures
            match self@.subscribed_to {
                Some(list) => json matches Some(text) && text@ == json_of_texts(list),
                None => json is None,
            },
    {
        match self.subscribed_to {
            Some(ref subs) => Some(user_array_to_string(subs)),
            None => None,
        }
    }
}

/// The records of a table, each under its user id.
pub type Records = Map<Seq<char>, UserRecord>;

/// The one table: a record for each user that has one.
pub struct UserTable {
    rows: Vec<DbUser>,
}

/// Whether a row of `rows` has the id `id`.
spec fn has_id(rows: Seq<DbUser>, id: Seq<char>) -> bool {
    exists|i: int| 0 <= i < rows.len() && #[trigger] rows[i].id@ == id
}

/// The place of a row with the id `id`.
spec fn place_of(rows: Seq<DbUser>, id: Seq<char>) -> int {
    choose|i: int| 0 <= i < rows.len() && #[trigger] rows[i].id@ == id
}

/// No two rows have the same id.
spec fn distinct_ids(rows: Seq<DbUser>) -> bool {
    forall|i: int, j: int|
        0 <= i < j < rows.len() ==> #[trigger] rows[i].id@ != #[trigger] rows[j].id@
}

/// The rows as records under their ids.
spec fn records_of(rows: Seq<DbUser>) -> Records {
    Map::new(|id: Seq<char>| has_id(rows, id), |id: Seq<char>| rows[place_of(rows, id)]@)
}

/// Where no id occurs twice, the record under a row's id is that row.
proof fn lemma_row_is_record(rows: Seq<DbUser>, i: int)
    requires
        distinct_ids(rows),
        0 <= i < rows.len(),
    ensures
        has_id(rows, rows[i].id@),
        place_of(rows, rows[i].id@) == i,
        records_of(rows).contains_key(rows[i].id@),
        records_of(rows)[rows[i].id@] == rows[i]@,
{
    let id = rows[i].id@;
    assert(has_id(rows, id));
    let j = place_of(rows, id);
    assert(0 <= j < rows.len() && rows[j].id@ == id);
    if j < i {
        assert(rows[j].id@ != rows[i].id@);
    } else if i < j {
        assert(rows[i].id@ != rows[j].id@);
    }
}

/// Replacing a row by one with the same id replaces the record under that id.
proof fn lemma_replace_row(rows: Seq<DbUser>, i: int, user: DbUser)
    requires
        distinct_ids(rows),
        0 <= i < rows.len(),
        user.id@ == rows[i].id@,
    ensures
        distinct_ids(rows.update(i, user)),
        records_of(rows.update(i, user)) == records_of(rows).insert(user.id@, user@),
{
    let after = rows.update(i, user);
    assert forall|a: int, b: int| 0 <= a < b < after.len() implies #[trigger] after[a].id@
        != #[trigger] after[b].id@ by {
        assert(after[a].id@ == rows[a].id@);
        assert(after[b].id@ == rows[b].id@);
    }
    let wanted = records_of(rows).insert(user.id@, user@);
    assert forall|id: Seq<char>| records_of(after).contains_key(id) <==> wanted.contains_key(
        id,
    ) by {
        if has_id(after, id) {
            let k = place_of(after, id);
            assert(rows[k].id@ == after[k].id@);
        }
        if has_id(rows, id) {
            let k = place_of(rows, id);
            assert(after[k].id@ == rows[k].id@);
        }
        if id == user.id@ {
            assert(after[i].id@ == id);
        }
    }
    assert forall|id: Seq<char>| records_of(after).contains_key(id) implies records_of(after)[id]
        == wanted[id] by {
        let k = place_of(after, id);
        lemma_row_is_record(after, k);
        if k != i {
            assert(after[k] == rows[k]);
            lemma_row_is_record(rows, k);
        }
    }
    assert(records_of(after) =~= wanted);
}

/// A row with a new id adds a record under that id.
proof fn lemma_add_row(rows: Seq<DbUser>, user: DbUser)
    requires
        distinct_ids(rows),
        !has_id(rows, user.id@),
    ensures
        distinct_ids(rows.push(user)),
        records_of(rows.push(user)) == records_of(rows).insert(user.id@, user@),
{
    let after = rows.push(user);
    assert forall|a: int, b: int| 0 <= a < b < after.len() implies #[trigger] after[a].id@
        != #[trigger] after[b].id@ by {
        if b == rows.len() {
            assert(rows[a].id@ != user.id@);
        } else {
            assert(after[a].id@ == rows[a].id@);
            assert(after[b].id@ == rows[b].id@);
        }
    }
    let wanted = records_of(rows).insert(user.id@, user@);
    assert forall|id: Seq<char>| records_of(after).contains_key(id) <==> wanted.contains_key(
        id,
    ) by {
        if has_id(after, id) {
            let k = place_of(after, id);
            if k < rows.len() {
                assert(rows[k].id@ == id);
            }
        }
        if has_id(rows, id) {
            let k = place_of(rows, id);
            assert(after[k].id@ == id);
        }
        if id == user.id@ {
            assert(after[rows.len() as int].id@ == id);
        }
    }
    assert forall|id: Seq<char>| records_of(after).contains_key(id) implies records_of(after)[id]
        == wanted[id] by {
        let k = place_of(after, id);
        lemma_row_is_record(after, k);
        if k < rows.len() {
            assert(after[k] == rows[k]);
            lemma_row_is_record(rows, k);
        }
    }
    assert(records_of(after) =~= wanted);
}

impl View for UserTable {
    type V = Records;

    closed spec fn view(&self) -> Records {
        records_of(self.rows@)
    }
}

impl UserTable {
    #[verifier::type_invariant]
    closed spec fn one_row_per_id(self) -> bool {
        distinct_ids(self.rows@)
    }

    /// A table without records.
    pub fn new() -> (table: UserTable)
        ensures
            table@ == Map::<Seq<char>, UserRecord>::empty(),
    {
        let table = UserTable { rows: Vec::new() };
        assert(table@ =~= Map::<Seq<char>, UserRecord>::empty());
        table
    }

    /// The number of records.
    pub fn len(&self) -> (n: usize)
        ensures
            n == self@.dom().len(),
            self@.dom().finite(),
    {
        proof {
            use_type_invariant(self);
            lemma_count(self.rows@);
        }
        self.rows.len()
    }

    /// Adds a row with a new id at the end.
    fn push_row(&mut self, user: DbUser)
        requires
            !has_id(old(self).rows@, user.id@),
        ensures
            final(self).rows@ == old(self).rows@.push(user),
            final(self)@ == old(self)@.insert(user.id@, user@),
    {
        proof {
            use_type_invariant(&*self);
            lemma_add_row(self.rows@, user);
        }
        let mut rows: Vec<DbUser> = Vec::new();
        core::mem::swap(&mut self.rows, &mut rows);
        rows.push(user);
        core::mem::swap(&mut self.rows, &mut rows);
    }

    /// Puts `user` in the place of the row `i`, which has the same id.
    fn put_row(&mut self, i: usize, user: DbUser)
        requires
            i < old(self).rows.len(),
            user.id@ == old(self).rows[i as int].id@,
        ensures
            final(self).rows@ == old(self).rows@.update(i as int, user),
            final(self)@ == old(self)@.insert(user.id@, user@),
    {
        proof {
            use_type_invariant(&*self);
            lemma_replace_row(self.rows@, i as int, user);
        }
        let mut rows: Vec<DbUser> = Vec::new();
        core::mem::swap(&mut self.rows, &mut rows);
        rows.set(i, user);
        core::mem::swap(&mut self.rows, &mut rows);
    }

    /// The place of the row with the id `user_id`.
    fn find(&self, user_id: &str) -> (place: Option<usize>)
        ensures
            match place {
                Some(i) => i < self.rows.len() && self.rows[i as int].id@ == user_id@,
                None => !has_id(self.rows@, user_id@),
            },
    {
        let mut i: usize = 0;
        while i < self.rows.len()
            invariant
                i <= self.rows.len(),
                forall|j: int| 0 <= j < i ==> #[trigger] self.rows[j].id@ != user_id@,
            decreases self.rows.len() - i,
        {
            if same_text(self.rows[i].id.as_str(), user_id) {
                return Some(i);
            }
            i += 1;
        }
        None
    }
}

/// What is said where a user has no record.
pub const USER_NOT_FOUND: &'static str = "User not found";

/// What is said where the user who asks for a subscription has no record.
pub const NO_CURRENT_USER: &'static str = "No match found for current user";

/// What is said where the user who drops a subscription has no record.
pub const CURRENT_USER_MISSING: &'static str = "Current user ID doesn't exist";

/// What is said where a user without a list of subscriptions drops one.
pub const NOT_SUBSCRIBED: &'static str = "User is not subscribed to any birthdays.";

/// What is said where a record is to be made under an id that has one.
pub const USER_EXISTS: &'static str = "A record with this user id exists already";

/// What is said where the stored subscriptions cannot be read.
pub const BAD_SUBSCRIPTIONS: &'static str = "Stored subscriptions are not a list of user ids";

/// What a user holds, if there is one.
pub open spec fn record_of(user: Option<DbUser>) -> Option<UserRecord> {
    match user {
        Some(u) => Some(u@),
        None => None,
    }
}

/// The record under `id`, if there is one.
pub open spec fn record_at(t: Records, id: Seq<char>) -> Option<UserRecord> {
    if t.contains_key(id) {
        Some(t[id])
    } else {
        None
    }
}

/// Every record stands under its own id.
pub open spec fn keyed_by_id(t: Records) -> bool {
    forall|id: Seq<char>| t.contains_key(id) ==> (#[trigger] t[id]).id == id
}

/// The table with `user` added, unless its id has a record already.
pub open spec fn after_insert(t: Records, user: UserRecord) -> Records {
    if t.contains_key(user.id) {
        t
    } else {
        t.insert(user.id, user)
    }
}

/// `old` brought up to date by `new`: a birthdate or a list of subscriptions
/// that `new` lacks stays as it was in `old`.
pub open spec fn merged(old: UserRecord, new: UserRecord) -> UserRecord {
    UserRecord {
        id: old.id,
        birthdate: if new.birthdate is Some {
            new.birthdate
        } else {
            old.birthdate
        },
        subscribed_to: if new.subscribed_to is Some {
            new.subscribed_to
        } else {
            old.subscribed_to
        },
        subscribed_to_all: new.subscribed_to_all,
    }
}

/// The table with the record under `user.id` brought up to date by `user`;
/// a table without such a record stays as it is.
pub open spec fn after_update(t: Records, user: UserRecord) -> Records {
    if t.contains_key(user.id) {
        t.insert(user.id, merged(t[user.id], user))
    } else {
        t
    }
}

/// The record of a user of whom only the birthday is known.
pub open spec fn fresh_record(id: Seq<char>, bday: Seq<char>) -> UserRecord {
    UserRecord { id, birthdate: Some(bday), subscribed_to: None, subscribed_to_all: false }
}

/// The table after `id` has said that `bday` is their birthday: a record
/// that was there keeps all but its birthdate.
pub open spec fn after_save_bday(t: Records, id: Seq<char>, bday: Seq<char>) -> Records {
    if t.contains_key(id) {
        t.insert(id, UserRecord { birthdate: Some(bday), ..t[id] })
    } else {
        t.insert(id, fresh_record(id, bday))
    }
}

/// A list of subscriptions with `target` added at its end.
pub open spec fn with_subscription(list: Option<Seq<Seq<char>>>, target: Seq<char>) -> Seq<
    Seq<char>,
> {
    match list {
        Some(l) => l.push(target),
        None => seq![target],
    }
}

/// The table after `current` has subscribed to `target`: where both have a
/// record, `target` stands at the end of `current`'s list; else nothing has
/// changed.
pub open spec fn after_add_subscription(
    t: Records,
    current: Seq<char>,
    target: Seq<char>,
) -> Records {
    if t.contains_key(current) && t.contains_key(target) {
        t.insert(
            current,
            UserRecord {
                subscribed_to: Some(with_subscription(t[current].subscribed_to, target)),
                ..t[current]
            },
        )
    } else {
        t
    }
}

/// The place at which `target` stands first in `list`.
pub open spec fn first_place(list: Seq<Seq<char>>, target: Seq<char>) -> int {
    choose|i: int|
        0 <= i < list.len() && list[i] == target && forall|j: int|
            0 <= j < i ==> list[j] != target
}

/// `list` without the first `target` in it; a list without `target` stays as
/// it is.
pub open spec fn without_first(list: Seq<Seq<char>>, target: Seq<char>) -> Seq<Seq<char>> {
    if list.contains(target) {
        list.remove(first_place(list, target))
    } else {
        list
    }
}

/// The table after `current` has dropped the subscription to `target`: where
/// both have a record and `current` has a list, the first `target` has left
/// the list; else nothing has changed.
pub open spec fn after_remove_subscription(
    t: Records,
    current: Seq<char>,
    target: Seq<char>,
) -> Records {
    if t.contains_key(current) && t.contains_key(target) && t[current].subscribed_to is Some {
        t.insert(
            current,
            UserRecord {
                subscribed_to: Some(without_first(t[current].subscribed_to->0, target)),
                ..t[current]
            },
        )
    } else {
        t
    }
}

/// The table after `current` has set the flag for everyone's birthdays to
/// `flag`; a table without a record of `current` stays as it is.
pub open spec fn after_set_subscribe_to_all(t: Records, current: Seq<char>, flag: bool) -> Records {
    if t.contains_key(current) {
        t.insert(current, UserRecord { subscribed_to_all: flag, ..t[current] })
    } else {
        t
    }
}

/// The record of the user `user_id`, if there is one.
pub fn get_user_by_id(table: &UserTable, user_id: &str) -> (found: Result<Option<DbUser>, BotError>)
    ensures
        found matches Ok(user) && record_of(user) == record_at(table@, user_id@),
        found matches Ok(Some(u)) ==> u@.id == user_id@,
{
    proof {
        use_type_invariant(table);
    }
    match table.find(user_id) {
        Some(i) => {
            proof {
                lemma_row_is_record(table.rows@, i as int);
            }
            Ok(Some(table.rows[i].clone()))
        },
        None => Ok(None),
    }
}

/// Whether the user `user_id` has a record.
pub fn user_exists(table: &UserTable, user_id: &str) -> (found: Result<bool, BotError>)
    ensures
        found matches Ok(there) && there == table@.contains_key(user_id@),
{
    match get_user_by_id(table, user_id) {
        Ok(user) => Ok(user.is_some()),
        Err(err) => Err(err),
    }
}

/// Fails unless the user `user_id` has a record.
pub fn ensure_user_exists(table: &UserTable, user_id: &str) -> (found: Result<(), BotError>)
    ensures
        table@.contains_key(user_id@) ==> found is Ok,
        !table@.contains_key(user_id@) ==> failed(
            found,
            ErrorKind::NotFoundError,
            USER_NOT_FOUND@,
        ),
{
    match user_exists(table, user_id) {
        Ok(true) => Ok(()),
        Ok(false) => Err(BotError::new(ErrorKind::NotFoundError, USER_NOT_FOUND)),
        Err(err) => Err(err),
    }
}

/// Adds the record `user`. An id is the key of the table: where it has a
/// record already, the table stays as it is and the storage error is
/// returned.
pub fn insert_user(table: &mut UserTable, user: DbUser) -> (done: Result<(), BotError>)
    ensures
        final(table)@ == after_insert(old(table)@, user@),
        !old(table)@.contains_key(user@.id) ==> done is Ok,
        old(table)@.contains_key(user@.id) ==> failed(
            done,
            ErrorKind::StorageError,
            USER_EXISTS@,
        ),
{
    proof {
        use_type_invariant(&*table);
    }
    match table.find(user.id.as_str()) {
        Some(_) => {
            Err(BotError::new(ErrorKind::StorageError, USER_EXISTS))
        },
        None => {
            table.push_row(user);
            Ok(())
        },
    }
}

/// Brings the record under `user.id` up to date: the birthdate and the
/// subscriptions of `user` replace the stored ones where `user` has them,
/// the flag replaces the stored one in any case. Without such a record
/// nothing happens.
pub fn update_user(table: &mut UserTable, user: DbUser) -> (done: Result<(), BotError>)
    ensures
        done is Ok,
        final(table)@ == after_update(old(table)@, user@),
{
    proof {
        use_type_invariant(&*table);
    }
    match table.find(user.id.as_str()) {
        Some(i) => {
            let stored = table.rows[i].clone();
            let ghost before = table.rows@;
            let row = DbUser {
                id: stored.id,
                birthdate: match user.birthdate {
                    Some(date) => Some(date),
                    None => stored.birthdate,
                },
                subscribed_to: match user.subscribed_to {
                    Some(list) => Some(list),
                    None => stored.subscribed_to,
                },
                subscribed_to_all: user.subscribed_to_all,
            };
            proof {
                lemma_row_is_record(before, i as int);
                assert(row@ == merged(before[i as int]@, user@));
            }
            table.put_row(i, row);
            Ok(())
        },
        None => Ok(()),
    }
}

/// Records that `bday` is the birthday of `current_user_id`. A user without
/// a record gets one, with no subscriptions; a record that was there keeps
/// all but its birthdate.
pub fn save_bday(table: &mut UserTable, current_user_id: String, bday: String) -> (done: Result<
    (),
    BotError,
>)
    ensures
        done is Ok,
        final(table)@ == after_save_bday(old(table)@, current_user_id@, bday@),
{
    match get_user_by_id(table, current_user_id.as_str()) {
        Ok(Some(found)) => {
            let user = DbUser {
                id: found.id,
                birthdate: Some(bday),
                subscribed_to: found.subscribed_to,
                subscribed_to_all: found.subscribed_to_all,
            };
            assert(merged(found@, user@) == user@);
            update_user(table, user)
        },
        Ok(None) => {
            let new_user = DbUser {
                id: current_user_id,
                birthdate: Some(bday),
                subscribed_to: None,
                subscribed_to_all: false,
            };
            insert_user(table, new_user)
        },
        Err(err) => Err(err),
    }
}

/// Subscribes `current_user_id` to the birthday of `bday_user_id`, which goes
/// to the end of the list, whether or not it is in it already. Both users
/// must have a record; where one has none, the table stays as it is.
pub fn add_bday_subscription(
    table: &mut UserTable,
    current_user_id: String,
    bday_user_id: String,
) -> (done: Result<(), BotError>)
    ensures
        final(table)@ == after_add_subscription(old(table)@, current_user_id@, bday_user_id@),
        !old(table)@.contains_key(current_user_id@) ==> failed(
            done,
            ErrorKind::NotFoundError,
            NO_CURRENT_USER@,
        ),
        old(table)@.contains_key(current_user_id@) && !old(table)@.contains_key(bday_user_id@)
            ==> failed(done, ErrorKind::NotFoundError, USER_NOT_FOUND@),
        old(table)@.contains_key(current_user_id@) && old(table)@.contains_key(bday_user_id@)
            ==> done is Ok,
{
    proof {
        use_type_invariant(&*table);
    }
    let place = match table.find(current_user_id.as_str()) {
        Some(i) => i,
        None => {
            return Err(BotError::new(ErrorKind::NotFoundError, NO_CURRENT_USER));
        },
    };
    proof {
        lemma_row_is_record(table.rows@, place as int);
    }
    match ensure_user_exists(table, bday_user_id.as_str()) {
        Ok(_) => {},
        Err(err) => {
            return Err(err);
        },
    }
    let current_user = table.rows[place].clone();
    let ghost before = current_user@.subscribed_to;
    let subscribed_to = match current_user.subscribed_to {
        Some(mut list) => {
            list.push(bday_user_id);
            assert(texts(list@) =~= with_subscription(before, bday_user_id@));
            list
        },
        None => {
            let list = vec![bday_user_id];
            assert(texts(list@) =~= with_subscription(before, bday_user_id@));
            list
        },
    };
    let row = DbUser {
        id: current_user.id,
        birthdate: current_user.birthdate,
        subscribed_to: Some(subscribed_to),
        subscribed_to_all: current_user.subscribed_to_all,
    };
    table.put_row(place, row);
    Ok(())
}

/// Sets the flag of `current_user_id` for everyone's birthdays. The user
/// must have a record.
pub fn set_subscribe_to_all(table: &mut UserTable, current_user_id: String, subscribe: bool) -> (done:
    Result<(), BotError>)
    ensures
        final(table)@ == after_set_subscribe_to_all(old(table)@, current_user_id@, subscribe),
        old(table)@.contains_key(current_user_id@) ==> done is Ok,
        !old(table)@.contains_key(current_user_id@) ==> failed(
            done,
            ErrorKind::NotFoundError,
            USER_NOT_FOUND@,
        ),
{
    proof {
        use_type_invariant(&*table);
    }
    match ensure_user_exists(table, current_user_id.as_str()) {
        Ok(_) => {},
        Err(err) => {
            return Err(err);
        },
    }
    match table.find(current_user_id.as_str()) {
        Some(place) => {
            proof {
                lemma_row_is_record(table.rows@, place as int);
            }
            let stored = table.rows[place].clone();
            let row = DbUser {
                id: stored.id,
                birthdate: stored.birthdate,
                subscribed_to: stored.subscribed_to,
                subscribed_to_all: subscribe,
            };
            table.put_row(place, row);
            Ok(())
        },
        None => Ok(()),
    }
}

/// Takes the first `target` out of `list`.
fn remove_first(list: &mut Vec<String>, target: &str)
    ensures
        texts(final(list)@) == without_first(texts(old(list)@), target@),
{
    let ghost before = texts(list@);
    let mut i: usize = 0;
    while i < list.len()
        invariant
            i <= list.len(),
            list@ == old(list)@,
            before == texts(list@),
            forall|j: int| 0 <= j < i ==> before[j] != target@,
        decreases list.len() - i,
    {
        if same_text(list[i].as_str(), target) {
            proof {
                assert(before[i as int] == target@);
                assert(before.contains(target@));
                let first = first_place(before, target@);
                assert(first == i) by {
                    if first < i {
                        assert(before[first] != target@);
                    }
                }
            }
            list.remove(i);
            assert(texts(list@) =~= before.remove(i as int));
            return ;
        }
        i += 1;
    }
    assert(!before.contains(target@)) by {
        if before.contains(target@) {
            let k = choose|k: int| 0 <= k < before.len() && before[k] == target@;
            assert(before[k] != target@);
        }
    }
}

/// Drops the subscription of `current_user_id` to the birthday of
/// `bday_user_id`: the first entry of the list that names it leaves, and a
/// list that does not name it stays as it is. Both users must have a
/// record, and `current_user_id` a list of subscriptions.
pub fn remove_bday_subscription(
    table: &mut UserTable,
    current_user_id: String,
    bday_user_id: String,
) -> (done: Result<(), BotError>)
    ensures
        final(table)@ == after_remove_subscription(old(table)@, current_user_id@, bday_user_id@),
        !old(table)@.contains_key(bday_user_id@) ==> failed(
            done,
            ErrorKind::NotFoundError,
            USER_NOT_FOUND@,
        ),
        old(table)@.contains_key(bday_user_id@) && !old(table)@.contains_key(current_user_id@)
            ==> failed(done, ErrorKind::NotFoundError, CURRENT_USER_MISSING@),
        old(table)@.contains_key(bday_user_id@) && old(table)@.contains_key(current_user_id@)
            && old(table)@[current_user_id@].subscribed_to is None ==> failed(
            done,
            ErrorKind::FieldWasEmptyError,
            NOT_SUBSCRIBED@,
        ),
        old(table)@.contains_key(bday_user_id@) && old(table)@.contains_key(current_user_id@)
            && old(table)@[current_user_id@].subscribed_to is Some ==> done is Ok,
{
    proof {
        use_type_invariant(&*table);
    }
    match ensure_user_exists(table, bday_user_id.as_str()) {
        Ok(_) => {},
        Err(err) => {
            return Err(err);
        },
    }
    let place = match table.find(current_user_id.as_str()) {
        Some(i) => i,
        None => {
            return Err(BotError::new(ErrorKind::NotFoundError, CURRENT_USER_MISSING));
        },
    };
    proof {
        lemma_row_is_record(table.rows@, place as int);
    }
    let current_user = table.rows[place].clone();
    let mut list = match current_user.subscribed_to {
        Some(list) => list,
        None => {
            return Err(BotError::new(ErrorKind::FieldWasEmptyError, NOT_SUBSCRIBED));
        },
    };
    remove_first(&mut list, bday_user_id.as_str());
    let row = DbUser {
        id: current_user.id,
        birthdate: current_user.birthdate,
        subscribed_to: Some(list),
        subscribed_to_all: current_user.subscribed_to_all,
    };
    table.put_row(place, row);
    Ok(())
}

/// The record that a stored row stands for. The subscriptions are stored as
/// a JSON text, and the flag as a number, where 0 is "no".
pub open spec fn record_of_row(
    user_id: Seq<char>,
    birthdate: Option<Seq<char>>,
    subscribed_to: Option<Seq<char>>,
    subscribed_to_all: int,
) -> Option<UserRecord> {
    match subscribed_to {
        Some(json) => match texts_of_json(json) {
            Some(list) => Some(
                UserRecord {
                    id: user_id,
                    birthdate,
                    subscribed_to: Some(list),
                    subscribed_to_all: subscribed_to_all != 0,
                },
            ),
            None => None,
        },
        None => Some(
            UserRecord {
                id: user_id,
                birthdate,
                subscribed_to: None,
                subscribed_to_all: subscribed_to_all != 0,
            },
        ),
    }
}

/// Makes a record of the four values of a stored row. It fails where the
/// stored subscriptions are no JSON list of texts.
pub fn user_from_row(
    user_id: &str,
    birthdate: Option<String>,
    subscribed_to: Option<String>,
    subscribed_to_all: i32,
) -> (user: Result<DbUser, BotError>)
    ensures
        match record_of_row(
            user_id@,
            text_of(birthdate),
            text_of(subscribed_to),
            subscribed_to_all as int,
        ) {
            Some(record) => user matches Ok(u) && u@ == record,
            None => failed(user, ErrorKind::StorageError, BAD_SUBSCRIPTIONS@),
        },
{
    let list = match subscribed_to {
        Some(json) => match string_to_user_array(json.as_str()) {
            Some(list) => Some(list),
            None => {
                return Err(BotError::new(ErrorKind::StorageError, BAD_SUBSCRIPTIONS));
            },
        },
        None => None,
    };
    Ok(
        DbUser {
            id: String::from_str(user_id),
            birthdate,
            subscribed_to: list,
            subscribed_to_all: match subscribed_to_all {
                0 => false,
                _ => true,
            },
        },
    )
}

/// Whether the two lists hold the same texts in the same order.
fn same_texts(a: &Vec<String>, b: &Vec<String>) -> (same: bool)
    ensures
        same == (texts(a@) == texts(b@)),
{
    if a.len() != b.len() {
        assert(texts(a@).len() != texts(b@).len());
        return false;
    }
    let mut i: usize = 0;
    while i < a.len()
        invariant
            a.len() == b.len(),
            i <= a.len(),
            forall|j: int| 0 <= j < i ==> a@[j]@ == b@[j]@,
        decreases a.len() - i,
    {
        if !same_text(a[i].as_str(), b[i].as_str()) {
            assert(texts(a@)[i as int] != texts(b@)[i as int]);
            return false;
        }
        i += 1;
    }
    assert(texts(a@) =~= texts(b@));
    true
}

/// Whether the two records say the same.
pub fn same_user(a: &DbUser, b: &DbUser) -> (same: bool)
    ensures
        same == (a@ == b@),
{
    let same_birthdate = match (&a.birthdate, &b.birthdate) {
        (Some(x), Some(y)) => same_text(x.as_str(), y.as_str()),
        (None, None) => true,
        _ => false,
    };
    let same_subscriptions = match (&a.subscribed_to, &b.subscribed_to) {
        (Some(x), Some(y)) => same_texts(x, y),
        (None, None) => true,
        _ => false,
    };
    same_text(a.id.as_str(), b.id.as_str()) && same_birthdate && same_subscriptions
        && a.subscribed_to_all == b.subscribed_to_all
}

/// What storage has to do for one user after a command.
#[derive(Debug, PartialEq, Eq)]
pub enum Write {
    /// Nothing: the record is as it was, or there is none.
    Nothing,
    /// Add the record, which is new.
    Insert(DbUser),
    /// Bring the stored record up to date with this one.
    Update(DbUser),
}

/// What storage has to do for one user after a command, as plain values.
pub enum WriteRecord {
    /// Nothing.
    Nothing,
    /// Add the record.
    Insert(UserRecord),
    /// Bring the stored record up to date with this one.
    Update(UserRecord),
}

impl View for Write {
    type V = WriteRecord;

    open spec fn view(&self) -> WriteRecord {
        match self {
            Write::Nothing => WriteRecord::Nothing,
            Write::Insert(user) => WriteRecord::Insert(user@),
            Write::Update(user) => WriteRecord::Update(user@),
        }
    }
}

/// What storage has to do so that a user's stored record, which was
/// `before`, becomes `after`. Records are never taken away.
pub open spec fn write_between(before: Option<UserRecord>, after: Option<UserRecord>) -> WriteRecord {
    match after {
        Some(new) => match before {
            Some(old) => if new == old {
                WriteRecord::Nothing
            } else {
                WriteRecord::Update(new)
            },
            None => WriteRecord::Insert(new),
        },
        None => WriteRecord::Nothing,
    }
}

/// What storage has to do so that a user's stored record, which was
/// `before`, becomes `after`.
pub fn pending_write(before: Option<DbUser>, after: Option<DbUser>) -> (write: Write)
    ensures
        write@ == write_between(record_of(before), record_of(after)),
{
    match after {
        Some(new) => match before {
            Some(old) => {
                if same_user(&new, &old) {
                    Write::Nothing
                } else {
                    Write::Update(new)
                }
            },
            None => Write::Insert(new),
        },
        None => Write::Nothing,
    }
}

/// The ids of all users that have a record, in no particular order.
pub fn get_all_user_ids(table: &UserTable) -> (ids: Result<Vec<String>, BotError>)
    ensures
        ids matches Ok(list) && texts(list@).no_duplicates() && forall|id: Seq<char>|
            texts(list@).contains(id) <==> table@.contains_key(id),
{
    proof {
        use_type_invariant(table);
    }
    let mut user_ids: Vec<String> = Vec::new();
    let mut i: usize = 0;
    while i < table.rows.len()
        invariant
            i <= table.rows.len(),
            user_ids.len() == i,
            forall|j: int| 0 <= j < i ==> user_ids@[j]@ == #[trigger] table.rows[j].id@,
        decreases table.rows.len() - i,
    {
        user_ids.push(table.rows[i].id.clone());
        i += 1;
    }
    proof {
        let list = texts(user_ids@);
        assert forall|a: int, b: int| 0 <= a < list.len() && 0 <= b < list.len() && a != b implies list[a]
            != list[b] by {
            if a < b {
                assert(table.rows[a].id@ != table.rows[b].id@);
            } else {
                assert(table.rows[b].id@ != table.rows[a].id@);
            }
        }
        assert forall|id: Seq<char>| list.contains(id) <==> table@.contains_key(id) by {
            if list.contains(id) {
                let k = choose|k: int| 0 <= k < list.len() && list[k] == id;
                assert(table.rows[k].id@ == id);
            }
            if table@.contains_key(id) {
                let k = place_of(table.rows@, id);
                assert(list[k] == id);
            }
        }
    }
    Ok(user_ids)
}

/// In a table, every record stands under its own id.
pub proof fn lemma_keyed_by_id(table: UserTable)
    ensures
        keyed_by_id(table@),
{
    assert forall|id: Seq<char>| table@.contains_key(id) implies (#[trigger] table@[id]).id
        == id by {
        let k = place_of(table.rows@, id);
        assert(table.rows@[k].id@ == id);
    }
}

/// Once a user's birthday is saved, the user has a record, and its birthdate
/// is the one that was saved.
pub proof fn lemma_saved_birthday_is_found(t: Records, user: Seq<char>, bday: Seq<char>)
    ensures
        record_at(after_save_bday(t, user, bday), user) is Some,
        record_at(after_save_bday(t, user, bday), user)->0.birthdate == Some(bday),
{
}

/// Saving a birthday touches no other user's record, and of the user's own
/// record nothing but the birthdate.
pub proof fn lemma_save_birthday_keeps_the_rest(
    t: Records,
    user: Seq<char>,
    bday: Seq<char>,
    other: Seq<char>,
)
    ensures
        other != user ==> record_at(after_save_bday(t, user, bday), other) == record_at(t, other),
        t.contains_key(user) ==> {
            let after = after_save_bday(t, user, bday)[user];
            &&& after.id == t[user].id
            &&& after.subscribed_to == t[user].subscribed_to
            &&& after.subscribed_to_all == t[user].subscribed_to_all
        },
{
}

/// A subscription for which one of the two users has no record changes
/// nothing: no record is made, and none is touched.
pub proof fn lemma_subscription_needs_both_users(t: Records, current: Seq<char>, target: Seq<char>)
    requires
        !t.contains_key(current) || !t.contains_key(target),
    ensures
        after_add_subscription(t, current, target) == t,
{
}

/// Two subscriptions in a row stand at the end of the list in the order in
/// which they were made, whatever the list held before, and also where the
/// two are the same.
pub proof fn lemma_subscriptions_keep_their_order(
    t: Records,
    current: Seq<char>,
    first: Seq<char>,
    second: Seq<char>,
)
    requires
        t.contains_key(current),
        t.contains_key(first),
        t.contains_key(second),
    ensures
        ({
            let after = after_add_subscription(
                after_add_subscription(t, current, first),
                current,
                second,
            );
            let before = match t[current].subscribed_to {
                Some(list) => list,
                None => Seq::<Seq<char>>::empty(),
            };
            &&& after.contains_key(current)
            &&& after[current].subscribed_to == Some(before + seq![first, second])
        }),
{
    let once = after_add_subscription(t, current, first);
    let after = after_add_subscription(once, current, second);
    let before = match t[current].subscribed_to {
        Some(list) => list,
        None => Seq::<Seq<char>>::empty(),
    };
    assert(once.contains_key(current) && once.contains_key(second));
    assert(after[current].subscribed_to->0 =~= before + seq![first, second]);
}

/// Once the flag for everyone's birthdays is set, the record shows it.
pub proof fn lemma_flag_is_found(t: Records, current: Seq<char>, flag: bool)
    requires
        t.contains_key(current),
    ensures
        record_at(after_set_subscribe_to_all(t, current, flag), current) is Some,
        record_at(after_set_subscribe_to_all(t, current, flag), current)->0.subscribed_to_all
            == flag,
{
}

/// Setting the flag to the same value a second time changes nothing, and
/// setting it to the other value and back gives the first table again.
pub proof fn lemma_flag_set_again(t: Records, current: Seq<char>, flag: bool)
    ensures
        after_set_subscribe_to_all(after_set_subscribe_to_all(t, current, flag), current, flag)
            == after_set_subscribe_to_all(t, current, flag),
        after_set_subscribe_to_all(after_set_subscribe_to_all(t, current, !flag), current, flag)
            == after_set_subscribe_to_all(t, current, flag),
{
    let once = after_set_subscribe_to_all(t, current, flag);
    assert(after_set_subscribe_to_all(once, current, flag) =~= once);
    let other = after_set_subscribe_to_all(t, current, !flag);
    assert(after_set_subscribe_to_all(other, current, flag) =~= once);
}

/// Rows with distinct ids make as many records as there are rows.
proof fn lemma_count(rows: Seq<DbUser>)
    requires
        distinct_ids(rows),
    ensures
        records_of(rows).dom().finite(),
        records_of(rows).dom().len() == rows.len(),
    decreases rows.len(),
{
    if rows.len() == 0 {
        assert(records_of(rows).dom() =~= Set::<Seq<char>>::empty());
    } else {
        let fewer = rows.drop_last();
        let last = rows.last();
        assert forall|a: int, b: int| 0 <= a < b < fewer.len() implies #[trigger] fewer[a].id@
            != #[trigger] fewer[b].id@ by {
            assert(rows[a].id@ != rows[b].id@);
        }
        lemma_count(fewer);
        if has_id(fewer, last.id@) {
            let k = place_of(fewer, last.id@);
            assert(rows[k].id@ != rows[rows.len() - 1].id@);
        }
        assert(rows =~= fewer.push(last));
        lemma_add_row(fewer, last);
        assert(records_of(rows).dom() =~= records_of(fewer).dom().insert(last.id@));
    }
}

} // verus!
