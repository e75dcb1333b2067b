//! From a chat message to the bot's reply.

use vstd::prelude::*;
use vstd::string::*;
use rand::distributions::{Distribution, Uniform};
use crate::constants::MSG_PREFIX;
use crate::dates::{date_of_runs, date_text, parse, Date, DIGIT_RUN, NO_DATE};
use crate::db::{
    add_bday_subscription, after_add_subscription, after_save_bday, get_user_by_id, record_at,
    save_bday, DbUser, UserRecord, UserTable, NO_CURRENT_USER, USER_NOT_FOUND,
};
use crate::errors::{failed, BotError, ErrorKind};
use crate::patterns::{msg_contains, regex_find, regex_find_iter};
use crate::text::{contains_text, i32_text, int_text, rest_after, text_after, text_of, texts};

verus! {

/// The regular expression of the command that sets a birthday: `set` and a
/// date as month, day and year with `/` between them.
pub const SET_PATTERN: &'static str = "(?i)\\sset\\s[0-9]{1,2}/[0-9]{1,2}/[0-9]{4}";

/// The regular expression of the command that shows the user's own record.
pub const ME_PATTERN: &'static str = "(?i)\\s+me";

/// The regular expression of the command that rolls for poggies; it is held
/// against what follows the prefix.
pub const POG_PATTERN: &'static str = "(?i)^\\s+pog";

/// What is said before the date that was saved.
pub const SAVED: &'static str = "Saved your bday: ";

/// What is said to a user who has no record.
pub const NOT_THERE: &'static str = "I'm sorry, you don't appear to exist! O_O;";

/// What is said of a command that has no behaviour yet.
pub const NOT_IMPLEMENTED: &'static str = "Not implemented";

/// A chat message, as far as the bot reads it.
#[derive(Debug, Clone, PartialEq, Eq)]
pub struct Message {
    /// The id of the user who wrote it, in decimal.
    pub author_id: String,
    /// The name of the user who wrote it.
    pub author_name: String,
    /// The text.
    pub content: String,
}

/// What a message asks for.
pub enum Intent {
    /// Nothing that the bot knows.
    Nothing,
    /// To save the birthday that stands in the given part of the message.
    SetBirthday(Seq<char>),
    /// To see one's own record.
    Me,
    /// To roll for poggies.
    Pog,
}

/// What a message asks for.
#[derive(Debug, Clone, PartialEq, Eq)]
pub enum Command {
    /// Nothing that the bot knows.
    Nothing,
    /// To save the birthday that stands in the given part of the message.
    SetBirthday(String),
    /// To see one's own record.
    Me,
    /// To roll for poggies.
    Pog,
}

impl View for Command {
    type V = Intent;

    open spec fn view(&self) -> Intent {
        match self {
            Command::Nothing => Intent::Nothing,
            Command::SetBirthday(part) => Intent::SetBirthday(part@),
            Command::Me => Intent::Me,
            Command::Pog => Intent::Pog,
        }
    }
}

/// The command that the searches select: none without the prefix; else the
/// first of the three whose expression was found, in the order set, me, pog.
pub open spec fn intent_from(
    has_prefix: bool,
    set_match: Option<Seq<char>>,
    me_match: Option<Seq<char>>,
    pog_match: Option<Seq<char>>,
) -> Intent {
    if !has_prefix {
        Intent::Nothing
    } else if set_match is Some {
        Intent::SetBirthday(set_match->0)
    } else if me_match is Some {
        Intent::Me
    } else if pog_match is Some {
        Intent::Pog
    } else {
        Intent::Nothing
    }
}

/// The command that the searches select.
pub fn command_from(
    has_prefix: bool,
    set_match: Option<String>,
    me_match: Option<String>,
    pog_match: Option<String>,
) -> (command: Command)
    ensures
        command@ == intent_from(
            has_prefix,
            text_of(set_match),
            text_of(me_match),
            text_of(pog_match),
        ),
{
    if !has_prefix {
        return Command::Nothing;
    }
    if let Some(part) = set_match {
        return Command::SetBirthday(part);
    }
    if me_match.is_some() {
        return Command::Me;
    }
    if pog_match.is_some() {
        return Command::Pog;
    }
    Command::Nothing
}

/// What the message `content` asks for. The expressions for set and me are
/// held against the whole message, the one for pog against what follows the
/// prefix.
pub open spec fn intent_of(content: Seq<char>) -> Intent {
    intent_from(
        contains_text(content, MSG_PREFIX@),
        regex_find(SET_PATTERN@, content),
        regex_find(ME_PATTERN@, content),
        regex_find(POG_PATTERN@, text_after(content, MSG_PREFIX@)),
    )
}

/// What the message `content` asks for.
pub fn interpret(content: &str) -> (command: Command)
    ensures
        command@ == intent_of(content@),
        !contains_text(content@, MSG_PREFIX@) ==> command@ == Intent::Nothing,
{
    match rest_after(content, MSG_PREFIX) {
        Some(rest) => command_from(
            true,
            msg_contains(content, SET_PATTERN),
            msg_contains(content, ME_PATTERN),
            msg_contains(rest, POG_PATTERN),
        ),
        None => Command::Nothing,
    }
}

/// A reply as plain values.
pub open spec fn said(reply: Result<Option<String>, String>) -> Result<
    Option<Seq<char>>,
    Seq<char>,
> {
    match reply {
        Ok(Some(text)) => Ok(Some(text@)),
        Ok(None) => Ok(None),
        Err(text) => Err(text@),
    }
}

/// Draws a number with `rand::distributions::Uniform::from` on the range
/// from `low` to `high`, `high` left out, and `sample` on
/// `rand::thread_rng()`. The number lies in that range; nothing else is
/// known of it.
#[verifier::external_body]
fn sample_between(low: i32, high: i32) -> (n: i32)
    requires
        low < high,
    ensures
        low <= n < high,
{
    Uniform::from(low..high).sample(&mut rand::thread_rng())
}

/// The poggies for a roll of `base` with the bonus `bonus`: the bonus counts
/// only for a roll above 95.
pub open spec fn pog_total(base: int, bonus: int) -> int {
    if base <= 95 {
        base
    } else {
        base + bonus
    }
}

/// The poggies for a roll of `base`, from -5 to 100, with the bonus `bonus`,
/// from 1 to 25.
pub fn pog_count(base: i32, bonus: i32) -> (total: i32)
    requires
        -5 <= base <= 100,
        1 <= bonus <= 25,
    ensures
        total == pog_total(base as int, bonus as int),
        -5 <= total <= 125,
{
    match base {
        -5..=95 => base,
        _ => base + bonus,
    }
}

/// Rolls for poggies: a number from -5 to 100, each as likely as the other,
/// and on a roll above 95 a bonus from 1 to 25 on top.
pub fn random_pog_count() -> (total: i32)
    ensures
        -5 <= total <= 125,
        exists|base: int, bonus: int|
            -5 <= base <= 100 && 1 <= bonus <= 25 && total == #[trigger] pog_total(base, bonus),
{
    let val = sample_between(-5, 101);
    if val <= 95 {
        assert(val == pog_total(val as int, 1));
        val
    } else {
        let bonus = sample_between(1, 26);
        pog_count(val, bonus)
    }
}

/// What is said of `pog` poggies for the user `name`: up to 99 plainly, from
/// 100 on with more noise.
pub open spec fn pog_text(name: Seq<char>, pog: int) -> Seq<char> {
    if -5 <= pog <= 99 {
        name + " got "@ + int_text(pog) + " poggies"@
    } else {
        "wow!!! "@ + name + " got "@ + int_text(pog)
            + " poggies!!! bonky. i'm pogging out loud rn"@
    }
}

/// What is said of `pog` poggies for the user `author_name`; it is never
/// empty.
pub fn pog_reply(author_name: &str, pog: i32) -> (reply: String)
    ensures
        reply@ == pog_text(author_name@, pog as int),
        reply@.len() > 0,
{
    proof {
        reveal_strlit(" got ");
    }
    let count = i32_text(pog);
    match pog {
        -5..=99 => {
            let mut reply = String::from_str(author_name);
            reply.append(" got ");
            reply.append(count.as_str());
            reply.append(" poggies");
            reply
        },
        _ => {
            let mut reply = String::from_str("wow!!! ");
            reply.append(author_name);
            reply.append(" got ");
            reply.append(count.as_str());
            reply.append(" poggies!!! bonky. i'm pogging out loud rn");
            reply
        },
    }
}

/// The text that the standard `Debug` formatting writes for a text: the
/// text between double quotes, with what cannot stand there as it is written
/// as an escape.
pub uninterp spec fn debug_text(s: Seq<char>) -> Seq<char>;

/// Writes `s` with `format!` and `{:?}`, the standard `Debug` formatting of
/// a `str`. Nothing is proved of the text: it is `debug_text` of `s` by
/// definition of that name.
#[verifier::external_body]
fn debug_str(s: &str) -> (text: String)
    ensures
        text@ == debug_text(s@),
{
    format!("{:?}", s)
}

/// The `Debug` text of a text that may be missing.
pub open spec fn debug_of_text_option(v: Option<Seq<char>>) -> Seq<char> {
    match v {
        Some(s) => "Some("@ + debug_text(s) + ")"@,
        None => "None"@,
    }
}

/// The `Debug` texts of the items of `list`, with a comma and a blank
/// between them.
pub open spec fn debug_joined(list: Seq<Seq<char>>) -> Seq<char>
    decreases list.len(),
{
    if list.len() == 0 {
        Seq::empty()
    } else if list.len() == 1 {
        debug_text(list[0])
    } else {
        debug_joined(list.drop_last()) + ", "@ + debug_text(list.last())
    }
}

/// The `Debug` text of a list of texts that may be missing.
pub open spec fn debug_of_texts_option(v: Option<Seq<Seq<char>>>) -> Seq<char> {
    match v {
        Some(list) => "Some(["@ + debug_joined(list) + "])"@,
        None => "None"@,
    }
}

/// The `Debug` text of a flag.
pub open spec fn debug_of_flag(flag: bool) -> Seq<char> {
    if flag {
        "true"@
    } else {
        "false"@
    }
}

/// What a user is told of their own record.
pub open spec fn profile_text(record: UserRecord) -> Seq<char> {
    "Look, it's u: "@ + record.id + "\nand ur bday:"@ + debug_of_text_option(record.birthdate)
        + "\nand who ur subscribed to: "@ + debug_of_texts_option(record.subscribed_to)
        + "\nand ur notification time: "@ + debug_of_flag(record.subscribed_to_all)
}

/// Writes the `Debug` text of `v` at the end of `out`.
fn append_debug_of_text_option(out: &mut String, v: &Option<String>)
    ensures
        final(out)@ == old(out)@ + debug_of_text_option(text_of(*v)),
{
    match v {
        Some(s) => {
            let mut text = String::from_str("Some(");
            text.append(debug_str(s.as_str()).as_str());
            text.append(")");
            out.append(text.as_str());
        },
        None => {
            out.append("None");
        },
    }
}

/// The `Debug` texts of the items of `list`, with a comma and a blank
/// between them.
fn debug_join(list: &Vec<String>) -> (text: String)
    ensures
        text@ == debug_joined(texts(list@)),
{
    let mut text = String::new();
    let ghost all = texts(list@);
    let mut i: usize = 0;
    while i < list.len()
        invariant
            i <= list.len(),
            all == texts(list@),
            text@ == debug_joined(all.take(i as int)),
        decreases list.len() - i,
    {
        proof {
            assert(all.take(i + 1).drop_last() =~= all.take(i as int));
            assert(all.take(i + 1).last() == list@[i as int]@);
        }
        if i > 0 {
            text.append(", ");
        }
        text.append(debug_str(list[i].as_str()).as_str());
        proof {
            if i == 0 {
                assert(debug_joined(all.take(0)) =~= Seq::<char>::empty());
                assert(text@ =~= debug_text(all[0]));
            }
        }
        i += 1;
    }
    assert(all.take(list.len() as int) =~= all);
    text
}

/// Writes the `Debug` text of `v` at the end of `out`.
fn append_debug_of_texts_option(out: &mut String, v: &Option<Vec<String>>)
    ensures
        final(out)@ == old(out)@ + debug_of_texts_option(
            match *v {
                Some(list) => Some(texts(list@)),
                None => None,
            },
        ),
{
    match v {
        Some(list) => {
            let mut text = String::from_str("Some([");
            text.append(debug_join(list).as_str());
            text.append("])");
            out.append(text.as_str());
        },
        None => {
            out.append("None");
        },
    }
}

/// What the user `user` is told of their own record.
pub fn profile(user: &DbUser) -> (text: String)
    ensures
        text@ == profile_text(user@),
{
    let mut text = String::from_str("Look, it's u: ");
    text.append(user.id.as_str());
    text.append("\nand ur bday:");
    append_debug_of_text_option(&mut text, &user.birthdate);
    text.append("\nand who ur subscribed to: ");
    append_debug_of_texts_option(&mut text, &user.subscribed_to);
    text.append("\nand ur notification time: ");
    if user.subscribed_to_all {
        text.append("true");
    } else {
        text.append("false");
    }
    text
}

/// Saves the birthday that was read for the user `user_id` and says so; where
/// none could be read, says why.
pub fn save_parsed_bday(
    table: &mut UserTable,
    user_id: String,
    parsed: Result<Date, BotError>,
) -> (reply: Result<Option<String>, String>)
    ensures
        match parsed {
            Ok(date) => {
                let text = date_text(date@.year, date@.month, date@.day);
                &&& final(table)@ == after_save_bday(old(table)@, user_id@, text)
                &&& said(reply) == Ok::<Option<Seq<char>>, Seq<char>>(Some(SAVED@ + text))
            },
            Err(e) => {
                &&& final(table)@ == old(table)@
                &&& said(reply) == Err::<Option<Seq<char>>, Seq<char>>(e.message@)
            },
        },
{
    match parsed {
        Ok(bday_date) => {
            match save_bday(table, user_id, bday_date.to_string()) {
                Ok(_) => {
                    let mut reply = String::from_str(SAVED);
                    reply.append(bday_date.to_string().as_str());
                    Ok(Some(reply))
                },
                Err(err) => Err(err.to_string()),
            }
        },
        Err(err) => Err(err.to_string()),
    }
}

/// What the user `user_id` is told of their own record; a user without one
/// is told so.
pub fn describe_me(table: &UserTable, user_id: &str) -> (reply: Result<Option<String>, String>)
    ensures
        said(reply) == match record_at(table@, user_id@) {
            Some(record) => Ok::<Option<Seq<char>>, Seq<char>>(Some(profile_text(record))),
            None => Err::<Option<Seq<char>>, Seq<char>>(NOT_THERE@),
        },
{
    match get_user_by_id(table, user_id) {
        Ok(Some(u)) => Ok(Some(profile(&u))),
        Ok(None) => Err(String::from_str(NOT_THERE)),
        Err(err) => Err(err.to_string()),
    }
}

/// Reads the message and does what it asks for: saves the author's
/// birthday, shows the author's record, or rolls for poggies. A message
/// without the prefix, or with no command that is known, gets no reply and
/// changes nothing. What goes wrong is said in the reply.
pub fn eval_message(table: &mut UserTable, msg: &Message) -> (reply: Result<Option<String>, String>)
    ensures
        !contains_text(msg.content@, MSG_PREFIX@) ==> final(table)@ == old(table)@ && said(reply)
            == Ok::<Option<Seq<char>>, Seq<char>>(None),
        match intent_of(msg.content@) {
            Intent::Nothing => {
                &&& final(table)@ == old(table)@
                &&& said(reply) == Ok::<Option<Seq<char>>, Seq<char>>(None)
            },
            Intent::SetBirthday(part) => match date_of_runs(regex_find_iter(DIGIT_RUN@, part)) {
                Some(ymd) => {
                    let text = date_text(ymd.year, ymd.month, ymd.day);
                    &&& final(table)@ == after_save_bday(old(table)@, msg.author_id@, text)
                    &&& said(reply) == Ok::<Option<Seq<char>>, Seq<char>>(Some(SAVED@ + text))
                },
                None => {
                    &&& final(table)@ == old(table)@
                    &&& said(reply) == Err::<Option<Seq<char>>, Seq<char>>(NO_DATE@ + part)
                },
            },
            Intent::Me => {
                &&& final(table)@ == old(table)@
                &&& said(reply) == match record_at(old(table)@, msg.author_id@) {
                    Some(record) => Ok::<Option<Seq<char>>, Seq<char>>(
                        Some(profile_text(record)),
                    ),
                    None => Err::<Option<Seq<char>>, Seq<char>>(NOT_THERE@),
                }
            },
            Intent::Pog => {
                &&& final(table)@ == old(table)@
                &&& reply matches Ok(Some(text)) && text@.len() > 0
                &&& exists|pog: int|
                    -5 <= pog <= 125 && said(reply) == Ok::<Option<Seq<char>>, Seq<char>>(
                        Some(#[trigger] pog_text(msg.author_name@, pog)),
                    )
            },
        },
{
    match interpret(msg.content.as_str()) {
        Command::SetBirthday(date_part) => {
            let parsed = parse(date_part.as_str());
            save_parsed_bday(table, msg.author_id.clone(), parsed)
        },
        Command::Me => describe_me(table, msg.author_id.as_str()),
        Command::Pog => {
            let pog = random_pog_count();
            Ok(Some(pog_reply(msg.author_name.as_str(), pog)))
        },
        Command::Nothing => Ok(None),
    }
}

/// Saves `bday` as the birthday of `current_user`, written as year, month
/// and day.
pub fn register_bday(table: &mut UserTable, current_user: String, bday: Date) -> (done: Result<
    (),
    BotError,
>)
    ensures
        done is Ok,
        final(table)@ == after_save_bday(
            old(table)@,
            current_user@,
            date_text(bday@.year, bday@.month, bday@.day),
        ),
{
    let bday_string = bday.to_string();
    save_bday(table, current_user, bday_string)
}

/// Subscribes `current_user` to the birthday of `target_user`. Both must
/// have a record; where one has none, the table stays as it is.
pub fn subscribe_to_bday(table: &mut UserTable, current_user: String, target_user: String) -> (done:
    Result<(), BotError>)
    ensures
        final(table)@ == after_add_subscription(old(table)@, current_user@, target_user@),
        !old(table)@.contains_key(current_user@) ==> failed(
            done,
            ErrorKind::NotFoundError,
            NO_CURRENT_USER@,
        ),
        old(table)@.contains_key(current_user@) && !old(table)@.contains_key(target_user@)
            ==> failed(done, ErrorKind::NotFoundError, USER_NOT_FOUND@),
        old(table)@.contains_key(current_user@) && old(table)@.contains_key(target_user@)
            ==> done is Ok,
{
    add_bday_subscription(table, current_user, target_user)
}

/// Subscribing to everyone's birthdays with a time of day for the notice has
/// no behaviour yet: it fails, whatever it is given.
pub fn subscribe_to_all_bdays(current_user: String, notification_seconds: i64) -> (done: Result<
    Vec<String>,
    BotError,
>)
    ensures
        failed(done, ErrorKind::NotImplemented, NOT_IMPLEMENTED@),
{
    Err(BotError::new(ErrorKind::NotImplemented, NOT_IMPLEMENTED))
}

/// Telling `target_user` of the birthday of `bday_user` has no behaviour
/// yet: it fails, whatever it is given.
pub fn alert_bday(target_user: String, bday_user: String) -> (done: Result<(), BotError>)
    ensures
        failed(done, ErrorKind::NotImplemented, NOT_IMPLEMENTED@),
{
    Err(BotError::new(ErrorKind::NotImplemented, NOT_IMPLEMENTED))
}

} // verus!
