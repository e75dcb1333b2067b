//! Fixed names and formats.

use vstd::prelude::*;

verus! {

/// The layout of a stored birthdate: year, month and day.
pub const DATE_FORMAT: &'static str = "%Y-%m-%d";

/// The name of the database.
pub const DB_NAME: &'static str = "birthdays";

/// The name of the one table.
pub const TABLE_NAME: &'static str = "user_birthdays";

/// The text that marks a chat message as a command for the bot.
pub const MSG_PREFIX: &'static str = "!bday";

} // verus!
