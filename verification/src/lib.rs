//! A birthday bot's core: a permissive date reader, a table of user records
//! with birthdays and subscriptions, and the interpreter that turns a chat
//! message into a reply.

pub mod constants;
pub mod errors;
pub mod text;
pub mod patterns;
pub mod dates;
pub mod db;
pub mod interactions;
