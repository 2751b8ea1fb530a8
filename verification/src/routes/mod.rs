//! The endpoints: create a user, get one by id, list them all. Each
//! works on plain values — a body or path segment in, a status and body
//! out — and leaves transport to the surroundings.

pub mod create;
pub mod get;
pub mod list;

pub use create::create_user;
pub use get::get_user;
pub use list::get_users;
