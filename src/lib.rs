//! An in-memory credential store: accounts keyed by an opaque identifier, looked up by
//! username, with passwords kept only as salted PBKDF2 hashes in PHC string form.

pub mod hashing;
pub mod model;
pub mod users;
pub mod laws;

pub use model::{UserError, UserRecord};
pub use users::{User, Users, UsersImpl};
