//! The ledger's data types in one place.

pub use crate::keeper::Keeper;
pub use crate::schedule::Schedule;
pub use crate::slots::ChangeError;
pub use crate::task::Task;
