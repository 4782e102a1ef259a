//! What the operations promise, put in terms of what goes in and what comes
//! out.

pub mod acting;
pub mod carrying;
pub mod deleting;
pub mod links;
pub mod opening;
pub mod paths;
pub mod rows;
pub mod scanning;
pub mod searching;
pub mod text;
pub mod viewing;
