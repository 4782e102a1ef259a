//! The decisions behind a git worktree picker: which rows a query shows, what
//! confirming or deleting a row does, which repositories lie nearby, and which
//! `.env` files follow a worktree from its primary checkout.

pub mod confirm;
pub mod deletion;
pub mod env_carry;
pub mod env_vault;
pub mod github_link;
pub mod laws;
pub mod matches;
pub mod model;
pub mod naming;
pub mod path;
pub mod path_order;
pub mod path_set;
pub mod picker;
pub mod prompts;
pub mod remote_open;
pub mod render;
pub mod scan;
pub mod search;
pub mod seqs;
pub mod shown;
pub mod text;
pub mod window;
pub mod worktree_picker;
