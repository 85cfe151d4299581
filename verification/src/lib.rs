//! Verified core of an action that locks the conversation of a pull request
//! (or issue) on GitHub or Gitea.

pub mod action;
pub mod forge;
pub mod inputs;
pub mod number;
pub mod text;
