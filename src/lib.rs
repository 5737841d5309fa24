pub mod completion;
pub mod git;
pub mod listing;
pub mod order;
pub mod paths;
pub mod stash;
pub mod swap;
pub mod text;
