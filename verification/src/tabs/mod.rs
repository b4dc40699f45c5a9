//! One module per page: the state each page keeps and the decisions it makes, apart from drawing.
pub mod console;
pub mod performance;
pub mod setup;
pub mod worlds;
pub mod players;
pub mod plugins;
pub mod overview;
