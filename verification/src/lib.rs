pub mod action;
pub mod channel;
pub mod events;
pub mod registry;
pub mod state;
pub mod text;
pub mod worker;
