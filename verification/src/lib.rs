pub mod capabilities;
pub mod context;
pub mod delegation;
pub mod events_index;
pub mod features;
pub mod fees;
pub mod interfaces;
pub mod lifecycle;
pub mod pipeline;
pub mod registry;
pub mod replay;
pub mod risk;
pub mod scheduler;
pub mod security;
pub mod snapshots;
pub mod state;
pub mod table;
pub mod text;
pub mod upgrades;
pub mod validator;
pub mod vault;
