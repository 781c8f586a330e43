pub mod assets;
pub mod contract;
pub mod delegates;
pub mod locks;
pub mod math;
pub mod queries;
pub mod rewards;
pub mod sums;
