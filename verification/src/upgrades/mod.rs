pub mod compat;
pub mod validator;
pub mod report;
