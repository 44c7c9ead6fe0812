//! What the commands of the tool compute.

pub mod validator;
