//! Script values and the objects they refer to.

pub mod bigint;
pub mod function;
pub mod json;
pub mod number;
pub mod object;
pub mod property;
pub mod value;
