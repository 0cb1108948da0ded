//! Environment records: the binding tables of lexical scopes, and the chain
//! that links each scope to the one around it.

pub mod declarative_environment_record;
pub mod function_environment_record;
pub mod lexical_environment;
pub mod object_environment_record;
