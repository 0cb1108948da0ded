//! Function environment records.
//!
//! A function environment record is a declarative environment record for the
//! top-level scope of a function. It adds the `this` value of the call and,
//! for a method that refers to `super`, the object that the method belongs
//! to.

use vstd::prelude::*;
use crate::builtins::value::{Value, ValueView};
use crate::environment::declarative_environment_record::DeclarativeEnvironmentRecord;
use crate::environment::lexical_environment::EnvironmentType;

verus! {

/// The binding table of the top-level scope of a function.
pub struct FunctionEnvironmentRecord {
    /// The bindings of parameters and local names.
    pub declarative: DeclarativeEnvironmentRecord,
    /// The `this` value of the call, once it is bound.
    pub this_value: Option<Value>,
    /// The object that a method which refers to `super` belongs to.
    pub home_object: Option<Value>,
}

/// The message of the error for a `this` that is bound a second time.
pub open spec fn this_bound_message() -> Seq<char> {
    "ReferenceError: this is already bound"@
}

impl FunctionEnvironmentRecord {
    /// A record without bindings, `this` value or home object.
    pub fn new() -> (r: Self)
        ensures
            r.declarative@.len() == 0,
            r.declarative.wf(),
            r.declarative.outer_env is None,
            r.this_value is None,
            r.home_object is None,
    {
        FunctionEnvironmentRecord {
            declarative: DeclarativeEnvironmentRecord::new(),
            this_value: None,
            home_object: None,
        }
    }

    /// Whether the record binds `this`.
    pub fn has_this_binding(&self) -> (r: bool)
        ensures
            r == self.this_value is Some,
    {
        self.this_value.is_some()
    }

    /// Whether the record binds `super`: whether it binds `this` and has a
    /// home object.
    pub fn has_super_binding(&self) -> (r: bool)
        ensures
            r == (self.this_value is Some && self.home_object is Some),
    {
        self.this_value.is_some() && self.home_object.is_some()
    }

    /// Binds `this`. A `this` that is bound already stays, and the call
    /// reports an error.
    pub fn bind_this_value(&mut self, value: Value) -> (r: Result<(), Value>)
        ensures
            final(self).declarative == old(self).declarative,
            final(self).home_object == old(self).home_object,
            match r {
                Ok(_) => {
                    &&& old(self).this_value is None
                    &&& final(self).this_value is Some
                    &&& final(self).this_value->0@ == value@
                },
                Err(e) => {
                    &&& old(self).this_value is Some
                    &&& final(self).this_value == old(self).this_value
                    &&& e@ == ValueView::String(this_bound_message())
                },
            },
    {
        if self.this_value.is_some() {
            Err(Value::String("ReferenceError: this is already bound".to_owned()))
        } else {
            self.this_value = Some(value);
            Ok(())
        }
    }

    /// The `this` value; `undefined` where none is bound.
    pub fn get_this_binding(&self) -> (r: Value)
        ensures
            r@ == match self.this_value {
                Some(v) => v@,
                None => ValueView::Undefined,
            },
    {
        match &self.this_value {
            Some(v) => v.clone(),
            None => Value::Undefined,
        }
    }

    /// The tag by which identifier resolution tells the kinds of record
    /// apart.
    pub fn get_environment_type(&self) -> (r: EnvironmentType)
        ensures
            r == EnvironmentType::Function,
    {
        EnvironmentType::Function
    }
}

} // verus!
