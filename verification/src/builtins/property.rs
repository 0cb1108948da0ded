//! Property descriptors: the attributed slots of an object.

use vstd::prelude::*;
use crate::builtins::value::{ObjectId, Value, ValueView};

verus! {

/// What a property holds: a stored value, or a pair of accessor functions.
/// A property is exactly one of the two.
pub enum Slot {
    /// A stored value, and whether it may be overwritten.
    Data { value: Value, writable: bool },
    /// The functions that are called to read and to write the property.
    Accessor { get: Option<ObjectId>, set: Option<ObjectId> },
}

/// Mathematical model of a [`Slot`].
pub enum SlotView {
    Data { value: ValueView, writable: bool },
    Accessor { get: Option<ObjectId>, set: Option<ObjectId> },
}

impl View for Slot {
    type V = SlotView;

    open spec fn view(&self) -> SlotView {
        match self {
            Slot::Data { value, writable } => SlotView::Data { value: value@, writable: *writable },
            Slot::Accessor { get, set } => SlotView::Accessor { get: *get, set: *set },
        }
    }
}

/// A named slot of an object, with the attributes that data and accessor
/// properties share.
pub struct Property {
    /// The property may be deleted and its attributes changed.
    pub configurable: bool,
    /// The property shows up when the object's properties are enumerated.
    pub enumerable: bool,
    /// The stored value or the accessor pair.
    pub slot: Slot,
}

/// Mathematical model of a [`Property`].
pub struct PropertyView {
    pub configurable: bool,
    pub enumerable: bool,
    pub slot: SlotView,
}

impl View for Property {
    type V = PropertyView;

    open spec fn view(&self) -> PropertyView {
        PropertyView {
            configurable: self.configurable,
            enumerable: self.enumerable,
            slot: self.slot@,
        }
    }
}

impl PropertyView {
    /// The value that reading the property yields without calling anything:
    /// the stored value of a data property, `undefined` for an accessor.
    pub open spec fn value(self) -> ValueView {
        match self.slot {
            SlotView::Data { value, .. } => value,
            SlotView::Accessor { .. } => ValueView::Undefined,
        }
    }

    /// Whether the property is a data property that may be overwritten.
    pub open spec fn writable(self) -> bool {
        match self.slot {
            SlotView::Data { writable, .. } => writable,
            SlotView::Accessor { .. } => false,
        }
    }

    /// The property with its stored value replaced; an accessor property
    /// becomes a data property that is not writable.
    pub open spec fn with_value(self, v: ValueView) -> PropertyView {
        PropertyView {
            configurable: self.configurable,
            enumerable: self.enumerable,
            slot: SlotView::Data { value: v, writable: self.writable() },
        }
    }

    /// The property as a data property with the given writability.
    pub open spec fn with_writable(self, w: bool) -> PropertyView {
        PropertyView {
            configurable: self.configurable,
            enumerable: self.enumerable,
            slot: SlotView::Data { value: self.value(), writable: w },
        }
    }

    /// A data property with all of its attributes given.
    pub open spec fn data(value: ValueView, writable: bool, enumerable: bool, configurable: bool) -> PropertyView {
        PropertyView { configurable, enumerable, slot: SlotView::Data { value, writable } }
    }

    /// The property that [`Property::default`] makes.
    pub open spec fn empty() -> PropertyView {
        PropertyView::data(ValueView::Undefined, false, false, false)
    }
}

impl Clone for Slot {
    fn clone(&self) -> (r: Self)
        ensures
            r@ == self@,
    {
        match self {
            Slot::Data { value, writable } => Slot::Data { value: value.clone(), writable: *writable },
            Slot::Accessor { get, set } => Slot::Accessor { get: *get, set: *set },
        }
    }
}

impl Clone for Property {
    fn clone(&self) -> (r: Self)
        ensures
            r@ == self@,
    {
        Property {
            configurable: self.configurable,
            enumerable: self.enumerable,
            slot: self.slot.clone(),
        }
    }
}

impl Default for Property {
    /// A data property that holds `undefined` and has every attribute off.
    fn default() -> (r: Self)
        ensures
            r@ == PropertyView::empty(),
    {
        Property {
            configurable: false,
            enumerable: false,
            slot: Slot::Data { value: Value::Undefined, writable: false },
        }
    }
}

impl Property {
    /// A data property with all of its attributes given.
    pub fn data(value: Value, writable: bool, enumerable: bool, configurable: bool) -> (r: Self)
        ensures
            r@ == PropertyView::data(value@, writable, enumerable, configurable),
    {
        Property { configurable, enumerable, slot: Slot::Data { value, writable } }
    }

    /// The stored value of a data property, `undefined` for an accessor.
    pub fn stored_value(&self) -> (r: Value)
        ensures
            r@ == self@.value(),
    {
        match &self.slot {
            Slot::Data { value, .. } => value.clone(),
            Slot::Accessor { .. } => Value::Undefined,
        }
    }

    /// Whether the property is a data property that may be overwritten.
    pub fn is_writable(&self) -> (r: bool)
        ensures
            r == self@.writable(),
    {
        match &self.slot {
            Slot::Data { writable, .. } => *writable,
            Slot::Accessor { .. } => false,
        }
    }

    /// Sets the stored value, making the property a data property.
    pub fn value(self, value: Value) -> (r: Self)
        ensures
            r@ == self@.with_value(value@),
    {
        let writable = self.is_writable();
        Property {
            configurable: self.configurable,
            enumerable: self.enumerable,
            slot: Slot::Data { value, writable },
        }
    }

    /// Sets the `writable` attribute, making the property a data property.
    pub fn writable(self, writable: bool) -> (r: Self)
        ensures
            r@ == self@.with_writable(writable),
    {
        let value = self.stored_value();
        Property {
            configurable: self.configurable,
            enumerable: self.enumerable,
            slot: Slot::Data { value, writable },
        }
    }

    /// Sets the `enumerable` attribute.
    pub fn enumerable(self, enumerable: bool) -> (r: Self)
        ensures
            r@ == (PropertyView { enumerable, ..self@ }),
    {
        Property { configurable: self.configurable, enumerable, slot: self.slot }
    }

    /// Sets the `configurable` attribute.
    pub fn configurable(self, configurable: bool) -> (r: Self)
        ensures
            r@ == (PropertyView { configurable, ..self@ }),
    {
        Property { configurable, enumerable: self.enumerable, slot: self.slot }
    }

    /// Makes the property an accessor with the given getter; a setter that
    /// it already had is kept.
    pub fn get(self, getter: Option<ObjectId>) -> (r: Self)
        ensures
            r@.configurable == self@.configurable,
            r@.enumerable == self@.enumerable,
            r@.slot == (SlotView::Accessor {
                get: getter,
                set: match self@.slot {
                    SlotView::Accessor { set, .. } => set,
                    SlotView::Data { .. } => None,
                },
            }),
    {
        let set = match &self.slot {
            Slot::Accessor { set, .. } => *set,
            Slot::Data { .. } => None,
        };
        Property {
            configurable: self.configurable,
            enumerable: self.enumerable,
            slot: Slot::Accessor { get: getter, set },
        }
    }

    /// Makes the property an accessor with the given setter; a getter that
    /// it already had is kept.
    pub fn set(self, setter: Option<ObjectId>) -> (r: Self)
        ensures
            r@.configurable == self@.configurable,
            r@.enumerable == self@.enumerable,
            r@.slot == (SlotView::Accessor {
                get: match self@.slot {
                    SlotView::Accessor { get, .. } => get,
                    SlotView::Data { .. } => None,
                },
                set: setter,
            }),
    {
        let get = match &self.slot {
            Slot::Accessor { get, .. } => *get,
            Slot::Data { .. } => None,
        };
        Property {
            configurable: self.configurable,
            enumerable: self.enumerable,
            slot: Slot::Accessor { get, set: setter },
        }
    }
}

} // verus!
