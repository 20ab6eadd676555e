//! Messages are the data sent between nodes of the network. An event message
//! exists at one instant only; a behavior message is a value that can be read
//! at any time.

use vstd::prelude::*;
use vstd::std_specs::convert::FromSpecImpl;
use std::marker::PhantomData;

verus! {

/// The kind of a message, and with it the kind of the node that produces it.
#[derive(Clone, Copy, Debug, PartialEq, Eq, Structural)]
pub enum MessageType {
    Event,
    Behavior,
}

/// A newtype containing a value of an event.
#[derive(Clone, Copy, Debug)]
pub struct EventMessage<T>(pub T);

/// A newtype containing a value of a behavior.
#[derive(Clone, Copy, Debug)]
pub struct BehaviorMessage<T>(pub T);

impl<T: Clone> EventMessage<T> {
    /// Get the unwrapped value of this message.
    pub fn value(&self) -> (r: T)
        ensures
            cloned(self.0, r),
    {
        self.0.clone()
    }
}

impl<T: Clone> BehaviorMessage<T> {
    /// Get the unwrapped value of this message.
    pub fn value(&self) -> (r: T)
        ensures
            cloned(self.0, r),
    {
        self.0.clone()
    }
}

impl<T: Default> Default for EventMessage<T> {
    /// The message with the default value of its type.
    fn default() -> (r: Self)
        ensures
            call_ensures(T::default, (), r.0),
    {
        EventMessage(T::default())
    }
}

impl<T: Default> Default for BehaviorMessage<T> {
    /// The message with the default value of its type.
    fn default() -> (r: Self)
        ensures
            call_ensures(T::default, (), r.0),
    {
        BehaviorMessage(T::default())
    }
}

impl<T> From<PhantomData<EventMessage<T>>> for MessageType {
    fn from(_marker: PhantomData<EventMessage<T>>) -> (r: Self) {
        MessageType::Event
    }
}

impl<T> FromSpecImpl<PhantomData<EventMessage<T>>> for MessageType {
    open spec fn obeys_from_spec() -> bool {
        true
    }

    open spec fn from_spec(_marker: PhantomData<EventMessage<T>>) -> Self {
        MessageType::Event
    }
}

impl<T> From<PhantomData<BehaviorMessage<T>>> for MessageType {
    fn from(_marker: PhantomData<BehaviorMessage<T>>) -> (r: Self) {
        MessageType::Behavior
    }
}

impl<T> FromSpecImpl<PhantomData<BehaviorMessage<T>>> for MessageType {
    open spec fn obeys_from_spec() -> bool {
        true
    }

    open spec fn from_spec(_marker: PhantomData<BehaviorMessage<T>>) -> Self {
        MessageType::Behavior
    }
}

/// The type of the value that a node carries. The network is dynamically
/// typed: every node declares one of these when it is wired.
#[derive(Clone, Copy, Debug, PartialEq, Eq, Structural)]
pub enum ValueType {
    Unit,
    Bool,
    Int,
    Position,
}

/// A value carried by a message.
#[derive(Clone, Copy, Debug, PartialEq, Eq, Structural)]
pub enum Value {
    Unit,
    Bool(bool),
    Int(i64),
    Position { x: i32, y: i32 },
}

impl Value {
    /// The type of this value.
    pub open spec fn spec_value_type(self) -> ValueType {
        match self {
            Value::Unit => ValueType::Unit,
            Value::Bool(_) => ValueType::Bool,
            Value::Int(_) => ValueType::Int,
            Value::Position { .. } => ValueType::Position,
        }
    }

    /// The type of this value.
    pub fn value_type(&self) -> (r: ValueType)
        ensures
            r == self.spec_value_type(),
    {
        match self {
            Value::Unit => ValueType::Unit,
            Value::Bool(_) => ValueType::Bool,
            Value::Int(_) => ValueType::Int,
            Value::Position { .. } => ValueType::Position,
        }
    }
}

impl ValueType {
    /// The value that a behavior of this type has before anything was stored in it.
    pub open spec fn spec_default_value(self) -> Value {
        match self {
            ValueType::Unit => Value::Unit,
            ValueType::Bool => Value::Bool(false),
            ValueType::Int => Value::Int(0),
            ValueType::Position => Value::Position { x: 0, y: 0 },
        }
    }

    /// The value that a behavior of this type has before anything was stored in it.
    pub fn default_value(&self) -> (r: Value)
        ensures
            r == self.spec_default_value(),
            r.spec_value_type() == *self,
    {
        match self {
            ValueType::Unit => Value::Unit,
            ValueType::Bool => Value::Bool(false),
            ValueType::Int => Value::Int(0),
            ValueType::Position => Value::Position { x: 0, y: 0 },
        }
    }

    /// The name under which this type is shown on the edges of a graph.
    pub open spec fn spec_name(self) -> Seq<char> {
        match self {
            ValueType::Unit => "()"@,
            ValueType::Bool => "bool"@,
            ValueType::Int => "i64"@,
            ValueType::Position => "Position"@,
        }
    }

    /// The name under which this type is shown on the edges of a graph.
    pub fn name(&self) -> (r: String)
        ensures
            r@ == self.spec_name(),
    {
        match self {
            ValueType::Unit => String::from_str("()"),
            ValueType::Bool => String::from_str("bool"),
            ValueType::Int => String::from_str("i64"),
            ValueType::Position => String::from_str("Position"),
        }
    }
}

} // verus!
