//! The rules that give the kind of message a combinator produces from the
//! kinds of its inputs, and the input that triggers it.

use vstd::prelude::*;
use crate::frp::message::MessageType;

verus! {

/// One of the two inputs of a combinator.
#[derive(Clone, Copy, Debug, PartialEq, Eq, Structural)]
pub enum Side {
    First,
    Second,
}

/// The rule for one input: the output is of the kind of the input.
pub open spec fn spec_inferred(input: MessageType) -> MessageType {
    input
}

/// The rule for two inputs: the output is an event, whatever the inputs are.
pub open spec fn spec_inferred2(input1: MessageType, input2: MessageType) -> MessageType {
    MessageType::Event
}

/// The input that triggers a combinator with two inputs: the first that
/// produces events, if there is one.
pub open spec fn spec_event_input(input1: MessageType, input2: MessageType) -> Option<Side> {
    if input1 is Event {
        Some(Side::First)
    } else if input2 is Event {
        Some(Side::Second)
    } else {
        None
    }
}

/// The kind of message that a combinator with one input produces.
pub fn inferred(input: MessageType) -> (r: MessageType)
    ensures
        r == spec_inferred(input),
{
    input
}

/// The kind of message that a combinator with two inputs produces.
pub fn inferred2(input1: MessageType, input2: MessageType) -> (r: MessageType)
    ensures
        r == spec_inferred2(input1, input2),
{
    MessageType::Event
}

/// The input that triggers a combinator with two inputs.
pub fn event_input(input1: MessageType, input2: MessageType) -> (r: Option<Side>)
    ensures
        r == spec_event_input(input1, input2),
{
    match input1 {
        MessageType::Event => Some(Side::First),
        MessageType::Behavior => match input2 {
            MessageType::Event => Some(Side::Second),
            MessageType::Behavior => None,
        },
    }
}

} // verus!
