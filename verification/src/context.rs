//! What is known, while a tree of spans is built for an expression, about
//! the methods that the expression calls.

use vstd::prelude::*;

verus! {

/// What is known about one parameter of a method.
#[derive(Clone, Debug)]
pub struct ParameterInfo {
    pub name: Option<String>,
    pub typename: Option<String>,
}

/// Additional information available on nodes that are an invocation of a
/// known method.
#[derive(Clone, Debug)]
pub struct InvocationInfo {
    /// Information about arguments taken by a called method.
    pub parameters: Vec<ParameterInfo>,
}

/// Entity that is able to provide information whether a given expression is
/// a known method invocation. If so, additional information is provided.
pub trait Context {
    /// What the context knows about the expression `id`, which calls the
    /// method `name`.
    spec fn spec_invocation_info(&self, id: u128, name: Option<&str>) -> Option<InvocationInfo>;

    /// Checks if the given expression is known to be a call to a known
    /// method. If so, returns the available information.
    fn invocation_info(&self, id: u128, name: Option<&str>) -> (r: Option<InvocationInfo>)
        ensures
            r == self.spec_invocation_info(id, name),
    ;
}

/// Represents a context created from merging two other contexts.
#[derive(Clone, Debug)]
pub struct Merged<First, Second> {
    pub first: First,
    pub second: Second,
}

impl<First, Second> Merged<First, Second> {
    /// Creates a context merging the contexts from arguments.
    ///
    /// The first context is checked first, the second one is used as a
    /// fallback.
    pub fn new(first: First, second: Second) -> (r: Self)
        ensures
            r.first == first,
            r.second == second,
    {
        Merged { first, second }
    }
}

impl<First: Context, Second: Context> Context for Merged<First, Second> {
    open spec fn spec_invocation_info(&self, id: u128, name: Option<&str>) -> Option<InvocationInfo> {
        match self.first.spec_invocation_info(id, name) {
            Some(info) => Some(info),
            None => self.second.spec_invocation_info(id, name),
        }
    }

    fn invocation_info(&self, id: u128, name: Option<&str>) -> (r: Option<InvocationInfo>) {
        match self.first.invocation_info(id, name) {
            Some(info) => Some(info),
            None => self.second.invocation_info(id, name),
        }
    }
}

/// An empty context that provides no information whatsoever.
#[derive(Clone, Copy, Debug)]
pub struct Empty;

impl Context for Empty {
    open spec fn spec_invocation_info(&self, id: u128, name: Option<&str>) -> Option<InvocationInfo> {
        None
    }

    fn invocation_info(&self, id: u128, name: Option<&str>) -> (r: Option<InvocationInfo>) {
        None
    }
}

/// A merged context answers as its first context does wherever the first
/// context knows the expression, and as its second context does elsewhere.
pub proof fn law_merged_prefers_first<First: Context, Second: Context>(
    merged: Merged<First, Second>,
    id: u128,
    name: Option<&str>,
)
    ensures
        merged.first.spec_invocation_info(id, name) is Some ==> merged.spec_invocation_info(id, name)
            == merged.first.spec_invocation_info(id, name),
        merged.first.spec_invocation_info(id, name) is None ==> merged.spec_invocation_info(id, name)
            == merged.second.spec_invocation_info(id, name),
{
}

} // verus!
