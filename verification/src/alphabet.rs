//! The alphabet of a finite state automaton.

use vstd::prelude::*;
use std::collections::BTreeSet;

verus! {

broadcast use vstd::std_specs::btree::group_btree_axioms;

/// An input symbol of an automaton.
#[derive(Clone, Copy, Debug, PartialEq, Eq, Structural)]
pub struct Symbol {
    pub val: i64,
}

/// An alphabet describes the set of all the valid input symbols that a
/// finite state automaton can operate over. The alphabet is an interval,
/// which is divided into subintervals by the symbols that are stored: the
/// stored symbols `[a, b, c]` stand for the intervals from `a` up to `b` and
/// from `b` up to `c`. A transition can so be triggered by a whole range of
/// symbols.
#[derive(Clone, Debug)]
pub struct Alphabet {
    symbols: BTreeSet<i64>,
}

impl View for Alphabet {
    type V = Set<i64>;

    closed spec fn view(&self) -> Set<i64> {
        self.symbols@
    }
}

/// The set of the first `n` values of `vec`, together with 0.
pub open spec fn division_points(vec: Seq<i64>, n: int) -> Set<i64>
    decreases n,
{
    if n <= 0 {
        set![0i64]
    } else {
        division_points(vec, n - 1).insert(vec[n - 1])
    }
}

impl Alphabet {
    /// The alphabet that is divided at the symbol 0 only.
    pub fn new() -> (r: Self)
        ensures
            r@ == set![0i64],
    {
        let mut symbols: BTreeSet<i64> = BTreeSet::new();
        symbols.insert(0);
        Alphabet { symbols }
    }

    /// Inserts a range of symbols into the alphabet: the alphabet is
    /// divided at the first symbol of the range and behind its last symbol.
    pub fn insert(&mut self, start: Symbol, end: Symbol)
        requires
            end.val < i64::MAX,
        ensures
            final(self)@ == old(self)@.insert(start.val).insert((end.val + 1) as i64),
    {
        self.symbols.insert(start.val);
        self.symbols.insert(end.val + 1);
    }

    /// Whether the alphabet is divided at the given symbol.
    pub fn contains(&self, symbol: Symbol) -> (r: bool)
        ensures
            r == self@.contains(symbol.val),
    {
        self.symbols.contains(&symbol.val)
    }

    /// The number of symbols at which the alphabet is divided.
    pub fn len(&self) -> (r: usize)
        ensures
            r == self@.len(),
    {
        self.symbols.len()
    }

    /// The alphabet that is divided at 0 and at each of the given values.
    pub fn from_values(vec: Vec<i64>) -> (r: Self)
        ensures
            r@ == division_points(vec@, vec@.len() as int),
    {
        let mut dict = Alphabet::new();
        let mut i: usize = 0;
        while i < vec.len()
            invariant
                i <= vec.len(),
                dict@ == division_points(vec@, i as int),
            decreases vec.len() - i,
        {
            dict.symbols.insert(vec[i]);
            i = i + 1;
        }
        dict
    }
}

} // verus!
