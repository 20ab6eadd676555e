//! The order of texts, and lists of texts that are kept in this order.

use vstd::prelude::*;

verus! {

/// The text `a` stands before the text `b` in the order of a dictionary, in
/// which a character stands before every character with a greater code, and
/// a text stands before every longer text that begins with it.
pub open spec fn text_before(a: Seq<char>, b: Seq<char>) -> bool
    decreases a.len(),
{
    if b.len() == 0 {
        false
    } else if a.len() == 0 {
        true
    } else if a[0] != b[0] {
        (a[0] as int) < (b[0] as int)
    } else {
        text_before(a.skip(1), b.skip(1))
    }
}

/// Calls the comparison `<` that the standard library has for `str`. Its
/// documentation says that strings are ordered lexicographically by their
/// bytes, and that this orders the characters by their codes; the contract
/// states that order.
#[verifier::external_body]
pub(crate) fn text_less(a: &str, b: &str) -> (r: bool)
    ensures
        r == text_before(a@, b@),
{
    a < b
}

/// No text stands before itself.
pub proof fn lemma_text_before_irreflexive(a: Seq<char>)
    ensures
        !text_before(a, a),
    decreases a.len(),
{
    if a.len() > 0 {
        lemma_text_before_irreflexive(a.skip(1));
    }
}

/// Of two different texts one stands before the other.
pub proof fn lemma_text_before_total(a: Seq<char>, b: Seq<char>)
    ensures
        a == b || text_before(a, b) || text_before(b, a),
    decreases a.len(),
{
    if a.len() == 0 || b.len() == 0 {
        if a.len() == 0 && b.len() == 0 {
            assert(a =~= b);
        }
    } else if a[0] != b[0] {
    } else {
        lemma_text_before_total(a.skip(1), b.skip(1));
        if a.skip(1) == b.skip(1) {
            assert(a =~= seq![a[0]] + a.skip(1));
            assert(b =~= seq![b[0]] + b.skip(1));
        }
    }
}

/// The order is transitive.
pub proof fn lemma_text_before_transitive(a: Seq<char>, b: Seq<char>, c: Seq<char>)
    requires
        text_before(a, b),
        text_before(b, c),
    ensures
        text_before(a, c),
    decreases a.len(),
{
    if a.len() == 0 {
    } else if a[0] != b[0] {
    } else if b[0] != c[0] {
    } else {
        lemma_text_before_transitive(a.skip(1), b.skip(1), c.skip(1));
    }
}

/// The texts stand in rising order, each before the next, so that none
/// occurs twice.
pub open spec fn rising(names: Seq<String>) -> bool {
    forall|i: int, j: int| 0 <= i < j < names.len() ==> text_before(#[trigger] names[i]@, #[trigger] names[j]@)
}

/// The texts of the first `n` strings, as a set.
pub open spec fn text_set(names: Seq<String>, n: int) -> Set<Seq<char>>
    decreases n,
{
    if n <= 0 {
        Set::empty()
    } else {
        text_set(names, n - 1).insert(names[n - 1]@)
    }
}

/// A text is in the set of the first `n` texts exactly if it is one of them.
pub proof fn lemma_text_set(names: Seq<String>, n: int, t: Seq<char>)
    requires
        0 <= n <= names.len(),
    ensures
        text_set(names, n).contains(t) <==> exists|i: int| 0 <= i < n && (#[trigger] names[i])@ == t,
    decreases n,
{
    if n > 0 {
        lemma_text_set(names, n - 1, t);
        if text_set(names, n).contains(t) {
            if names[n - 1]@ == t {
            } else {
                let i = choose|i: int| 0 <= i < n - 1 && (#[trigger] names[i])@ == t;
                assert(0 <= i < n && names[i]@ == t);
            }
        }
    }
}

/// Puts a text into a list that is in rising order, at its place, unless
/// the list has the text.
pub fn insert_rising(names: &mut Vec<String>, name: String)
    requires
        rising(old(names)@),
    ensures
        rising(final(names)@),
        text_set(final(names)@, final(names)@.len() as int) == text_set(
            old(names)@,
            old(names)@.len() as int,
        ).insert(name@),
        text_set(old(names)@, old(names)@.len() as int).contains(name@) ==> final(names)@ == old(names)@,
{
    let mut i: usize = 0;
    while i < names.len() && text_less(names[i].as_str(), name.as_str())
        invariant
            i <= names.len(),
            names@ == old(names)@,
            forall|j: int| 0 <= j < i ==> text_before(#[trigger] names@[j]@, name@),
        decreases names.len() - i,
    {
        i = i + 1;
    }
    let ghost before = names@;
    let found = i < names.len() && names[i] == name;
    proof {
        assert forall|t: Seq<char>| #![auto] true implies (text_set(before, before.len() as int).contains(t) <==> exists|
            j: int,
        |
            0 <= j < before.len() && (#[trigger] before[j])@ == t) by {
            lemma_text_set(before, before.len() as int, t);
        }
    }
    if found {
        proof {
            assert(before[i as int]@ == name@);
            assert(text_set(before, before.len() as int).insert(name@) =~= text_set(before, before.len() as int));
        }
    } else {
        names.insert(i, name);
        proof {
            let after = names@;
            assert(after == before.insert(i as int, name));
            if i < before.len() {
                lemma_text_before_total(before[i as int]@, name@);
            }
            assert forall|a: int, b: int| 0 <= a < b < after.len() implies text_before(
                #[trigger] after[a]@,
                #[trigger] after[b]@,
            ) by {
                if b < i {
                    assert(after[a] == before[a] && after[b] == before[b]);
                } else if b == i {
                    assert(after[a] == before[a]);
                } else if a < i {
                    assert(after[a] == before[a] && after[b] == before[b - 1]);
                    if b - 1 == i {
                        lemma_text_before_transitive(before[a]@, name@, before[i as int]@);
                    } else {
                        assert(text_before(before[a]@, before[b - 1]@));
                    }
                } else if a == i {
                    assert(after[b] == before[b - 1]);
                    if b - 1 > i {
                        lemma_text_before_transitive(name@, before[i as int]@, before[b - 1]@);
                    }
                } else {
                    assert(after[a] == before[a - 1] && after[b] == before[b - 1]);
                }
            }
            assert forall|t: Seq<char>| text_set(after, after.len() as int).contains(t) <==> text_set(
                before,
                before.len() as int,
            ).insert(name@).contains(t) by {
                lemma_text_set(after, after.len() as int, t);
                if text_set(after, after.len() as int).contains(t) {
                    let j = choose|j: int| 0 <= j < after.len() && (#[trigger] after[j])@ == t;
                    if j < i {
                        assert(before[j]@ == t);
                    } else if j > i {
                        assert(before[j - 1]@ == t);
                    }
                }
                if text_set(before, before.len() as int).contains(t) {
                    let j = choose|j: int| 0 <= j < before.len() && (#[trigger] before[j])@ == t;
                    if j < i {
                        assert(after[j]@ == t);
                    } else {
                        assert(after[j + 1]@ == t);
                    }
                }
                if t == name@ {
                    assert(after[i as int]@ == t);
                }
            }
            assert(text_set(after, after.len() as int) =~= text_set(before, before.len() as int).insert(name@));
            if text_set(before, before.len() as int).contains(name@) {
                let j = choose|j: int| 0 <= j < before.len() && (#[trigger] before[j])@ == name@;
                if j < i {
                    lemma_text_before_irreflexive(name@);
                } else if j > i {
                    lemma_text_before_irreflexive(name@);
                    lemma_text_before_transitive(name@, before[i as int]@, before[j]@);
                }
                assert(false);
            }
        }
    }
}

/// The texts of a list in rising order, each once.
pub fn sorted_unique(names: &Vec<String>) -> (r: Vec<String>)
    ensures
        rising(r@),
        text_set(r@, r@.len() as int) == text_set(names@, names@.len() as int),
{
    let mut r: Vec<String> = Vec::new();
    let mut i: usize = 0;
    while i < names.len()
        invariant
            i <= names.len(),
            rising(r@),
            text_set(r@, r@.len() as int) == text_set(names@, i as int),
        decreases names.len() - i,
    {
        insert_rising(&mut r, names[i].clone());
        i = i + 1;
    }
    r
}

} // verus!
