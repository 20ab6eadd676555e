//! The short names under which a graph shows the kinds of nodes and the
//! types of values, made from the full names of their types.

use vstd::prelude::*;

verus! {

/// The first place at or behind `from` at which the character stands, or the
/// length of the text if it stands nowhere there.
pub open spec fn first_char(text: Seq<char>, c: char, from: int) -> int
    decreases text.len() - from,
{
    if from < 0 || from >= text.len() {
        text.len() as int
    } else if text[from] == c {
        from
    } else {
        first_char(text, c, from + 1)
    }
}

/// The word stands in the text at the place `at`.
pub open spec fn stands_at(text: Seq<char>, word: Seq<char>, at: int) -> bool {
    0 <= at && at + word.len() <= text.len() && text.subrange(at, at + word.len()) == word
}

/// The first place at or behind `from` at which the word stands in the
/// text, or the length of the text if it stands nowhere there.
pub open spec fn first_word(text: Seq<char>, word: Seq<char>, from: int) -> int
    decreases text.len() - from,
{
    if from < 0 || from >= text.len() {
        text.len() as int
    } else if stands_at(text, word, from) {
        from
    } else {
        first_word(text, word, from + 1)
    }
}

/// The place behind the last pair of colons among the first `n` characters
/// of the text, or 0 if there is no pair.
pub open spec fn last_segment(text: Seq<char>, n: int) -> int
    decreases n,
{
    if n < 2 {
        0
    } else if text[n - 2] == ':' && text[n - 1] == ':' {
        n
    } else {
        last_segment(text, n - 1)
    }
}

/// The text without the character `c`, from the place `from` on.
pub open spec fn without_char(text: Seq<char>, c: char, from: int) -> Seq<char>
    decreases text.len() - from,
{
    if from < 0 || from >= text.len() {
        Seq::empty()
    } else if text[from] == c {
        without_char(text, c, from + 1)
    } else {
        seq![text[from]] + without_char(text, c, from + 1)
    }
}

/// The name of a kind of node. Of the full name of the type of its shape
/// the part before the first `<` is taken, of this the part behind the last
/// `::`, and of this the part before the first `Shape`.
pub open spec fn spec_base_type_name(qual_name: Seq<char>) -> Seq<char> {
    let base_name = qual_name.subrange(0, first_char(qual_name, '<', 0));
    let name = base_name.subrange(last_segment(base_name, base_name.len() as int), base_name.len() as int);
    name.subrange(0, first_word(name, "Shape"@, 0))
}

/// The name of the type of the values of a message. Of the full name of the
/// type of the message the part behind the first `<` is taken, without any
/// further `<` and without its last character, and of this the part behind
/// the last `::`.
pub open spec fn spec_value_name(qual_name: Seq<char>) -> Seq<char> {
    let param = without_char(qual_name, '<', first_char(qual_name, '<', 0) + 1);
    let param = param.subrange(0, param.len() - 1);
    param.subrange(last_segment(param, param.len() as int), param.len() as int)
}

/// The first place at or behind `from` at which the character stands.
fn find_char(text: &str, c: char, from: usize) -> (r: usize)
    requires
        from <= text@.len(),
    ensures
        r == first_char(text@, c, from as int),
        from <= r <= text@.len(),
        r < text@.len() ==> text@[r as int] == c,
{
    let n = text.unicode_len();
    let mut i: usize = from;
    while i < n && text.get_char(i) != c
        invariant
            n == text@.len(),
            from <= i <= n,
            first_char(text@, c, from as int) == first_char(text@, c, i as int),
        decreases n - i,
    {
        i = i + 1;
    }
    i
}

/// Whether the word stands in the text at the place `at`.
fn word_at(text: &str, word: &str, at: usize) -> (r: bool)
    ensures
        r == stands_at(text@, word@, at as int),
{
    let n = text.unicode_len();
    let m = word.unicode_len();
    if m > n || at > n - m {
        return false;
    }
    let mut k: usize = 0;
    while k < m
        invariant
            n == text@.len(),
            m == word@.len(),
            k <= m,
            at + m <= n,
            forall|j: int| 0 <= j < k ==> text@[at + j] == word@[j],
        decreases m - k,
    {
        if text.get_char(at + k) != word.get_char(k) {
            proof {
                assert(text@.subrange(at as int, at + word@.len())[k as int] != word@[k as int]);
            }
            return false;
        }
        k = k + 1;
    }
    proof {
        assert(text@.subrange(at as int, at + word@.len()) =~= word@);
    }
    true
}

/// The first place at which the word stands in the text.
fn find_word(text: &str, word: &str) -> (r: usize)
    ensures
        r == first_word(text@, word@, 0),
        r <= text@.len(),
{
    let n = text.unicode_len();
    let mut i: usize = 0;
    while i < n && !word_at(text, word, i)
        invariant
            n == text@.len(),
            i <= n,
            first_word(text@, word@, 0) == first_word(text@, word@, i as int),
        decreases n - i,
    {
        i = i + 1;
    }
    i
}

/// The place behind the last pair of colons.
fn find_last_segment(text: &str) -> (r: usize)
    ensures
        r == last_segment(text@, text@.len() as int),
        r <= text@.len(),
{
    let mut n: usize = text.unicode_len();
    while n >= 2 && !(text.get_char(n - 2) == ':' && text.get_char(n - 1) == ':')
        invariant
            n <= text@.len(),
            last_segment(text@, text@.len() as int) == last_segment(text@, n as int),
        decreases n,
    {
        n = n - 1;
    }
    if n < 2 {
        0
    } else {
        n
    }
}

/// The name of a kind of node, from the full name of the type of its shape.
pub fn base_type_name(qual_name: &str) -> (r: String)
    ensures
        r@ == spec_base_type_name(qual_name@),
{
    let base_name = qual_name.substring_char(0, find_char(qual_name, '<', 0));
    let name = base_name.substring_char(find_last_segment(base_name), base_name.unicode_len());
    let cut = find_word(name, "Shape");
    String::from_str(name.substring_char(0, cut))
}

/// The text without the character `c`, from the place `from` on.
fn remove_char(text: &str, c: char, from: usize) -> (r: String)
    ensures
        r@ == without_char(text@, c, from as int),
{
    let n = text.unicode_len();
    let mut r = String::new();
    if from >= n {
        return r;
    }
    let mut i: usize = from;
    proof {
        assert(r@ + without_char(text@, c, from as int) =~= without_char(text@, c, from as int));
    }
    while i < n
        invariant
            n == text@.len(),
            from <= i <= n,
            r@ + without_char(text@, c, i as int) == without_char(text@, c, from as int),
        decreases n - i,
    {
        let ghost before = r@;
        if text.get_char(i) != c {
            r.append(text.substring_char(i, i + 1));
            proof {
                assert(text@.subrange(i as int, i + 1) =~= seq![text@[i as int]]);
                assert(r@ + without_char(text@, c, i as int + 1) =~= before + (seq![text@[i as int]]
                    + without_char(text@, c, i as int + 1)));
            }
        }
        i = i + 1;
    }
    proof {
        assert(r@ + Seq::<char>::empty() =~= r@);
    }
    r
}

/// The name of the type of the values of a message, from the full name of
/// the type of the message. The full name has to have a `<` with something
/// behind it.
pub fn output_type_value_name(qual_name: &str) -> (r: String)
    requires
        without_char(qual_name@, '<', first_char(qual_name@, '<', 0) + 1).len() > 0,
    ensures
        r@ == spec_value_name(qual_name@),
{
    let param = after_first_angle(qual_name);
    let param = param.as_str();
    let param = param.substring_char(0, param.unicode_len() - 1);
    String::from_str(param.substring_char(find_last_segment(param), param.unicode_len()))
}

/// Whether the full name of the type of a message has a `<` with something
/// behind it, so that it has a name of the type of its values.
pub fn has_value_name(qual_name: &str) -> (r: bool)
    ensures
        r == (without_char(qual_name@, '<', first_char(qual_name@, '<', 0) + 1).len() > 0),
{
    after_first_angle(qual_name).as_str().unicode_len() > 0
}

/// What stands behind the first `<`, without any further `<`.
fn after_first_angle(qual_name: &str) -> (r: String)
    ensures
        r@ == without_char(qual_name@, '<', first_char(qual_name@, '<', 0) + 1),
{
    let first = find_char(qual_name, '<', 0);
    if first >= qual_name.unicode_len() {
        String::new()
    } else {
        remove_char(qual_name, '<', first + 1)
    }
}

} // verus!
