//! Strings as sequences of characters, and the order in which key
//! identifiers are kept: strings compared character by character, a proper
//! prefix before its extensions.

use vstd::prelude::*;
use vstd::std_specs::iter::IteratorSpec;

verus! {

broadcast use vstd::string::group_string_axioms;

/// An optional string as an optional sequence of characters.
pub open spec fn text_of(text: Option<String>) -> Option<Seq<char>> {
    match text {
        Some(s) => Some(s@),
        None => None,
    }
}

/// The strings of a list, each as its view.
pub open spec fn texts(list: Seq<String>) -> Seq<Seq<char>> {
    Seq::new(list.len(), |i: int| list[i]@)
}

/// `a` comes strictly before `b` in lexicographic order.
pub open spec fn precedes(a: Seq<char>, b: Seq<char>) -> bool
    decreases a.len(),
{
    if b.len() == 0 {
        false
    } else if a.len() == 0 {
        true
    } else if a[0] == b[0] {
        precedes(a.drop_first(), b.drop_first())
    } else {
        (a[0] as int) < (b[0] as int)
    }
}

/// How one string stands to another.
#[derive(Debug, Clone, Copy, PartialEq, Eq, Structural)]
pub enum Place {
    /// Strictly before the other.
    Before,
    /// The same string.
    Same,
    /// Strictly after the other.
    After,
}

/// No string comes before itself.
pub proof fn lemma_precedes_irreflexive(a: Seq<char>)
    ensures
        !precedes(a, a),
    decreases a.len(),
{
    if a.len() > 0 {
        lemma_precedes_irreflexive(a.drop_first());
    }
}

/// Of two strings exactly one holds: the first comes before the second, they
/// are equal, or the second comes before the first.
pub proof fn lemma_precedes_total(a: Seq<char>, b: Seq<char>)
    ensures
        precedes(a, b) || a == b || precedes(b, a),
        !(precedes(a, b) && precedes(b, a)),
        !(precedes(a, b) && a == b),
    decreases a.len(),
{
    if a.len() > 0 && b.len() > 0 && a[0] == b[0] {
        lemma_precedes_total(a.drop_first(), b.drop_first());
        if a.drop_first() == b.drop_first() {
            assert(a =~= seq![a[0]] + a.drop_first());
            assert(b =~= seq![b[0]] + b.drop_first());
        }
    }
}

/// The order is transitive.
pub proof fn lemma_precedes_transitive(a: Seq<char>, b: Seq<char>, c: Seq<char>)
    requires
        precedes(a, b),
        precedes(b, c),
    ensures
        precedes(a, c),
    decreases a.len(),
{
    if a.len() > 0 && a[0] == b[0] && b[0] == c[0] {
        lemma_precedes_transitive(a.drop_first(), b.drop_first(), c.drop_first());
    }
}

/// Places `a` relative to `b` in lexicographic order.
pub fn place(a: &str, b: &str) -> (at: Place)
    ensures
        (at is Before) == precedes(a@, b@),
        (at is Same) == (a@ == b@),
        (at is After) == precedes(b@, a@),
{
    let mut left = a.chars();
    let mut right = b.chars();
    let ghost mut seen: int = 0;
    loop
        invariant
            0 <= seen <= a@.len(),
            seen <= b@.len(),
            left.remaining() == a@.skip(seen),
            right.remaining() == b@.skip(seen),
            precedes(a@, b@) == precedes(a@.skip(seen), b@.skip(seen)),
            precedes(b@, a@) == precedes(b@.skip(seen), a@.skip(seen)),
            (a@ == b@) == (a@.skip(seen) == b@.skip(seen)),
        decreases a@.len() - seen,
    {
        let ghost rest_a = a@.skip(seen);
        let ghost rest_b = b@.skip(seen);
        let x = left.next();
        let y = right.next();
        proof {
            lemma_precedes_total(rest_a, rest_b);
        }
        match (x, y) {
            (None, None) => {
                return Place::Same;
            },
            (None, Some(_)) => {
                return Place::Before;
            },
            (Some(_), None) => {
                return Place::After;
            },
            (Some(p), Some(q)) => {
                if p < q {
                    return Place::Before;
                }
                if q < p {
                    return Place::After;
                }
                proof {
                    assert(rest_a.drop_first() =~= a@.skip(seen + 1));
                    assert(rest_b.drop_first() =~= b@.skip(seen + 1));
                    if rest_a.drop_first() == rest_b.drop_first() {
                        assert(rest_a =~= seq![rest_a[0]] + rest_a.drop_first());
                        assert(rest_b =~= seq![rest_b[0]] + rest_b.drop_first());
                    }
                    seen = seen + 1;
                }
            },
        }
    }
}

/// Whether two strings are the same.
pub fn same(a: &str, b: &str) -> (equal: bool)
    ensures
        equal == (a@ == b@),
{
    place(a, b) == Place::Same
}

/// Whether a list of strings holds the given one.
pub fn holds(list: &Vec<String>, text: &str) -> (held: bool)
    ensures
        held == texts(list@).contains(text@),
{
    let mut next: usize = 0;
    while next < list.len()
        invariant
            next <= list.len(),
            forall|i: int| 0 <= i < next ==> texts(list@)[i] != text@,
        decreases list.len() - next,
    {
        if same(list[next].as_str(), text) {
            assert(texts(list@)[next as int] == text@);
            return true;
        }
        next += 1;
    }
    false
}

/// The index at which a character stands last in a string, if it stands in
/// it at all.
pub open spec fn last_index(text: Seq<char>, mark: char) -> Option<int>
    decreases text.len(),
{
    if text.len() == 0 {
        None
    } else if text.last() == mark {
        Some(text.len() - 1)
    } else {
        last_index(text.drop_last(), mark)
    }
}

/// The last index of a character in a string is an index of the string at
/// which the character stands, and it stands at no later one. Without such
/// an index the character is not in the string.
pub proof fn lemma_last_index(text: Seq<char>, mark: char)
    ensures
        match last_index(text, mark) {
            Some(at) => 0 <= at < text.len() && text[at] == mark && forall|later: int|
                at < later < text.len() ==> text[later] != mark,
            None => forall|i: int| 0 <= i < text.len() ==> text[i] != mark,
        },
    decreases text.len(),
{
    if text.len() > 0 && text.last() != mark {
        let front = text.drop_last();
        lemma_last_index(front, mark);
        match last_index(front, mark) {
            Some(at) => {
                assert forall|later: int| at < later < text.len() implies text[later] != mark by {
                    if later < front.len() {
                        assert(front[later] != mark);
                    }
                }
            },
            None => {
                assert forall|i: int| 0 <= i < text.len() implies text[i] != mark by {
                    if i < front.len() {
                        assert(front[i] != mark);
                    }
                }
            },
        }
    }
}

/// Splits a string at the last place where a character stands in it, into
/// what comes before that place and what comes after it.
pub fn split_last<'a>(text: &'a str, mark: char) -> (parts: Option<(&'a str, &'a str)>)
    ensures
        match parts {
            Some((before, after)) => last_index(text@, mark) matches Some(at) && before@
                == text@.take(at) && after@ == text@.skip(at + 1),
            None => last_index(text@, mark) is None,
        },
{
    let length = text.unicode_len();
    let mut rest = text.chars();
    let mut found: Option<usize> = None;
    let mut seen: usize = 0;
    assert(text@.skip(0) =~= text@);
    while seen < length
        invariant
            length == text@.len(),
            seen <= length,
            rest.remaining() == text@.skip(seen as int),
            match found {
                Some(at) => last_index(text@.take(seen as int), mark) == Some(at as int),
                None => last_index(text@.take(seen as int), mark) is None,
            },
        decreases length - seen,
    {
        let next = rest.next();
        proof {
            assert(text@.skip(seen as int).drop_first() =~= text@.skip(seen + 1));
            assert(text@.take(seen + 1).drop_last() =~= text@.take(seen as int));
            assert(text@.take(seen + 1).last() == text@[seen as int]);
        }
        if next == Some(mark) {
            found = Some(seen);
        }
        seen += 1;
    }
    proof {
        assert(text@.take(length as int) =~= text@);
        lemma_last_index(text@, mark);
    }
    match found {
        Some(at) => {
            let before = text.substring_char(0, at);
            let after = text.substring_char(at + 1, length);
            assert(before@ =~= text@.take(at as int));
            assert(after@ =~= text@.skip(at + 1));
            Some((before, after))
        },
        None => None,
    }
}

} // verus!
