//! Texts as character sequences, and their sections between dots.

use vstd::prelude::*;

verus! {

/// Where the first `.` of `s` stands, or the length of `s` if it has none.
pub open spec fn dot_index(s: Seq<char>) -> int
    decreases s.len(),
{
    if s.len() == 0 || s[0] == '.' {
        0
    } else {
        1 + dot_index(s.drop_first())
    }
}

/// The first section of `s`: what stands before its first `.`, or all of `s`
/// if it has none.
pub open spec fn head(s: Seq<char>) -> Seq<char> {
    s.take(dot_index(s))
}

/// What follows the first `.` of `s`, if it has one.
pub open spec fn tail(s: Seq<char>) -> Option<Seq<char>> {
    if dot_index(s) < s.len() {
        Some(s.skip(dot_index(s) + 1))
    } else {
        None
    }
}

/// `dot_index(s)` is the least index of a `.` in `s`, or its length.
pub proof fn dot_index_is_first(s: Seq<char>)
    ensures
        0 <= dot_index(s) <= s.len(),
        dot_index(s) < s.len() ==> s[dot_index(s)] == '.',
        forall|i: int| 0 <= i < dot_index(s) ==> s[i] != '.',
    decreases s.len(),
{
    if s.len() == 0 || s[0] == '.' {
    } else {
        let rest = s.drop_first();
        dot_index_is_first(rest);
        assert forall|i: int| 0 <= i < dot_index(s) implies s[i] != '.' by {
            if i > 0 {
                assert(s[i] == rest[i - 1]);
            }
        }
    }
}

/// An index below which `s` has no `.`, and which is the length of `s` or
/// holds a `.`, is `dot_index(s)`.
pub proof fn dot_index_unique(s: Seq<char>, n: int)
    requires
        0 <= n <= s.len(),
        n < s.len() ==> s[n] == '.',
        forall|i: int| 0 <= i < n ==> s[i] != '.',
    ensures
        dot_index(s) == n,
    decreases s.len(),
{
    if s.len() == 0 || s[0] == '.' {
    } else {
        let rest = s.drop_first();
        assert forall|i: int| 0 <= i < n - 1 implies rest[i] != '.' by {
            assert(rest[i] == s[i + 1]);
        }
        dot_index_unique(rest, n - 1);
    }
}

/// A dot and more text at the end of `s` leave the first section as it is
/// and lengthen what follows it.
pub proof fn sections_of_longer(s: Seq<char>, more: Seq<char>)
    ensures
        head(s + seq!['.'] + more) == head(s),
        tail(s + seq!['.'] + more) == Some(
            match tail(s) {
                Some(rest) => rest + seq!['.'] + more,
                None => more,
            },
        ),
{
    let longer = s + seq!['.'] + more;
    let d: int = dot_index(s);
    dot_index_is_first(s);
    dot_index_unique(longer, d);
    assert(longer.take(d) =~= s.take(d));
    if d < s.len() {
        assert(longer.skip(d + 1) =~= s.skip(d + 1) + seq!['.'] + more);
    } else {
        assert(longer.skip(d + 1) =~= more);
    }
}

/// The characters of `s`, in order.
pub fn chars_of(s: &str) -> (chars: Vec<char>)
    ensures
        chars@ == s@,
{
    broadcast use vstd::string::group_string_axioms;

    let mut chars: Vec<char> = Vec::new();
    for c in it: s.chars()
        invariant
            chars@ == it.seq().take(it.index() as int),
            it.seq() == s@,
    {
        chars.push(c);
    }
    chars
}

/// Finds where the section of `chars` that begins at `from` ends: at the next
/// `.`, or at the end of `chars`.
pub fn section_end(chars: &Vec<char>, from: usize) -> (end: usize)
    requires
        from <= chars.len(),
    ensures
        from <= end <= chars.len(),
        end == from + dot_index(chars@.skip(from as int)),
        chars@.subrange(from as int, end as int) == head(chars@.skip(from as int)),
        tail(chars@.skip(from as int)) == if end < chars.len() {
            Some(chars@.skip(end + 1))
        } else {
            None
        },
{
    let mut end: usize = from;
    while end < chars.len() && chars[end] != '.'
        invariant
            from <= end <= chars.len(),
            forall|i: int| from <= i < end ==> chars[i] != '.',
        decreases chars.len() - end,
    {
        end = end + 1;
    }
    proof {
        let rest = chars@.skip(from as int);
        dot_index_unique(rest, end - from);
        assert(rest.take(end - from) == chars@.subrange(from as int, end as int));
        if end < chars.len() {
            assert(rest.skip(end - from + 1) == chars@.skip(end + 1));
        }
    }
    end
}

} // verus!
