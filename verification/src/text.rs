//! Comparing and searching text.
use vstd::prelude::*;

verus! {

/// `pattern` stands in `text` at position `at`.
pub open spec fn occurs_at(text: Seq<char>, pattern: Seq<char>, at: int) -> bool {
    &&& 0 <= at <= text.len() - pattern.len()
    &&& text.subrange(at, at + pattern.len()) == pattern
}

/// Whether `pattern` stands in `text` at position `at`.
fn stands_at(text: &str, pattern: &str, at: usize, len: usize) -> (yes: bool)
    requires
        len == pattern@.len(),
        at + len <= text@.len(),
        text@.len() <= usize::MAX,
    ensures
        yes == occurs_at(text@, pattern@, at as int),
{
    for i in 0..len
        invariant
            len == pattern@.len(),
            at + len <= text@.len(),
            text@.len() <= usize::MAX,
            forall|j: int| 0 <= j < i ==> text@[at + j] == pattern@[j],
    {
        if text.get_char(at + i) != pattern.get_char(i) {
            assert(text@.subrange(at as int, at + len)[i as int] != pattern@[i as int]);
            return false;
        }
    }
    assert(text@.subrange(at as int, at + len) =~= pattern@);
    true
}

/// Whether `pattern` occurs in `text`.
pub fn contains(text: &str, pattern: &str) -> (yes: bool)
    ensures
        yes == exists|at: int| occurs_at(text@, pattern@, at),
{
    let len: usize = text.unicode_len();
    let width: usize = pattern.unicode_len();
    if width > len {
        return false;
    }
    for at in 0..len - width
        invariant
            len == text@.len(),
            width == pattern@.len(),
            width <= len,
            forall|before: int| 0 <= before < at ==> !occurs_at(text@, pattern@, before),
    {
        if stands_at(text, pattern, at, width) {
            return true;
        }
    }
    stands_at(text, pattern, len - width, width)
}

/// Whether two texts are the same.
pub fn same(a: &str, b: &str) -> (yes: bool)
    ensures
        yes == (a@ == b@),
{
    let len: usize = a.unicode_len();
    if len != b.unicode_len() {
        return false;
    }
    let yes: bool = stands_at(a, b, 0, len);
    assert(a@.subrange(0, len as int) =~= a@);
    yes
}

/// A pattern stands in a text behind whatever comes before it: in the text made of
/// `before`, the pattern and `after` it stands behind `before`.
pub proof fn law_pattern_is_found_where_it_was_put(
    before: Seq<char>,
    pattern: Seq<char>,
    after: Seq<char>,
)
    ensures
        occurs_at(before + pattern + after, pattern, before.len() as int),
{
    let text = before + pattern + after;
    assert(text.subrange(before.len() as int, (before.len() + pattern.len()) as int) =~= pattern);
}

/// Where a pattern stands in a text, the text is made of what comes before it, the
/// pattern and what comes after it.
pub proof fn law_occurrence_splits_the_text(text: Seq<char>, pattern: Seq<char>, at: int)
    requires
        occurs_at(text, pattern, at),
    ensures
        0 <= at,
        at + pattern.len() <= text.len(),
        text == text.take(at) + pattern + text.skip(at + pattern.len()),
{
    assert(text =~= text.take(at) + text.subrange(at, at + pattern.len()) + text.skip(
        at + pattern.len(),
    ));
}

} // verus!
