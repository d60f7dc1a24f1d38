//! Text helpers shared by the rest of the library.

use vstd::prelude::*;

verus! {

/// The upper-case form of a text, as `str::to_uppercase` gives it.
pub uninterp spec fn uppercase_of(text: Seq<char>) -> Seq<char>;

/// The lower-case form of a text, as `str::to_lowercase` gives it.
pub uninterp spec fn lowercase_of(text: Seq<char>) -> Seq<char>;

/// Calls `str::to_uppercase`, which maps every character by the Unicode upper-case rules.
#[verifier::external_body]
pub(crate) fn to_uppercase(text: &str) -> (upper: String)
    ensures
        upper@ == uppercase_of(text@),
{
    text.to_uppercase()
}

/// Calls `str::to_lowercase`, which maps every character by the Unicode lower-case rules.
#[verifier::external_body]
pub(crate) fn to_lowercase(text: &str) -> (lower: String)
    ensures
        lower@ == lowercase_of(text@),
{
    text.to_lowercase()
}

/// `str` equality compares the two texts character by character.
pub assume_specification[ <str as PartialEq>::eq ](a: &str, b: &str) -> (same: bool)
    ensures
        same == (a@ == b@),
;

/// `String::push` appends one character.
pub assume_specification[ String::push ](text: &mut String, c: char)
    ensures
        final(text)@ == old(text)@.push(c),
;

/// Two names are the same header or method name when their lower-case forms are equal.
pub open spec fn same_ignoring_case(a: Seq<char>, b: Seq<char>) -> bool {
    lowercase_of(a) == lowercase_of(b)
}

/// Compares two names without regard to case.
pub fn eq_ignoring_case(a: &str, b: &str) -> (same: bool)
    ensures
        same == same_ignoring_case(a@, b@),
{
    let a = to_lowercase(a);
    let b = to_lowercase(b);
    a == b
}

/// The position of the first `:` in a text, or its length where it has none.
pub open spec fn colon_or_end(text: Seq<char>) -> int
    decreases text.len(),
{
    if text.len() == 0 || text[0] == ':' {
        0
    } else {
        1 + colon_or_end(text.drop_first())
    }
}

/// `colon_or_end` is the one position with no `:` before it that holds a `:` or is the end.
pub proof fn lemma_colon_or_end(text: Seq<char>, at: int)
    requires
        0 <= at <= text.len(),
        forall|j: int| 0 <= j < at ==> text[j] != ':',
        at < text.len() ==> text[at] == ':',
    ensures
        colon_or_end(text) == at,
    decreases text.len(),
{
    if at > 0 {
        let rest = text.drop_first();
        assert forall|j: int| 0 <= j < at - 1 implies rest[j] != ':' by {
            assert(rest[j] == text[j + 1]);
        }
        lemma_colon_or_end(rest, at - 1);
    }
}

/// The text before the first `:`: the whole text where it has none.
pub open spec fn head_of(text: Seq<char>) -> Seq<char> {
    text.take(colon_or_end(text))
}

/// The text after the first `:`, where there is one.
pub open spec fn tail_of(text: Seq<char>) -> Option<Seq<char>> {
    if colon_or_end(text) < text.len() {
        Some(text.skip(colon_or_end(text) + 1))
    } else {
        None
    }
}

/// Splits a text at its first `:`.
pub fn split_at_colon(text: &str) -> (parts: (String, Option<String>))
    ensures
        parts.0@ == head_of(text@),
        parts.1.deep_view() == tail_of(text@),
{
    let mut head = String::new();
    let mut tail = String::new();
    let mut found = false;
    for c in it: text.chars()
        invariant
            it.seq() == text@,
            !found ==> head@ == text@.take(it.index() as int) && !head@.contains(':')
                && tail@.len() == 0,
            found ==> head@.len() < it.index() && head@ == text@.take(head@.len() as int)
                && !head@.contains(':') && text@[head@.len() as int] == ':' && tail@
                == text@.subrange(head@.len() as int + 1, it.index() as int),
    {
        if found {
            tail.push(c);
            assert(text@.subrange(head@.len() as int + 1, it.index() + 1) =~= text@.subrange(
                head@.len() as int + 1,
                it.index() as int,
            ).push(c));
        } else if c == ':' {
            found = true;
            assert(tail@ =~= text@.subrange(head@.len() as int + 1, it.index() + 1));
        } else {
            head.push(c);
            assert(text@.take(it.index() + 1) =~= text@.take(it.index() as int).push(c));
        }
    }
    proof {
        let at = head@.len() as int;
        assert forall|j: int| 0 <= j < at implies text@[j] != ':' by {
            assert(head@[j] == text@[j]);
            assert(head@.contains(head@[j]));
        }
        if !found {
            assert(text@.take(text@.len() as int) =~= text@);
        }
        lemma_colon_or_end(text@, at);
        if found {
            assert(tail@ =~= text@.skip(at + 1));
        }
    }
    if found {
        (head, Some(tail))
    } else {
        (head, None)
    }
}

/// The texts of a list put one after the other, with a separator between two neighbours.
pub open spec fn joined(parts: Seq<Seq<char>>, separator: Seq<char>) -> Seq<char>
    decreases parts.len(),
{
    if parts.len() == 0 {
        Seq::empty()
    } else if parts.len() == 1 {
        parts[0]
    } else {
        joined(parts.drop_last(), separator) + separator + parts.last()
    }
}

/// Joins the texts of a list with a separator.
pub fn join(parts: &Vec<String>, separator: &str) -> (text: String)
    ensures
        text@ == joined(parts.deep_view(), separator@),
{
    let mut text = String::new();
    for i in 0..parts.len()
        invariant
            text@ == joined(parts.deep_view().take(i as int), separator@),
    {
        proof {
            let now = parts.deep_view().take(i + 1);
            assert(now.drop_last() =~= parts.deep_view().take(i as int));
            assert(now.last() == parts@[i as int]@);
            if i == 0 {
                assert(text@ =~= Seq::<char>::empty());
                assert(joined(now, separator@) =~= Seq::<char>::empty() + parts@[i as int]@);
            }
        }
        if i > 0 {
            text.append(separator);
        }
        text.append(parts[i].as_str());
    }
    assert(parts.deep_view().take(parts.len() as int) =~= parts.deep_view());
    text
}

} // verus!
