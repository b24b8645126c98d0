//! Small helpers on text: a string as a vector of characters, literals at a
//! position, runs of digits and of field characters.

use vstd::prelude::*;

verus! {

pub open spec fn is_digit(c: char) -> bool {
    '0' <= c <= '9'
}

/// Whether `text` is a non-empty run of the digits `0` to `9`.
pub open spec fn is_number(text: Seq<char>) -> bool {
    text.len() > 0 && forall|i: int| 0 <= i < text.len() ==> is_digit(#[trigger] text[i])
}

/// Whether `text` is non-empty and holds no `&`.
pub open spec fn is_token(text: Seq<char>) -> bool {
    text.len() > 0 && forall|i: int| 0 <= i < text.len() ==> #[trigger] text[i] != '&'
}

/// Whether `literal` stands in `text` at position `at`.
pub open spec fn has_literal_at(text: Seq<char>, at: int, literal: Seq<char>) -> bool {
    &&& 0 <= at
    &&& at + literal.len() <= text.len()
    &&& text.subrange(at, at + literal.len()) == literal
}

/// Where the longest run of digits that starts at `from` ends.
pub open spec fn digits_end(text: Seq<char>, from: int) -> int
    decreases text.len() - from,
{
    if 0 <= from < text.len() && is_digit(text[from]) {
        digits_end(text, from + 1)
    } else {
        from
    }
}

/// Where the longest run of characters other than `&` that starts at `from`
/// ends.
pub open spec fn token_end(text: Seq<char>, from: int) -> int
    decreases text.len() - from,
{
    if 0 <= from < text.len() && text[from] != '&' {
        token_end(text, from + 1)
    } else {
        from
    }
}

/// The characters of `text`, in order.
pub fn chars_of(text: &str) -> (chars: Vec<char>)
    ensures
        chars@ == text@,
{
    let mut chars: Vec<char> = Vec::new();
    for c in it: text.chars()
        invariant
            it.seq() == text@,
            chars@ == it.seq().take(it.index()),
    {
        chars.push(c);
    }
    chars
}

/// Whether `literal` stands in `text` at position `at`.
pub fn literal_at(text: &Vec<char>, at: usize, literal: &str) -> (found: bool)
    ensures
        found == has_literal_at(text@, at as int, literal@),
{
    let n: usize = literal.unicode_len();
    if at > text.len() || n > text.len() - at {
        return false;
    }
    let mut j: usize = 0;
    while j < n
        invariant
            n == literal@.len(),
            at + n <= text.len(),
            j <= n,
            text@.subrange(at as int, at + j) == literal@.subrange(0, j as int),
        decreases n - j,
    {
        if text[at + j] != literal.get_char(j) {
            assert(text@.subrange(at as int, at + n)[j as int] != literal@[j as int]);
            return false;
        }
        assert(text@.subrange(at as int, at + j + 1) == text@.subrange(at as int, at + j).push(
            text@[at + j],
        ));
        assert(literal@.subrange(0, j + 1) == literal@.subrange(0, j as int).push(
            literal@[j as int],
        ));
        j += 1;
    }
    assert(literal@.subrange(0, n as int) == literal@);
    true
}

/// Where the longest run of digits that starts at `from` ends.
pub fn scan_digits(text: &Vec<char>, from: usize) -> (end: usize)
    requires
        from <= text.len(),
    ensures
        end == digits_end(text@, from as int),
        from <= end <= text.len(),
        forall|i: int| from <= i < end ==> is_digit(#[trigger] text@[i]),
{
    let mut end: usize = from;
    while end < text.len() && '0' <= text[end] && text[end] <= '9'
        invariant
            from <= end <= text.len(),
            digits_end(text@, from as int) == digits_end(text@, end as int),
            forall|i: int| from <= i < end ==> is_digit(#[trigger] text@[i]),
        decreases text.len() - end,
    {
        end += 1;
    }
    end
}

/// Where the longest run of characters other than `&` that starts at `from`
/// ends.
pub fn scan_token(text: &Vec<char>, from: usize) -> (end: usize)
    requires
        from <= text.len(),
    ensures
        end == token_end(text@, from as int),
        from <= end <= text.len(),
        forall|i: int| from <= i < end ==> #[trigger] text@[i] != '&',
{
    let mut end: usize = from;
    while end < text.len() && text[end] != '&'
        invariant
            from <= end <= text.len(),
            token_end(text@, from as int) == token_end(text@, end as int),
            forall|i: int| from <= i < end ==> #[trigger] text@[i] != '&',
        decreases text.len() - end,
    {
        end += 1;
    }
    end
}

/// Between `from` and the end of its run stand digits only, and the run ends
/// within the text.
pub proof fn lemma_run_of_digits(text: Seq<char>, from: int)
    requires
        0 <= from <= text.len(),
    ensures
        from <= digits_end(text, from) <= text.len(),
        forall|i: int| from <= i < digits_end(text, from) ==> is_digit(#[trigger] text[i]),
        forall|i: int|
            0 <= i < digits_end(text, from) - from ==> is_digit(
                #[trigger] text.subrange(from, digits_end(text, from))[i],
            ),
        digits_end(text, from) < text.len() ==> !is_digit(text[digits_end(text, from)]),
    decreases text.len() - from,
{
    if from < text.len() && is_digit(text[from]) {
        lemma_run_of_digits(text, from + 1);
    }
}

/// Between `from` and the end of its run stands no `&`, and the run ends within
/// the text.
pub proof fn lemma_run_without_ampersand(text: Seq<char>, from: int)
    requires
        0 <= from <= text.len(),
    ensures
        from <= token_end(text, from) <= text.len(),
        forall|i: int| from <= i < token_end(text, from) ==> #[trigger] text[i] != '&',
        forall|i: int|
            0 <= i < token_end(text, from) - from ==> #[trigger] text.subrange(
                from,
                token_end(text, from),
            )[i] != '&',
        token_end(text, from) < text.len() ==> text[token_end(text, from)] == '&',
    decreases text.len() - from,
{
    if from < text.len() && text[from] != '&' {
        lemma_run_without_ampersand(text, from + 1);
    }
}

/// A run of digits that is followed by something else, or by nothing, ends
/// where the something else begins.
pub proof fn lemma_digits_end(text: Seq<char>, from: int, end: int)
    requires
        0 <= from <= end <= text.len(),
        forall|i: int| from <= i < end ==> is_digit(#[trigger] text[i]),
        end < text.len() ==> !is_digit(text[end]),
    ensures
        digits_end(text, from) == end,
    decreases end - from,
{
    if from < end {
        lemma_digits_end(text, from + 1, end);
    }
}

/// A run of characters other than `&` that is followed by `&`, or by nothing,
/// ends where the `&` stands.
pub proof fn lemma_token_end(text: Seq<char>, from: int, end: int)
    requires
        0 <= from <= end <= text.len(),
        forall|i: int| from <= i < end ==> #[trigger] text[i] != '&',
        end < text.len() ==> text[end] == '&',
    ensures
        token_end(text, from) == end,
    decreases end - from,
{
    if from < end {
        lemma_token_end(text, from + 1, end);
    }
}

/// Whether `a` comes before `b` in the order of texts, looking from position
/// `from` on: at the first position where they differ `a` holds the lesser
/// character, or `a` ends there and `b` goes on.
pub open spec fn precedes_from(a: Seq<char>, b: Seq<char>, from: int) -> bool
    decreases b.len() - from,
{
    if from < 0 || from >= b.len() {
        false
    } else if from >= a.len() {
        true
    } else if a[from] != b[from] {
        a[from] < b[from]
    } else {
        precedes_from(a, b, from + 1)
    }
}

/// Whether `a` comes before `b` in the order of texts: character by
/// character, a shorter text before its continuations.
pub open spec fn precedes(a: Seq<char>, b: Seq<char>) -> bool {
    precedes_from(a, b, 0)
}

/// Whether `a` comes before `b` in the order of texts.
pub fn comes_before(a: &str, b: &str) -> (before: bool)
    ensures
        before == precedes(a@, b@),
{
    let x = chars_of(a);
    let y = chars_of(b);
    let mut i: usize = 0;
    while i < x.len() && i < y.len()
        invariant
            x@ == a@,
            y@ == b@,
            i <= x.len(),
            i <= y.len(),
            precedes(a@, b@) == precedes_from(a@, b@, i as int),
        decreases x.len() - i,
    {
        if x[i] != y[i] {
            return x[i] < y[i];
        }
        i += 1;
    }
    i < y.len()
}

/// No text comes before itself.
pub proof fn lemma_precedes_is_irreflexive(a: Seq<char>, from: int)
    ensures
        !precedes_from(a, a, from),
    decreases a.len() - from,
{
    if 0 <= from < a.len() {
        lemma_precedes_is_irreflexive(a, from + 1);
    }
}

/// What comes before a text comes before everything that the text comes
/// before.
pub proof fn lemma_precedes_is_transitive(a: Seq<char>, b: Seq<char>, c: Seq<char>, from: int)
    requires
        precedes_from(a, b, from),
        precedes_from(b, c, from),
    ensures
        precedes_from(a, c, from),
    decreases c.len() - from,
{
    if from < a.len() && a[from] == b[from] && b[from] == c[from] {
        lemma_precedes_is_transitive(a, b, c, from + 1);
    }
}

/// Of two texts at most one comes before the other.
pub proof fn lemma_precedes_is_asymmetric(a: Seq<char>, b: Seq<char>)
    requires
        precedes(a, b),
    ensures
        !precedes(b, a),
{
    if precedes(b, a) {
        lemma_precedes_is_transitive(a, b, a, 0);
        lemma_precedes_is_irreflexive(a, 0);
    }
}

} // verus!
