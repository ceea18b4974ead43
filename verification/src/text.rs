//! Small tools for the text of headers and paths.

use vstd::prelude::*;
use vstd::string::StrSliceExecFns;

verus! {

/// The characters of a string.
pub fn chars_of(s: &str) -> (chars: Vec<char>)
    ensures
        chars@ == s@,
{
    let mut chars: Vec<char> = Vec::new();
    for c in it: s.chars()
        invariant
            it.seq() == s@,
            chars@ == s@.take(it.index() as int),
    {
        chars.push(c);
        assert(s@.take(it.index() + 1) =~= s@.take(it.index() as int).push(c));
    }
    assert(s@.take(s@.len() as int) =~= s@);
    chars
}

/// Whether the characters of `text` from `from` up to `to` are those of
/// `word`.
pub fn slice_is(text: &Vec<char>, from: usize, to: usize, word: &str) -> (same: bool)
    requires
        from <= to <= text@.len(),
    ensures
        same == (text@.subrange(from as int, to as int) == word@),
{
    let other = chars_of(word);
    if other.len() != to - from {
        return false;
    }
    let mut i: usize = 0;
    while i < other.len()
        invariant
            from <= to <= text@.len(),
            other@.len() == to - from,
            other@ == word@,
            i <= other@.len(),
            forall|n: int| 0 <= n < i ==> text@[from + n] == other@[n],
        decreases other.len() - i,
    {
        if text[from + i] != other[i] {
            assert(text@.subrange(from as int, to as int)[i as int] != word@[i as int]);
            return false;
        }
        i += 1;
    }
    assert(text@.subrange(from as int, to as int) =~= word@);
    true
}

/// Whether the characters of `text` from `from` on start with those of
/// `word`, before `to`.
pub fn slice_starts_with(text: &Vec<char>, from: usize, to: usize, word: &str) -> (yes: bool)
    requires
        from <= to <= text@.len(),
    ensures
        yes == word@.is_prefix_of(text@.subrange(from as int, to as int)),
{
    let n: usize = word.unicode_len();
    if n > to - from {
        return false;
    }
    let yes = slice_is(text, from, from + n, word);
    proof {
        let whole = text@.subrange(from as int, to as int);
        assert(whole.subrange(0, n as int) =~= text@.subrange(from as int, from + n));
    }
    yes
}

/// Whether two strings hold the same text.
pub fn same_text(a: &str, b: &str) -> (same: bool)
    ensures
        same == (a@ == b@),
{
    let chars = chars_of(a);
    let same = slice_is(&chars, 0, chars.len(), b);
    assert(chars@.subrange(0, chars@.len() as int) =~= a@);
    same
}

} // verus!
