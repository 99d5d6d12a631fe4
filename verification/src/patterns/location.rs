//! Where a match stands in a text: line, column and the line around it.

use vstd::prelude::*;
use crate::numerals::{char_width, utf8_width};
use crate::patterns::outline::clamped;
use crate::textlines::{first_index, index_of_from, trim_range, trimmed};

verus! {

/// The number of characters of `s` that begin before byte `offset` of the UTF-8
/// form of `s`.
pub open spec fn chars_before(s: Seq<char>, offset: int) -> int
    decreases s.len(),
{
    if s.len() == 0 || offset <= 0 {
        0
    } else {
        1 + chars_before(s.skip(1), offset - utf8_width(s[0]))
    }
}

/// The position of the character at byte `offset` of the UTF-8 form of `s`.
pub fn char_position(s: &[char], offset: usize) -> (k: usize)
    ensures
        k == chars_before(s@, offset as int),
        k <= s@.len(),
{
    let mut i: usize = 0;
    let mut remaining: usize = offset;
    assert(s@.skip(0) =~= s@);
    while i < s.len() && remaining > 0
        invariant
            i <= s.len(),
            chars_before(s@, offset as int) == i + chars_before(s@.skip(i as int), remaining as int),
        decreases s.len() - i,
    {
        let w = char_width(s[i]);
        proof {
            let rest = s@.skip(i as int);
            assert(rest[0] == s@[i as int]);
            assert(rest.skip(1) =~= s@.skip(i + 1));
            assert(chars_before(rest, remaining as int) == 1 + chars_before(
                s@.skip(i + 1),
                remaining - w,
            ));
            if w >= remaining {
                assert(chars_before(s@.skip(i + 1), remaining - w) == 0);
                assert(chars_before(s@.skip(i + 1), 0) == 0);
            }
        }
        remaining = if w >= remaining {
            0
        } else {
            remaining - w
        };
        i += 1;
    }
    i
}

/// The position just behind the last line feed before position `k`, or zero.
pub open spec fn line_start(s: Seq<char>, k: int) -> int
    decreases k,
{
    if k <= 0 {
        0
    } else if s[k - 1] == '\n' {
        k
    } else {
        line_start(s, k - 1)
    }
}

/// The number of line feeds before position `k`.
pub open spec fn line_feeds(s: Seq<char>, k: int) -> int
    decreases k,
{
    if k <= 0 {
        0
    } else {
        line_feeds(s, k - 1) + (if s[k - 1] == '\n' {
            1int
        } else {
            0int
        })
    }
}

/// The line of position `k`, counted from one.
pub open spec fn line_number(s: Seq<char>, k: int) -> u32 {
    clamped(1 + line_feeds(s, k))
}

/// The column of position `k`: one more than the number of characters between
/// the start of its line and the position.
pub open spec fn column_number(s: Seq<char>, k: int) -> u32 {
    clamped(1 + k - line_start(s, k))
}

/// The line that holds position `k`, without the whitespace around it.
pub open spec fn line_context(s: Seq<char>, k: int) -> Seq<char> {
    let from = line_start(s, k);
    let to = from + first_index(s.skip(from), '\n');
    trimmed(s.subrange(from, to))
}

/// Line, column and context of the position `k` of a text.
pub fn locate(s: &[char], k: usize) -> (r: (u32, u32, Vec<char>))
    requires
        k <= s@.len(),
    ensures
        r.0 == line_number(s@, k as int),
        r.1 == column_number(s@, k as int),
        r.2@ == line_context(s@, k as int),
{
    let mut feeds: usize = 0;
    let mut start: usize = 0;
    let mut j: usize = 0;
    while j < k
        invariant
            j <= k <= s@.len(),
            feeds == line_feeds(s@, j as int),
            feeds <= j,
            start == line_start(s@, j as int),
            start <= j,
        decreases k - j,
    {
        if s[j] == '\n' {
            feeds += 1;
            start = j + 1;
        }
        j += 1;
    }
    let line: u32 = if feeds >= u32::MAX as usize {
        u32::MAX
    } else {
        (feeds + 1) as u32
    };
    let column: u32 = if k - start >= u32::MAX as usize {
        u32::MAX
    } else {
        (k - start + 1) as u32
    };
    let end = index_of_from(s, '\n', start);
    let context = trim_range(s, start, end);
    (line, column, context)
}

} // verus!
