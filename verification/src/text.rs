//! Measuring plain text for the sizing pre-pass: line count and the
//! length of the longest line, counted in characters.
//!
//! A line break is the character `'\n'`. A trailing line break closes
//! its line but opens no new one, so `"ab\n"` has one line and `"ab\nc"`
//! has two; the empty text has no lines at all.

use vstd::prelude::*;
use vstd::string::StrSliceExecFns;

verus! {

/// Number of line-break characters in `s`.
pub open spec fn newline_count(s: Seq<char>) -> nat
    decreases s.len(),
{
    if s.len() == 0 {
        0
    } else {
        newline_count(s.drop_last()) + if s.last() == '\n' {
            1nat
        } else {
            0nat
        }
    }
}

/// Number of characters after the last line break of `s`: the column
/// the cursor stands in after writing `s`.
pub open spec fn column_after(s: Seq<char>) -> nat
    decreases s.len(),
{
    if s.len() == 0 {
        0
    } else if s.last() == '\n' {
        0
    } else {
        column_after(s.drop_last()) + 1
    }
}

/// Length, in characters, of the longest line of `s`: the largest
/// column the cursor ever stands in while writing `s`.
pub open spec fn max_line_length(s: Seq<char>) -> nat
    decreases s.len(),
{
    if s.len() == 0 {
        0
    } else {
        let rest = max_line_length(s.drop_last());
        if column_after(s) > rest {
            column_after(s)
        } else {
            rest
        }
    }
}

/// Number of lines of `s`.
pub open spec fn line_count(s: Seq<char>) -> nat {
    if s.len() == 0 {
        0
    } else if s.last() == '\n' {
        newline_count(s)
    } else {
        newline_count(s) + 1
    }
}

/// Every count of line breaks is bounded by the length of the text.
pub proof fn lemma_newline_count_le_len(s: Seq<char>)
    ensures
        newline_count(s) <= s.len(),
    decreases s.len(),
{
    if s.len() > 0 {
        lemma_newline_count_le_len(s.drop_last());
    }
}

/// The cursor column never exceeds the length of the text written.
pub proof fn lemma_column_le_len(s: Seq<char>)
    ensures
        column_after(s) <= s.len(),
    decreases s.len(),
{
    if s.len() > 0 {
        lemma_column_le_len(s.drop_last());
    }
}

/// The longest line is no longer than the whole text.
pub proof fn lemma_max_line_le_len(s: Seq<char>)
    ensures
        max_line_length(s) <= s.len(),
    decreases s.len(),
{
    if s.len() > 0 {
        lemma_max_line_le_len(s.drop_last());
        lemma_column_le_len(s);
    }
}

/// Extending a text never shortens its longest line.
pub proof fn lemma_max_line_length_prefix(s: Seq<char>, k: int)
    requires
        0 <= k <= s.len(),
    ensures
        max_line_length(s.take(k)) <= max_line_length(s),
    decreases s.len(),
{
    if k < s.len() && s.len() > 0 {
        assert(s.drop_last().take(k) =~= s.take(k));
        lemma_max_line_length_prefix(s.drop_last(), k);
    } else {
        assert(s.take(k) =~= s);
    }
}

/// The column the cursor stands in after any prefix is bounded by the
/// longest line of the whole text.
pub proof fn lemma_column_bounded_by_max_line(s: Seq<char>, k: int)
    requires
        0 <= k <= s.len(),
    ensures
        column_after(s.take(k)) <= max_line_length(s),
{
    lemma_max_line_length_prefix(s, k);
    assert(column_after(s.take(k)) <= max_line_length(s.take(k)));
}

/// Line breaks seen in a prefix are never more than in the whole text.
pub proof fn lemma_newline_count_prefix(s: Seq<char>, k: int)
    requires
        0 <= k <= s.len(),
    ensures
        newline_count(s.take(k)) <= newline_count(s),
    decreases s.len(),
{
    if k < s.len() && s.len() > 0 {
        assert(s.drop_last().take(k) =~= s.take(k));
        lemma_newline_count_prefix(s.drop_last(), k);
    } else {
        assert(s.take(k) =~= s);
    }
}

/// Extending a text never lowers its line count.
pub proof fn lemma_line_count_prefix(s: Seq<char>, k: int)
    requires
        0 <= k <= s.len(),
    ensures
        line_count(s.take(k)) <= line_count(s),
    decreases s.len(),
{
    if k < s.len() && s.len() > 0 {
        assert(s.drop_last().take(k) =~= s.take(k));
        lemma_line_count_prefix(s.drop_last(), k);
        assert(s.drop_last() =~= s.take(s.len() - 1));
        lemma_newline_count_prefix(s, s.len() - 1);
    } else {
        assert(s.take(k) =~= s);
    }
}

/// A text never has more line breaks than lines.
pub proof fn lemma_newline_le_line_count(s: Seq<char>)
    ensures
        newline_count(s) <= line_count(s),
{
}

/// A character that is not a line break lies on some line of the text:
/// the row it is painted on is strictly below the line count.
pub proof fn lemma_row_bounded_by_line_count(s: Seq<char>, k: int)
    requires
        0 <= k < s.len(),
        s[k] != '\n',
    ensures
        newline_count(s.take(k)) + 1 <= line_count(s),
{
    let p = s.take(k + 1);
    assert(p.drop_last() =~= s.take(k));
    assert(p.last() == s[k]);
    assert(line_count(p) == newline_count(s.take(k)) + 1);
    lemma_line_count_prefix(s, k + 1);
}

/// Measures a text: its line count and the length, in characters, of
/// its longest line, the two numbers the canvas is sized from.
pub fn measure(s: &str) -> (r: (usize, usize))
    ensures
        r.0 == line_count(s@),
        r.1 == max_line_length(s@),
{
    let n = s.unicode_len();
    let mut nl: usize = 0;
    let mut col: usize = 0;
    let mut maxw: usize = 0;
    let mut last_was_newline: bool = false;
    let mut i: usize = 0;
    while i < n
        invariant
            0 <= i <= n,
            n == s@.len(),
            nl == newline_count(s@.take(i as int)),
            col == column_after(s@.take(i as int)),
            maxw == max_line_length(s@.take(i as int)),
            nl <= i,
            col <= i,
            maxw <= i,
            last_was_newline == (i > 0 && s@[i - 1] == '\n'),
        decreases n - i,
    {
        let c = s.get_char(i);
        proof {
            assert(s@.take(i + 1).drop_last() =~= s@.take(i as int));
            assert(s@.take(i + 1).last() == s@[i as int]);
            lemma_newline_count_le_len(s@.take(i + 1));
            lemma_column_le_len(s@.take(i + 1));
            lemma_max_line_le_len(s@.take(i + 1));
        }
        if c == '\n' {
            nl = nl + 1;
            col = 0;
            last_was_newline = true;
        } else {
            col = col + 1;
            if col > maxw {
                maxw = col;
            }
            last_was_newline = false;
        }
        i = i + 1;
    }
    proof {
        assert(s@.take(n as int) =~= s@);
    }
    let lines = if n == 0 {
        0
    } else if last_was_newline {
        nl
    } else {
        proof {
            lemma_newline_count_le_len(s@.drop_last());
        }
        nl + 1
    };
    (lines, maxw)
}

} // verus!
