//! Position model: zero-based line / UTF-16-column coordinates, and the
//! mathematical character measures (UTF-8 byte widths, UTF-16 unit widths,
//! newline counts) that the cursor's incremental position tracking is
//! specified against.

use vstd::prelude::*;
use vstd::utf8::{encode_scalar, encode_utf8, char_is_scalar};
use core::ops::Range;

verus! {

/// Contract that every syntax-tree node type satisfies, so that diagnostics
/// and downstream tooling can locate any node: the node exposes its full
/// source span and, derivatively, its start and end positions.
pub trait TemplateStructure {
    fn location(&self) -> Range<Position>;

    fn location_start(&self) -> Position {
        self.location().start
    }

    fn location_end(&self) -> Position {
        self.location().end
    }
}

/// Number of UTF-16 code units needed to encode one character.
pub open spec fn utf16_width(c: char) -> nat {
    if (c as u32) < 0x10000 {
        1nat
    } else {
        2nat
    }
}

/// Number of UTF-8 bytes needed to encode one character.
pub open spec fn utf8_width(c: char) -> nat {
    if (c as u32) < 0x80 {
        1nat
    } else if (c as u32) < 0x800 {
        2nat
    } else if (c as u32) < 0x10000 {
        3nat
    } else {
        4nat
    }
}

/// Total number of UTF-8 bytes needed to encode a character sequence.
pub open spec fn byte_len(s: Seq<char>) -> nat {
    encode_utf8(s).len()
}

/// Total number of UTF-16 code units needed to encode a character sequence.
pub open spec fn utf16_len(s: Seq<char>) -> nat
    decreases s.len(),
{
    if s.len() == 0 {
        0nat
    } else {
        utf16_len(s.drop_last()) + utf16_width(s.last())
    }
}

/// The zero-based line reached after scanning `s` from the start of the
/// source: the number of newline characters in `s`.
pub open spec fn line_of(s: Seq<char>) -> nat
    decreases s.len(),
{
    if s.len() == 0 {
        0nat
    } else {
        line_of(s.drop_last()) + if s.last() == '\n' {
            1nat
        } else {
            0nat
        }
    }
}

/// The zero-based UTF-16 column reached after scanning `s` from the start of
/// the source: the UTF-16 length of what follows the last newline in `s`.
pub open spec fn col_of(s: Seq<char>) -> nat
    decreases s.len(),
{
    if s.len() == 0 {
        0nat
    } else if s.last() == '\n' {
        0nat
    } else {
        col_of(s.drop_last()) + utf16_width(s.last())
    }
}

/// A UTF-8 width is at least the matching UTF-16 width, for every character.
pub proof fn lemma_widths(c: char)
    ensures
        utf16_width(c) <= utf8_width(c),
        utf8_width(c) == encode_scalar(c as u32).len(),
        1 <= utf8_width(c) <= 4,
{
    char_is_scalar(c);
}

/// The UTF-8 length of a sequence is the sum of the widths of its characters,
/// unfolded one character at a time from the back.
pub proof fn lemma_byte_len_push(s: Seq<char>, c: char)
    ensures
        byte_len(s.push(c)) == byte_len(s) + utf8_width(c),
    decreases s.len(),
{
    char_is_scalar(c);
    if s.len() == 0 {
        assert(s.push(c).drop_first() =~= Seq::<char>::empty());
        assert(s.push(c)[0] == c);
    } else {
        assert(s.push(c).drop_first() =~= s.drop_first().push(c));
        lemma_byte_len_push(s.drop_first(), c);
        if (s[0] as u32) < 0x80 {
        } else if (s[0] as u32) < 0x800 {
        } else if (s[0] as u32) < 0x10000 {
        } else {
        }
    }
}

/// UTF-8 lengths add over concatenation.
pub proof fn lemma_byte_len_concat(s: Seq<char>, t: Seq<char>)
    ensures
        byte_len(s + t) == byte_len(s) + byte_len(t),
    decreases t.len(),
{
    if t.len() == 0 {
        assert(s + t =~= s);
    } else {
        lemma_byte_len_concat(s, t.drop_last());
        assert((s + t).drop_last() =~= s + t.drop_last());
        lemma_byte_len_push(s + t.drop_last(), t.last());
        lemma_byte_len_push(t.drop_last(), t.last());
        assert((s + t.drop_last()).push(t.last()) =~= s + t);
        assert(t.drop_last().push(t.last()) =~= t);
    }
}

/// The column reached after a scan never exceeds the UTF-8 byte length of the
/// scanned text, and the line never exceeds its character count.
pub proof fn lemma_line_col_bounds(s: Seq<char>)
    ensures
        col_of(s) <= byte_len(s),
        line_of(s) <= s.len(),
        utf16_len(s) <= byte_len(s),
        s.len() <= byte_len(s),
    decreases s.len(),
{
    if s.len() == 0 {
    } else {
        lemma_line_col_bounds(s.drop_last());
        lemma_byte_len_push(s.drop_last(), s.last());
        assert(s.drop_last().push(s.last()) =~= s);
        lemma_widths(s.last());
    }
}

/// Scanning one more character moves the line and column exactly as a newline
/// scan demands: a newline opens a fresh line at column zero; any other
/// character stays on its line and widens the column by its UTF-16 width.
pub proof fn lemma_line_col_push(s: Seq<char>, c: char)
    ensures
        c == '\n' ==> line_of(s.push(c)) == line_of(s) + 1 && col_of(s.push(c)) == 0,
        c != '\n' ==> line_of(s.push(c)) == line_of(s) && col_of(s.push(c)) == col_of(s)
            + utf16_width(c),
{
    assert(s.push(c).drop_last() =~= s);
}

/// Position monotonicity: scanning further text never moves the position
/// backwards, in line-major, column-minor order.
pub proof fn lemma_position_monotonic(s: Seq<char>, t: Seq<char>)
    ensures
        line_of(s) <= line_of(s + t),
        line_of(s) == line_of(s + t) ==> col_of(s) <= col_of(s + t),
    decreases t.len(),
{
    if t.len() == 0 {
        assert(s + t =~= s);
    } else {
        lemma_position_monotonic(s, t.drop_last());
        assert((s + t).drop_last() =~= s + t.drop_last());
        lemma_line_col_push(s + t.drop_last(), t.last());
    }
}

/// UTF-16 column correctness: on an unbroken line, the column reached after
/// appending `t` is the column before it plus the cumulative UTF-16 length of
/// `t` — not its character count and not its byte count.
pub proof fn lemma_col_counts_utf16(s: Seq<char>, t: Seq<char>)
    requires
        !t.contains('\n'),
    ensures
        col_of(s + t) == col_of(s) + utf16_len(t),
        line_of(s + t) == line_of(s),
    decreases t.len(),
{
    if t.len() == 0 {
        assert(s + t =~= s);
    } else {
        assert(t.last() != '\n');
        assert(forall|i: int| 0 <= i < t.drop_last().len() ==> t.drop_last()[i] == t[i]);
        assert(!t.drop_last().contains('\n'));
        lemma_col_counts_utf16(s, t.drop_last());
        assert((s + t).drop_last() =~= s + t.drop_last());
        lemma_line_col_push(s + t.drop_last(), t.last());
    }
}

/// A prefix of a text never has more UTF-8 bytes than the whole.
pub proof fn lemma_byte_len_take(s: Seq<char>, i: int)
    requires
        0 <= i <= s.len(),
    ensures
        byte_len(s.take(i)) <= byte_len(s),
{
    lemma_byte_len_concat(s.take(i), s.skip(i));
    assert(s.take(i) + s.skip(i) =~= s);
}

/// The UTF-8 byte length of a prefix grows strictly with its character count.
pub proof fn lemma_byte_len_strict(s: Seq<char>, i: int, j: int)
    requires
        0 <= i < j <= s.len(),
    ensures
        byte_len(s.take(i)) < byte_len(s.take(j)),
{
    lemma_byte_len_concat(s.take(i), s.subrange(i, j));
    assert(s.take(i) + s.subrange(i, j) =~= s.take(j));
    lemma_line_col_bounds(s.subrange(i, j));
}

/// The characters that the engine treats as whitespace: the Unicode
/// `White_Space` set.
pub open spec fn is_whitespace(c: char) -> bool {
    ||| (0x09 <= (c as u32) <= 0x0D)
    ||| (c as u32) == 0x20
    ||| (c as u32) == 0x85
    ||| (c as u32) == 0xA0
    ||| (c as u32) == 0x1680
    ||| (0x2000 <= (c as u32) <= 0x200A)
    ||| (c as u32) == 0x2028
    ||| (c as u32) == 0x2029
    ||| (c as u32) == 0x202F
    ||| (c as u32) == 0x205F
    ||| (c as u32) == 0x3000
}

/// Decides whether one character counts as whitespace.
pub fn is_whitespace_char(c: char) -> (r: bool)
    ensures
        r == is_whitespace(c),
{
    let u = c as u32;
    (0x09 <= u && u <= 0x0D) || u == 0x20 || u == 0x85 || u == 0xA0 || u == 0x1680 || (0x2000 <= u
        && u <= 0x200A) || u == 0x2028 || u == 0x2029 || u == 0x202F || u == 0x205F || u == 0x3000
}

/// The number of whitespace characters at the head of `s`.
pub open spec fn ws_prefix_len(s: Seq<char>) -> int
    decreases s.len(),
{
    if s.len() == 0 {
        0
    } else if !is_whitespace(s[0]) {
        0
    } else {
        1 + ws_prefix_len(s.drop_first())
    }
}

/// The whitespace prefix is exactly the maximal run of leading whitespace.
pub proof fn lemma_ws_prefix(s: Seq<char>)
    ensures
        0 <= ws_prefix_len(s) <= s.len(),
        forall|j: int| 0 <= j < ws_prefix_len(s) ==> is_whitespace(#[trigger] s[j]),
        ws_prefix_len(s) < s.len() ==> !is_whitespace(s[ws_prefix_len(s)]),
    decreases s.len(),
{
    if s.len() == 0 {
    } else if !is_whitespace(s[0]) {
    } else {
        lemma_ws_prefix(s.drop_first());
        assert forall|j: int| 0 <= j < ws_prefix_len(s) implies is_whitespace(#[trigger] s[j]) by {
            if j >= 1 {
                assert(s[j] == s.drop_first()[j - 1]);
                assert(is_whitespace(s.drop_first()[j - 1]));
            }
        }
    }
}

/// A location in source code.
#[derive(Debug, Clone, Copy, PartialEq, Eq, Structural)]
pub struct Position {
    /// Zero-based line number.
    pub line: u32,
    /// Zero-based column, counted in UTF-16 code units.
    pub utf16_col: u32,
}

/// Line-major, column-minor order on positions.
pub open spec fn position_le(a: Position, b: Position) -> bool {
    a.line < b.line || (a.line == b.line && a.utf16_col <= b.utf16_col)
}

impl Position {
    /// Get the line-column offsets (in UTF-16) in the source code.
    pub fn line_col_utf16(&self) -> (r: (usize, usize))
        ensures
            r.0 == self.line,
            r.1 == self.utf16_col,
    {
        (self.line as usize, self.utf16_col as usize)
    }

    /// Whether `self` comes no later than `other`, in line-major order.
    pub fn is_at_or_before(&self, other: &Position) -> (r: bool)
        ensures
            r == position_le(*self, *other),
    {
        self.line < other.line || (self.line == other.line && self.utf16_col <= other.utf16_col)
    }
}

/// Order on spans: by start position first, then by end position.
pub open spec fn span_le(a: Range<Position>, b: Range<Position>) -> bool {
    if a.start == b.start {
        position_le(a.end, b.end)
    } else {
        position_le(a.start, b.start)
    }
}

/// Compares two spans, by start position first and end position second.
pub fn span_is_at_or_before(a: &Range<Position>, b: &Range<Position>) -> (r: bool)
    ensures
        r == span_le(*a, *b),
{
    if a.start.line == b.start.line && a.start.utf16_col == b.start.utf16_col {
        a.end.is_at_or_before(&b.end)
    } else {
        a.start.is_at_or_before(&b.start)
    }
}

} // verus!
