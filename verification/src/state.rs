//! Source cursor and scan state: the single source of truth for "where are we
//! in the text", plus the scope stack, the dynamic-region counter and the
//! append-only diagnostics list of one parse session.

use vstd::prelude::*;
use vstd::assert_seqs_equal;
use vstd::string::StrSliceExecFns;
use core::ops::Range;
use crate::error::ParseError;
use crate::error::ParseErrorKind;
use crate::position::Position;
use crate::position::byte_len;
use crate::position::col_of;
use crate::position::is_whitespace;
use crate::position::lemma_byte_len_take;
use crate::position::lemma_line_col_bounds;
use crate::position::lemma_line_col_push;
use crate::position::lemma_ws_prefix;
use crate::position::line_of;
use crate::position::ws_prefix_len;
use crate::position::is_whitespace_char;

verus! {

/// Whether `t` occurs in `s` at offset `i`.
pub open spec fn matches_at(s: Seq<char>, t: Seq<char>, i: int) -> bool {
    0 <= i && i + t.len() <= s.len() && s.subrange(i, i + t.len()) == t
}

/// Whether `s` begins with `t`.
pub open spec fn seq_starts_with(s: Seq<char>, t: Seq<char>) -> bool {
    matches_at(s, t, 0)
}

/// Whether some member of `excepts` occurs in `s` at offset `i`.
pub open spec fn excepted_follows(s: Seq<char>, i: int, excepts: Seq<&str>) -> bool {
    exists|j: int| 0 <= j < excepts.len() && matches_at(s, #[trigger] excepts[j]@, i)
}

/// Whether two string slices hold the same characters.
fn str_eq_str(a: &str, b: &str) -> (r: bool)
    ensures
        r == (a@ == b@),
{
    let n = a.unicode_len();
    if n != b.unicode_len() {
        return false;
    }
    let mut j: usize = 0;
    while j < n
        invariant
            n == a@.len() == b@.len(),
            j <= n,
            forall|k: int| 0 <= k < j ==> a@[k] == b@[k],
        decreases n - j,
    {
        if a.get_char(j) != b.get_char(j) {
            return false;
        }
        j = j + 1;
    }
    proof {
        assert(a@ =~= b@);
    }
    true
}

/// Scan state of one parse session.
///
/// The session owns a borrowed view of the whole source text and the mutable
/// scan position. `cur_index` is measured in characters of the source; the
/// matching byte offset is `cur_byte_offset()`. `line` and `utf16_col` are
/// kept consistent with `cur_index` incrementally, never recomputed from
/// scratch; their specified values are the from-scratch recomputations
/// `line_of` and `col_of` over the scanned prefix.
#[verifier::ext_equal]
pub struct ParseState<'s> {
    pub path: String,
    pub whole_str: &'s str,
    pub cur_index: usize,
    pub line: u32,
    pub utf16_col: u32,
    pub scopes: Vec<(String, Range<Position>)>,
    pub inside_dynamic_tree: usize,
    pub auto_skip_whitespace: bool,
    pub warnings: Vec<ParseError>,
}

impl<'s> ParseState<'s> {
    /// The whole source text, as a character sequence.
    pub open spec fn src(self) -> Seq<char> {
        self.whole_str@
    }

    /// The characters already scanned.
    pub open spec fn prefix(self) -> Seq<char> {
        self.src().take(self.cur_index as int)
    }

    /// The characters not yet scanned.
    pub open spec fn remaining(self) -> Seq<char> {
        self.src().skip(self.cur_index as int)
    }

    /// The byte offset of the scan position within the source.
    pub open spec fn cur_byte_offset(self) -> nat {
        byte_len(self.prefix())
    }

    /// The current position as a line / UTF-16-column pair.
    pub open spec fn position_spec(self) -> Position {
        Position { line: self.line, utf16_col: self.utf16_col }
    }

    /// Well-formedness: the scan position lies within the source, the source
    /// fits the position-tracking integer width, and the incrementally kept
    /// line and column agree with a from-scratch re-derivation over the
    /// scanned prefix.
    pub open spec fn wf(self) -> bool {
        &&& self.cur_index <= self.src().len()
        &&& byte_len(self.src()) < 0xFFFF_FFFF
        &&& self.line == line_of(self.prefix())
        &&& self.utf16_col == col_of(self.prefix())
    }

    /// The same session, with the scan position moved `k` characters forward
    /// and the line and column re-derived for the new prefix.
    pub open spec fn advanced_by(self, k: int) -> Self {
        ParseState {
            cur_index: (self.cur_index + k) as usize,
            line: line_of(self.src().take(self.cur_index + k)) as u32,
            utf16_col: col_of(self.src().take(self.cur_index + k)) as u32,
            ..self
        }
    }

    /// The same session with the auto-skip-whitespace toggle set to `b`.
    pub open spec fn with_auto_ws(self, b: bool) -> Self {
        ParseState { auto_skip_whitespace: b, ..self }
    }

    /// The session as the lookahead and consumption primitives see it: with
    /// leading whitespace already skipped when the auto-skip toggle is on.
    pub open spec fn after_auto_ws(self) -> Self {
        if self.auto_skip_whitespace {
            self.advanced_by(ws_prefix_len(self.remaining()))
        } else {
            self
        }
    }

    /// Advancing within the source preserves well-formedness.
    pub proof fn lemma_advanced_wf(self, k: int)
        requires
            self.wf(),
            0 <= k <= self.remaining().len(),
        ensures
            self.advanced_by(k).wf(),
            self.advanced_by(k).remaining() == self.remaining().skip(k),
            self.advanced_by(k).prefix() == self.prefix() + self.remaining().take(k),
    {
        let s = self.src();
        let i = self.cur_index as int;
        lemma_line_col_bounds(s.take(i + k));
        lemma_byte_len_take(s, i + k);
        assert(self.advanced_by(k).remaining() =~= self.remaining().skip(k));
        assert(self.advanced_by(k).prefix() =~= self.prefix() + self.remaining().take(k));
    }

    /// The byte offset of the scan position never decreases as the scan
    /// advances; backtracking alone may reset it to an earlier snapshot.
    pub proof fn lemma_byte_offset_monotonic(self, k: int)
        requires
            self.wf(),
            0 <= k <= self.remaining().len(),
        ensures
            self.cur_byte_offset() <= self.advanced_by(k).cur_byte_offset(),
    {
        self.lemma_advanced_wf(k);
        crate::position::lemma_byte_len_concat(self.prefix(), self.remaining().take(k));
    }

    /// Two successive advances amount to one advance by the combined count.
    pub proof fn lemma_advanced_compose(self, i: int, j: int)
        requires
            self.wf(),
            0 <= i,
            0 <= j,
            i + j + self.cur_index <= self.src().len(),
        ensures
            self.advanced_by(i).advanced_by(j) == self.advanced_by(i + j),
    {
        lemma_line_col_bounds(self.src());
        assert(self.advanced_by(i).advanced_by(j) =~= self.advanced_by(i + j));
    }

    /// Consume one character, updating the line and column incrementally: a
    /// newline opens a fresh line at column zero; any other character widens
    /// the column by its UTF-16 width.
    fn advance_char(&mut self)
        requires
            old(self).wf(),
            old(self).cur_index < old(self).src().len(),
        ensures
            final(self).wf(),
            *final(self) == old(self).advanced_by(1),
    {
        proof {
            let s = old(self).src();
            let i = old(self).cur_index as int;
            assert(s.take(i + 1) =~= s.take(i).push(s[i]));
            lemma_line_col_push(s.take(i), s[i]);
            lemma_line_col_bounds(s.take(i + 1));
            lemma_byte_len_take(s, i + 1);
        }
        let c = self.whole_str.get_char(self.cur_index);
        if c == '\n' {
            self.line = self.line + 1;
            self.utf16_col = 0;
        } else {
            let w: u32 = if (c as u32) < 0x10000 {
                1
            } else {
                2
            };
            self.utf16_col = self.utf16_col + w;
        }
        self.cur_index = self.cur_index + 1;
    }

    /// Move the scan position `k` characters forward.
    fn advance_chars(&mut self, k: usize)
        requires
            old(self).wf(),
            k <= old(self).remaining().len(),
        ensures
            final(self).wf(),
            *final(self) == old(self).advanced_by(k as int),
    {
        let mut i: usize = 0;
        while i < k
            invariant
                old(self).wf(),
                i <= k <= old(self).remaining().len(),
                self.wf(),
                *self == old(self).advanced_by(i as int),
            decreases k - i,
        {
            proof {
                old(self).lemma_advanced_wf(i as int);
            }
            self.advance_char();
            proof {
                assert(*self == old(self).advanced_by(i + 1));
            }
            i = i + 1;
        }
        proof {
            old(self).lemma_advanced_wf(k as int);
        }
    }

    /// What a freshly constructed session for `(path, source)` looks like:
    /// the cursor at the origin, no scopes, no warnings, auto-whitespace off,
    /// and the source taken whole when its byte length fits the position
    /// tracking width, else truncated to the longest character-boundary
    /// prefix that fits.
    pub open spec fn is_initial(self, path: Seq<char>, source: Seq<char>) -> bool {
        &&& self.path@ == path
        &&& self.cur_index == 0
        &&& self.line == 0
        &&& self.utf16_col == 0
        &&& self.scopes@ == Seq::<(String, Range<Position>)>::empty()
        &&& self.inside_dynamic_tree == 0
        &&& self.auto_skip_whitespace == false
        &&& self.warnings@ == Seq::<ParseError>::empty()
        &&& if byte_len(source) < 0xFFFF_FFFF {
            self.src() == source
        } else {
            &&& self.src().len() < source.len()
            &&& self.src() == source.take(self.src().len() as int)
            &&& byte_len(self.src()) < 0xFFFF_FFFF
            &&& byte_len(source.take(self.src().len() as int + 1)) >= 0xFFFF_FFFF
        }
    }

    /// Construct a fresh session over `source`. Source text whose byte
    /// length would overflow the position-tracking integer width is
    /// truncated, not rejected outright.
    pub fn new(path: &str, content: &'s str) -> (r: ParseState<'s>)
        ensures
            r.wf(),
            r.is_initial(path@, content@),
    {
        let limit: usize = 0xFFFF_FFFF;
        let byte_count = content.as_bytes().len();
        let whole: &'s str = if byte_count < limit {
            content
        } else {
            let total = content.unicode_len();
            let mut k: usize = 0;
            let mut b: usize = 0;
            proof {
                assert(content@.take(0) =~= Seq::<char>::empty());
            }
            loop
                invariant_except_break
                    k <= total,
                    total == content@.len(),
                    b == byte_len(content@.take(k as int)),
                    b < 0xFFFF_FFFF,
                    byte_len(content@) >= 0xFFFF_FFFF,
                ensures
                    k < total == content@.len(),
                    b == byte_len(content@.take(k as int)),
                    b < 0xFFFF_FFFF,
                    byte_len(content@.take(k + 1)) >= 0xFFFF_FFFF,
                decreases total - k,
            {
                proof {
                    if k >= total {
                        assert(content@.take(k as int) =~= content@);
                    }
                }
                let c = content.get_char(k);
                let w: usize = if (c as u32) < 0x80 {
                    1
                } else if (c as u32) < 0x800 {
                    2
                } else if (c as u32) < 0x10000 {
                    3
                } else {
                    4
                };
                proof {
                    assert(content@.take(k + 1) =~= content@.take(k as int).push(c));
                    crate::position::lemma_byte_len_push(content@.take(k as int), c);
                }
                if b > 0xFFFF_FFFE - w {
                    break;
                }
                b = b + w;
                k = k + 1;
                proof {
                    if k >= total {
                        assert(content@.take(k as int) =~= content@);
                    }
                    assert(k < total);
                }
            }
            let t = content.substring_char(0, k);
            proof {
                assert(t@ =~= content@.take(k as int));
            }
            t
        };
        let r = ParseState {
            path: String::from_str(path),
            whole_str: whole,
            cur_index: 0,
            line: 0,
            utf16_col: 0,
            scopes: Vec::new(),
            inside_dynamic_tree: 0,
            auto_skip_whitespace: false,
            warnings: Vec::new(),
        };
        proof {
            assert(r.prefix() =~= Seq::<char>::empty());
        }
        r
    }

    /// Record a diagnostic covering `location`. Diagnostics are append-only:
    /// nothing else is changed, and no diagnostic is ever removed by the
    /// scanning primitives.
    pub fn add_warning(&mut self, kind: ParseErrorKind, location: Range<Position>)
        ensures
            final(self).warnings@ == old(self).warnings@.push(
                ParseError { path: old(self).path, kind, location },
            ),
            *final(self) == (ParseState { warnings: final(self).warnings, ..*old(self) }),
    {
        let location = location.start..location.end;
        let err = ParseError { path: self.path.clone(), kind, location };
        self.warnings.push(err);
        proof {
            assert(*self =~= (ParseState { warnings: self.warnings, ..*old(self) }));
        }
    }

    /// Record a diagnostic at the current scan position, as an empty span.
    pub fn add_warning_at_current_position(&mut self, kind: ParseErrorKind)
        ensures
            final(self).warnings@ == old(self).warnings@.push(
                ParseError {
                    path: old(self).path,
                    kind,
                    location: old(self).position_spec()..old(self).position_spec(),
                },
            ),
            *final(self) == (ParseState { warnings: final(self).warnings, ..*old(self) }),
    {
        let pos = self.position();
        self.add_warning(kind, pos..pos)
    }

    /// List warnings.
    pub fn warnings(&self) -> (r: &Vec<ParseError>)
        ensures
            r@ == self.warnings@,
    {
        &self.warnings
    }

    /// Extract and then clear all warnings.
    pub fn take_warnings(&mut self) -> (r: Vec<ParseError>)
        ensures
            r == old(self).warnings,
            final(self).warnings@ == Seq::<ParseError>::empty(),
            *final(self) == (ParseState { warnings: final(self).warnings, ..*old(self) }),
    {
        let mut w: Vec<ParseError> = Vec::new();
        core::mem::swap(&mut self.warnings, &mut w);
        proof {
            assert(*self =~= (ParseState { warnings: self.warnings, ..*old(self) }));
        }
        w
    }

    /// Run a parsing step with the auto-skip-whitespace toggle switched on,
    /// restoring the previous toggle state afterwards.
    pub fn parse_on_auto_whitespace<T, F: FnOnce(ParseState<'s>) -> (ParseState<'s>, T)>(
        self,
        f: F,
    ) -> (r: (ParseState<'s>, T))
        requires
            call_requires(f, (self.with_auto_ws(true),)),
        ensures
            exists|mid: ParseState<'s>|
                call_ensures(f, (self.with_auto_ws(true),), (mid, r.1)) && r.0 == #[trigger] mid.with_auto_ws(
                    self.auto_skip_whitespace,
                ),
    {
        let ghost orig = self;
        let prev = self.auto_skip_whitespace;
        let mut st = self;
        st.auto_skip_whitespace = true;
        proof {
            assert(st =~= orig.with_auto_ws(true));
        }
        let (mut st2, ret) = f(st);
        let ghost mid = st2;
        st2.auto_skip_whitespace = prev;
        proof {
            assert(st2 =~= mid.with_auto_ws(orig.auto_skip_whitespace));
            assert(call_ensures(f, (orig.with_auto_ws(true),), (mid, ret)));
        }
        (st2, ret)
    }

    /// Run a parsing step with the auto-skip-whitespace toggle switched off,
    /// restoring the previous toggle state afterwards.
    pub fn parse_off_auto_whitespace<T, F: FnOnce(ParseState<'s>) -> (ParseState<'s>, T)>(
        self,
        f: F,
    ) -> (r: (ParseState<'s>, T))
        requires
            call_requires(f, (self.with_auto_ws(false),)),
        ensures
            exists|mid: ParseState<'s>|
                call_ensures(f, (self.with_auto_ws(false),), (mid, r.1)) && r.0 == #[trigger] mid.with_auto_ws(
                    self.auto_skip_whitespace,
                ),
    {
        let ghost orig = self;
        let prev = self.auto_skip_whitespace;
        let mut st = self;
        st.auto_skip_whitespace = false;
        proof {
            assert(st =~= orig.with_auto_ws(false));
        }
        let (mut st2, ret) = f(st);
        let ghost mid = st2;
        st2.auto_skip_whitespace = prev;
        proof {
            assert(st2 =~= mid.with_auto_ws(orig.auto_skip_whitespace));
            assert(call_ensures(f, (orig.with_auto_ws(false),), (mid, ret)));
        }
        (st2, ret)
    }

    /// Try a speculative parsing step. When the step reports no match, the
    /// snapshot of the scan position — byte offset, line and column — is
    /// restored exactly, as if nothing had been attempted; position state is
    /// transactional. Diagnostics recorded by the failed step are not rolled
    /// back: the warnings list is whatever the step left behind.
    pub fn try_parse<T, F: FnOnce(ParseState<'s>) -> (ParseState<'s>, Option<T>)>(self, f: F) -> (r:
        (ParseState<'s>, Option<T>))
        requires
            call_requires(f, (self,)),
        ensures
            exists|mid: ParseState<'s>|
                {
                    &&& #[trigger] call_ensures(f, (self,), (mid, r.1))
                    &&& r.1 is Some ==> r.0 == mid
                    &&& r.1 is None ==> r.0 == (ParseState {
                        cur_index: self.cur_index,
                        line: self.line,
                        utf16_col: self.utf16_col,
                        ..mid
                    })
                },
            r.1 is None ==> r.0.cur_index == self.cur_index && r.0.line == self.line
                && r.0.utf16_col == self.utf16_col,
    {
        let ghost orig = self;
        let prev = self.cur_index;
        let prev_line = self.line;
        let prev_utf16_col = self.utf16_col;
        let (mut st, ret) = f(self);
        let ghost mid = st;
        if ret.is_none() {
            st.cur_index = prev;
            st.line = prev_line;
            st.utf16_col = prev_utf16_col;
            proof {
                assert(st =~= (ParseState {
                    cur_index: orig.cur_index,
                    line: orig.line,
                    utf16_col: orig.utf16_col,
                    ..mid
                }));
            }
        }
        (st, ret)
    }

    /// Push a scope binding; the most recently pushed binding for a name
    /// shadows earlier ones.
    pub fn push_scope(&mut self, name: String, location: Range<Position>)
        ensures
            final(self).scopes@ == old(self).scopes@.push((name, location)),
            *final(self) == (ParseState { scopes: final(self).scopes, ..*old(self) }),
    {
        let location = location.start..location.end;
        self.scopes.push((name, location));
        proof {
            assert(*self =~= (ParseState { scopes: self.scopes, ..*old(self) }));
        }
    }

    /// Pop the most recently pushed scope binding, if any.
    pub fn pop_scope(&mut self) -> (r: Option<(String, Range<Position>)>)
        ensures
            old(self).scopes@.len() > 0 ==> r == Some(old(self).scopes@.last()) && final(
                self).scopes@ == old(self).scopes@.drop_last(),
            old(self).scopes@.len() == 0 ==> r is None && final(self).scopes@ == old(self).scopes@,
            *final(self) == (ParseState { scopes: final(self).scopes, ..*old(self) }),
    {
        let r = self.scopes.pop();
        proof {
            assert(*self =~= (ParseState { scopes: self.scopes, ..*old(self) }));
        }
        r
    }

    /// Find the most recently pushed scope binding with the given name:
    /// lookups scan from the end backwards, so shadowing bindings win.
    pub fn lookup_scope(&self, name: &str) -> (r: Option<usize>)
        ensures
            match r {
                Some(i) => i < self.scopes@.len() && self.scopes@[i as int].0@ == name@ && forall|
                    j: int,
                |
                    i < j < self.scopes@.len() ==> (#[trigger] self.scopes@[j]).0@ != name@,
                None => forall|j: int|
                    0 <= j < self.scopes@.len() ==> (#[trigger] self.scopes@[j]).0@ != name@,
            },
    {
        let mut i: usize = self.scopes.len();
        while i > 0
            invariant
                i <= self.scopes@.len(),
                forall|j: int| i <= j < self.scopes@.len() ==> (#[trigger] self.scopes@[j]).0@ != name@,
            decreases i,
        {
            i = i - 1;
            let entry = &self.scopes[i];
            if str_eq_str(entry.0.as_str(), name) {
                return Some(i);
            }
        }
        None
    }

    /// How many nested dynamic regions the scan is currently inside.
    pub fn inside_dynamic_tree(&self) -> (r: usize)
        ensures
            r == self.inside_dynamic_tree,
    {
        self.inside_dynamic_tree
    }

    /// Enter a dynamic region: the nesting counter goes up by one.
    pub fn enter_dynamic_tree(&mut self)
        requires
            old(self).inside_dynamic_tree < usize::MAX,
        ensures
            final(self).inside_dynamic_tree == old(self).inside_dynamic_tree + 1,
            *final(self) == (ParseState {
                inside_dynamic_tree: final(self).inside_dynamic_tree,
                ..*old(self)
            }),
    {
        self.inside_dynamic_tree = self.inside_dynamic_tree + 1;
        proof {
            assert(*self =~= (ParseState {
                inside_dynamic_tree: self.inside_dynamic_tree,
                ..*old(self)
            }));
        }
    }

    /// Leave a dynamic region: the nesting counter goes down by one. Callers
    /// must leave exactly what they entered.
    pub fn exit_dynamic_tree(&mut self)
        requires
            old(self).inside_dynamic_tree > 0,
        ensures
            final(self).inside_dynamic_tree == old(self).inside_dynamic_tree - 1,
            *final(self) == (ParseState {
                inside_dynamic_tree: final(self).inside_dynamic_tree,
                ..*old(self)
            }),
    {
        self.inside_dynamic_tree = self.inside_dynamic_tree - 1;
        proof {
            assert(*self =~= (ParseState {
                inside_dynamic_tree: self.inside_dynamic_tree,
                ..*old(self)
            }));
        }
    }

    /// The current scan position.
    pub fn position(&self) -> (r: Position)
        ensures
            r == self.position_spec(),
    {
        Position { line: self.line, utf16_col: self.utf16_col }
    }

    /// Whether the scan has reached the end of the source.
    pub fn ended(&self) -> (r: bool)
        requires
            self.wf(),
        ensures
            r == (self.remaining().len() == 0),
    {
        self.whole_str.unicode_len() == self.cur_index
    }

    /// The not-yet-scanned tail of the source, as a borrowed slice.
    pub fn cur_str(&self) -> (r: &'s str)
        requires
            self.wf(),
        ensures
            r@ == self.remaining(),
    {
        let w: &'s str = self.whole_str;
        w.substring_char(self.cur_index, w.unicode_len())
    }

    /// Whether the remaining text starts with the literal `s`, skipping
    /// leading whitespace first when the auto-skip toggle is on.
    pub fn peek_str(&mut self, s: &str) -> (r: bool)
        requires
            old(self).wf(),
        ensures
            final(self).wf(),
            *final(self) == old(self).after_auto_ws(),
            r == seq_starts_with(final(self).remaining(), s@),
    {
        if self.auto_skip_whitespace {
            let _ = self.skip_whitespace();
            proof {
                lemma_ws_prefix(old(self).remaining());
                old(self).lemma_advanced_wf(ws_prefix_len(old(self).remaining()));
            }
        }
        self.match_at(s, 0)
    }

    /// The character at lookahead depth `i` in the remaining text, skipping
    /// leading whitespace first when the auto-skip toggle is on. Nothing is
    /// returned when fewer than `i + 1` characters remain.
    pub fn peek(&mut self, i: usize) -> (r: Option<char>)
        requires
            old(self).wf(),
        ensures
            final(self).wf(),
            *final(self) == old(self).after_auto_ws(),
            i < final(self).remaining().len() ==> r == Some(final(self).remaining()[i as int]),
            i >= final(self).remaining().len() ==> r is None,
    {
        if self.auto_skip_whitespace {
            let _ = self.skip_whitespace();
            proof {
                lemma_ws_prefix(old(self).remaining());
                old(self).lemma_advanced_wf(ws_prefix_len(old(self).remaining()));
            }
        }
        let total = self.whole_str.unicode_len();
        proof {
            lemma_line_col_bounds(self.src());
        }
        if i < total - self.cur_index {
            Some(self.whole_str.get_char(self.cur_index + i))
        } else {
            None
        }
    }

    /// The next `n` characters of the remaining text, skipping leading
    /// whitespace first when the auto-skip toggle is on. Nothing is returned
    /// when fewer than `n` characters remain.
    pub fn peek_n(&mut self, n: usize) -> (r: Option<Vec<char>>)
        requires
            old(self).wf(),
        ensures
            final(self).wf(),
            *final(self) == old(self).after_auto_ws(),
            n <= final(self).remaining().len() ==> (r matches Some(v) && v@ == final(
                self).remaining().take(n as int)),
            n > final(self).remaining().len() ==> r is None,
    {
        if self.auto_skip_whitespace {
            let _ = self.skip_whitespace();
            proof {
                lemma_ws_prefix(old(self).remaining());
                old(self).lemma_advanced_wf(ws_prefix_len(old(self).remaining()));
            }
        }
        let total = self.whole_str.unicode_len();
        proof {
            lemma_line_col_bounds(self.src());
        }
        if n > total - self.cur_index {
            return None;
        }
        let mut ret: Vec<char> = Vec::new();
        let mut j: usize = 0;
        while j < n
            invariant
                self.wf(),
                n <= self.remaining().len(),
                total == self.src().len(),
                j <= n,
                ret@ == self.remaining().take(j as int),
            decreases n - j,
        {
            let c = self.whole_str.get_char(self.cur_index + j);
            ret.push(c);
            proof {
                assert(ret@ =~= self.remaining().take(j + 1));
            }
            j = j + 1;
        }
        Some(ret)
    }

    /// Consume the next character, skipping leading whitespace first when the
    /// auto-skip toggle is on. Nothing is returned at the end of input.
    pub fn next(&mut self) -> (r: Option<char>)
        requires
            old(self).wf(),
        ensures
            final(self).wf(),
            ({
                let mid = old(self).after_auto_ws();
                &&& mid.remaining().len() > 0 ==> r == Some(mid.remaining()[0]) && *final(self)
                    == mid.advanced_by(1)
                &&& mid.remaining().len() == 0 ==> r is None && *final(self) == mid
            }),
    {
        if self.auto_skip_whitespace {
            let _ = self.skip_whitespace();
            proof {
                lemma_ws_prefix(old(self).remaining());
                old(self).lemma_advanced_wf(ws_prefix_len(old(self).remaining()));
            }
        }
        let total = self.whole_str.unicode_len();
        if self.cur_index == total {
            return None;
        }
        let c = self.whole_str.get_char(self.cur_index);
        self.advance_char();
        Some(c)
    }

    /// Consume a single logical character and return it as a slice, handling
    /// a multi-byte character as one unit. At the end of input the empty
    /// slice is returned rather than a failure.
    pub fn next_char_as_str(&mut self) -> (r: &'s str)
        requires
            old(self).wf(),
        ensures
            final(self).wf(),
            old(self).remaining().len() > 0 ==> r@ == old(self).remaining().take(1) && *final(
                self) == old(self).advanced_by(1),
            old(self).remaining().len() == 0 ==> r@ == Seq::<char>::empty() && *final(self)
                == *old(self),
    {
        let total = self.whole_str.unicode_len();
        proof {
            lemma_line_col_bounds(self.src());
        }
        if self.cur_index < total {
            let w: &'s str = self.whole_str;
            let ret = w.substring_char(self.cur_index, self.cur_index + 1);
            proof {
                assert(ret@.len() == 1);
                assert(ret@[0] == old(self).src()[old(self).cur_index as int]);
                assert(old(self).remaining()[0] == old(self).src()[old(self).cur_index as int]);
                assert(old(self).remaining().take(1).len() == 1);
                assert_seqs_equal!(ret@ == old(self).remaining().take(1), i => {
                    assert(old(self).remaining().take(1)[0] == old(self).remaining()[0]);
                });
            }
            self.advance_char();
            ret
        } else {
            let ret = "";
            proof {
                reveal_strlit("");
                assert(ret@ =~= Seq::<char>::empty());
            }
            ret
        }
    }

    /// Consume the literal `s` when the remaining text starts with it and
    /// what follows the match is not one of the forbidden follower strings.
    /// Returns the span of the consumed literal; on any failure the cursor
    /// does not move (beyond the auto-whitespace skip).
    pub fn consume_str_except_followed(&mut self, s: &str, excepts: &[&str]) -> (r: Option<
        Range<Position>,
    >)
        requires
            old(self).wf(),
        ensures
            final(self).wf(),
            ({
                let mid = old(self).after_auto_ws();
                let n = s@.len() as int;
                let ok = seq_starts_with(mid.remaining(), s@) && !excepted_follows(
                    mid.remaining(),
                    n,
                    excepts@,
                );
                &&& !ok ==> r is None && *final(self) == mid
                &&& ok ==> (r matches Some(range) && range.start == mid.position_spec() && *final(
                    self) == mid.advanced_by(n) && range.end == final(self).position_spec())
            }),
    {
        if !self.peek_str(s) {
            return None;
        }
        let n = s.unicode_len();
        let mut j: usize = 0;
        while j < excepts.len()
            invariant
                self.wf(),
                *self == old(self).after_auto_ws(),
                n == s@.len(),
                n <= self.remaining().len(),
                j <= excepts@.len(),
                forall|jj: int|
                    0 <= jj < j ==> !matches_at(
                        self.remaining(),
                        #[trigger] excepts@[jj]@,
                        n as int,
                    ),
            decreases excepts@.len() - j,
        {
            let e: &str = excepts[j];
            if self.match_at(e, n) {
                proof {
                    assert(matches_at(self.remaining(), excepts@[j as int]@, n as int));
                    assert(excepted_follows(self.remaining(), n as int, excepts@));
                }
                return None;
            }
            j = j + 1;
        }
        let start = self.position();
        self.advance_chars(n);
        let end = self.position();
        Some(start..end)
    }

    /// Consume the literal `s` when the remaining text starts with it and the
    /// character following the match (if any) is not rejected by the supplied
    /// predicate. Returns the span of the consumed literal; on any failure
    /// the cursor does not move (beyond the auto-whitespace skip).
    pub fn consume_str_except_followed_char<F: FnOnce(char) -> bool>(
        &mut self,
        s: &str,
        reject_followed: F,
    ) -> (r: Option<Range<Position>>)
        requires
            old(self).wf(),
            forall|c: char| call_requires(reject_followed, (c,)),
        ensures
            final(self).wf(),
            ({
                let mid = old(self).after_auto_ws();
                let n = s@.len() as int;
                let sw = seq_starts_with(mid.remaining(), s@);
                &&& !sw ==> r is None && *final(self) == mid
                &&& sw && mid.remaining().len() == n ==> (r matches Some(range) && range.start
                    == mid.position_spec() && *final(self) == mid.advanced_by(n) && range.end
                    == final(self).position_spec())
                &&& sw && mid.remaining().len() > n ==> {
                    &&& (r is None ==> call_ensures(reject_followed, (mid.remaining()[n],), true)
                        && *final(self) == mid)
                    &&& (r matches Some(range) ==> call_ensures(
                        reject_followed,
                        (mid.remaining()[n],),
                        false,
                    ) && range.start == mid.position_spec() && *final(self) == mid.advanced_by(n)
                        && range.end == final(self).position_spec())
                }
            }),
    {
        if !self.peek_str(s) {
            return None;
        }
        let n = s.unicode_len();
        let total = self.whole_str.unicode_len();
        proof {
            lemma_line_col_bounds(self.src());
        }
        if self.cur_index + n < total {
            let ch = self.whole_str.get_char(self.cur_index + n);
            if reject_followed(ch) {
                return None;
            }
        }
        let start = self.position();
        self.advance_chars(n);
        let end = self.position();
        Some(start..end)
    }

    /// Consume the literal `s` when the remaining text starts with it.
    /// Returns the span of the consumed literal; otherwise the cursor does
    /// not move (beyond the auto-whitespace skip).
    pub fn consume_str(&mut self, s: &str) -> (r: Option<Range<Position>>)
        requires
            old(self).wf(),
        ensures
            final(self).wf(),
            ({
                let mid = old(self).after_auto_ws();
                let n = s@.len() as int;
                let ok = seq_starts_with(mid.remaining(), s@);
                &&& !ok ==> r is None && *final(self) == mid
                &&& ok ==> (r matches Some(range) && range.start == mid.position_spec() && *final(
                    self) == mid.advanced_by(n) && range.end == final(self).position_spec())
            }),
    {
        let excepts: [&str; 0] = [];
        self.consume_str_except_followed(s, excepts.as_slice())
    }

    /// A slice of the source between two character indices.
    pub fn code_slice(&self, range: Range<usize>) -> (r: &'s str)
        requires
            range.start <= range.end,
            range.end <= self.src().len(),
        ensures
            r@ == self.src().subrange(range.start as int, range.end as int),
    {
        let w: &'s str = self.whole_str;
        w.substring_char(range.start, range.end)
    }

    /// The scan position as a character index into the source.
    pub fn cur_index(&self) -> (r: usize)
        ensures
            r == self.cur_index,
    {
        self.cur_index
    }

    /// Whether the needle occurs in the unscanned text at character offset
    /// `at`, without moving the cursor.
    fn match_at(&self, needle: &str, at: usize) -> (r: bool)
        requires
            self.wf(),
            at <= self.remaining().len(),
        ensures
            r == matches_at(self.remaining(), needle@, at as int),
    {
        let n = needle.unicode_len();
        let total = self.whole_str.unicode_len();
        proof {
            lemma_line_col_bounds(self.src());
        }
        if n > total - self.cur_index - at {
            return false;
        }
        let mut j: usize = 0;
        while j < n
            invariant
                self.wf(),
                at <= self.remaining().len(),
                n == needle@.len(),
                total == self.src().len(),
                at + n <= self.remaining().len(),
                j <= n,
                forall|k: int| 0 <= k < j ==> self.remaining()[at + k] == needle@[k],
            decreases n - j,
        {
            let a = self.whole_str.get_char(self.cur_index + at + j);
            let b = needle.get_char(j);
            if a != b {
                proof {
                    assert(self.remaining().subrange(
                        at as int,
                        at + n,
                    )[j as int] == self.remaining()[at + j]);
                }
                return false;
            }
            j = j + 1;
        }
        proof {
            assert(self.remaining().subrange(at as int, at + n) =~= needle@);
        }
        true
    }

    /// Advance the scan position by `count` bytes, which must fall on a
    /// boundary between whole characters. The skipped slice is scanned for
    /// newlines and the line and UTF-16 column are updated incrementally.
    pub fn skip_bytes(&mut self, count: usize)
        requires
            old(self).wf(),
            exists|k: int|
                0 <= k <= old(self).remaining().len() && #[trigger] byte_len(
                    old(self).remaining().take(k),
                ) == count,
        ensures
            final(self).wf(),
            exists|k: int|
                {
                    &&& 0 <= k <= old(self).remaining().len()
                    &&& #[trigger] byte_len(old(self).remaining().take(k)) == count
                    &&& *final(self) == old(self).advanced_by(k)
                },
            final(self).cur_byte_offset() == old(self).cur_byte_offset() + count,
    {
        let ghost rem = old(self).remaining();
        let ghost kw = choose|k: int|
            0 <= k <= rem.len() && #[trigger] byte_len(rem.take(k)) == count;
        proof {
            assert(rem.take(0) =~= Seq::<char>::empty());
            lemma_line_col_bounds(old(self).src());
            crate::position::lemma_byte_len_concat(old(self).prefix(), rem);
            assert(old(self).prefix() + rem =~= old(self).src());
            crate::position::lemma_byte_len_take(rem, kw);
        }
        let mut b: usize = 0;
        let mut i: usize = 0;
        while b < count
            invariant
                old(self).wf(),
                *self == *old(self),
                rem == old(self).remaining(),
                0 <= kw <= rem.len(),
                byte_len(rem.take(kw)) == count,
                i <= kw,
                b == byte_len(rem.take(i as int)),
                b <= count,
                count < 0xFFFF_FFFF,
                old(self).src().len() <= byte_len(old(self).src()) < 0xFFFF_FFFF,
                byte_len(rem) <= byte_len(old(self).src()),
            decreases count - b,
        {
            proof {
                if i >= kw {
                    assert(i == kw);
                }
                if i < kw {
                    crate::position::lemma_byte_len_strict(rem, i as int, kw);
                }
                assert(i < rem.len());
            }
            let c = self.whole_str.get_char(self.cur_index + i);
            proof {
                assert(c == rem[i as int]);
                assert(rem.take(i + 1) =~= rem.take(i as int).push(c));
                crate::position::lemma_byte_len_push(rem.take(i as int), c);
                crate::position::lemma_byte_len_take(rem, i + 1);
                crate::position::lemma_byte_len_concat(
                    old(self).prefix(),
                    rem,
                );
                assert(old(self).prefix() + rem =~= old(self).src());
            }
            let w: usize = if (c as u32) < 0x80 {
                1
            } else if (c as u32) < 0x800 {
                2
            } else if (c as u32) < 0x10000 {
                3
            } else {
                4
            };
            proof {
                assert(i + 1 <= kw);
                if i + 1 < kw {
                    crate::position::lemma_byte_len_strict(rem, i + 1, kw);
                }
                assert(byte_len(rem.take(i + 1)) <= count);
            }
            b = b + w;
            i = i + 1;
        }
        proof {
            crate::position::lemma_byte_len_concat(old(self).prefix(), rem.take(i as int));
        }
        self.advance_chars(i);
        proof {
            old(self).lemma_advanced_wf(i as int);
            assert(final(self).prefix() == old(self).prefix() + rem.take(i as int));
        }
    }

    /// Skip forward to just before the first occurrence of the delimiter
    /// substring, returning the skipped slice; when the delimiter does not
    /// occur, the whole remaining text is skipped and nothing is returned.
    pub fn skip_until_before(&mut self, until: &str) -> (r: Option<&'s str>)
        requires
            old(self).wf(),
        ensures
            final(self).wf(),
            match r {
                Some(skipped) => {
                    &&& skipped@ == old(self).remaining().take(skipped@.len() as int)
                    &&& *final(self) == old(self).advanced_by(skipped@.len() as int)
                    &&& matches_at(old(self).remaining(), until@, skipped@.len() as int)
                    &&& forall|j: int|
                        0 <= j < skipped@.len() ==> !matches_at(
                            old(self).remaining(),
                            until@,
                            j,
                        )
                },
                None => {
                    &&& *final(self) == old(self).advanced_by(old(self).remaining().len() as int)
                    &&& forall|j: int| !matches_at(old(self).remaining(), until@, j)
                },
            },
    {
        let ghost rem = old(self).remaining();
        let n = until.unicode_len();
        let total = self.whole_str.unicode_len();
        proof {
            lemma_line_col_bounds(self.src());
        }
        let rem_len = total - self.cur_index;
        if n <= rem_len {
            let mut i: usize = 0;
            while i <= rem_len - n
                invariant
                    old(self).wf(),
                    *self == *old(self),
                    rem == old(self).remaining(),
                    n == until@.len(),
                    rem_len == rem.len(),
                    n <= rem_len,
                    i <= rem_len - n + 1,
                    old(self).cur_index + rem_len <= old(self).src().len(),
                    old(self).src().len() <= byte_len(old(self).src()) < 0xFFFF_FFFF,
                    forall|j: int| 0 <= j < i ==> !matches_at(rem, until@, j),
                decreases rem_len - n - i + 1,
            {
                if self.match_at(until, i) {
                    let w: &'s str = self.whole_str;
                    let ret = w.substring_char(self.cur_index, self.cur_index + i);
                    proof {
                        assert(ret@ =~= rem.take(i as int));
                    }
                    self.advance_chars(i);
                    return Some(ret);
                }
                i = i + 1;
            }
        }
        proof {
            assert forall|j: int| !matches_at(rem, until@, j) by {
                if 0 <= j && j + until@.len() <= rem.len() {
                    assert(!matches_at(rem, until@, j));
                }
            }
        }
        self.advance_chars(rem_len);
        None
    }

    /// Skip forward past the first occurrence of the delimiter substring,
    /// returning the slice before it; when the delimiter does not occur, the
    /// whole remaining text is skipped and nothing is returned.
    pub fn skip_until_after(&mut self, until: &str) -> (r: Option<&'s str>)
        requires
            old(self).wf(),
        ensures
            final(self).wf(),
            match r {
                Some(skipped) => {
                    &&& skipped@ == old(self).remaining().take(skipped@.len() as int)
                    &&& *final(self) == old(self).advanced_by(
                        skipped@.len() + until@.len() as int,
                    )
                    &&& matches_at(old(self).remaining(), until@, skipped@.len() as int)
                    &&& forall|j: int|
                        0 <= j < skipped@.len() ==> !matches_at(
                            old(self).remaining(),
                            until@,
                            j,
                        )
                },
                None => {
                    &&& *final(self) == old(self).advanced_by(old(self).remaining().len() as int)
                    &&& forall|j: int| !matches_at(old(self).remaining(), until@, j)
                },
            },
    {
        let n = until.unicode_len();
        let ret = self.skip_until_before(until);
        if ret.is_some() {
            proof {
                old(self).lemma_advanced_wf(
                    ret.unwrap()@.len() as int,
                );
            }
            self.advance_chars(n);
            proof {
                old(self).lemma_advanced_compose(ret.unwrap()@.len() as int, n as int);
            }
        }
        ret
    }

    /// Skip the maximal run of leading whitespace, honouring newlines in the
    /// position tracking. Returns the span of the skipped whitespace when any
    /// was skipped, and nothing when none was found.
    pub fn skip_whitespace(&mut self) -> (r: Option<Range<Position>>)
        requires
            old(self).wf(),
        ensures
            final(self).wf(),
            *final(self) == old(self).advanced_by(ws_prefix_len(old(self).remaining())),
            r is Some <==> ws_prefix_len(old(self).remaining()) > 0,
            r matches Some(range) ==> range.start == old(self).position_spec() && range.end
                == final(self).position_spec(),
    {
        proof {
            lemma_ws_prefix(old(self).remaining());
        }
        let start = self.position();
        let start_index = self.cur_index;
        let total = self.whole_str.unicode_len();
        let ghost wpl = ws_prefix_len(old(self).remaining());
        let ghost mut i: int = 0;
        proof {
            assert(*self =~= old(self).advanced_by(0));
        }
        loop
            invariant_except_break
                old(self).wf(),
                self.wf(),
                wpl == ws_prefix_len(old(self).remaining()),
                0 <= i <= wpl <= old(self).remaining().len(),
                forall|j: int| 0 <= j < wpl ==> is_whitespace(#[trigger] old(self).remaining()[j]),
                wpl < old(self).remaining().len() ==> !is_whitespace(old(self).remaining()[wpl]),
                *self == old(self).advanced_by(i),
                total == self.src().len(),
            ensures
                self.wf(),
                *self == old(self).advanced_by(wpl),
            decreases old(self).remaining().len() - i,
        {
            proof {
                old(self).lemma_advanced_wf(i);
            }
            if self.cur_index == total {
                proof {
                    assert(i == wpl);
                }
                break;
            }
            let c = self.whole_str.get_char(self.cur_index);
            proof {
                assert(c == old(self).remaining()[i]);
            }
            if !is_whitespace_char(c) {
                proof {
                    assert(i == wpl);
                }
                break;
            }
            proof {
                assert(i < wpl);
            }
            self.advance_char();
            proof {
                old(self).lemma_advanced_compose(i, 1);
                i = i + 1;
            }
        }
        proof {
            old(self).lemma_advanced_wf(wpl);
        }
        if self.cur_index > start_index {
            let end = self.position();
            Some(start..end)
        } else {
            None
        }
    }
}

/// Parse entry point: construct a fresh session over `(path, source)` —
/// truncating a source whose byte length would overflow the position-tracking
/// width — drive the externally supplied top-level grammar rule with it, and
/// return the produced tree together with the session and its accumulated
/// diagnostics.
pub fn parse<'s, T, F: FnOnce(ParseState<'s>) -> (ParseState<'s>, T)>(
    path: &str,
    source: &'s str,
    grammar: F,
) -> (r: (T, ParseState<'s>))
    requires
        forall|st: ParseState<'s>|
            st.wf() && #[trigger] st.is_initial(path@, source@) ==> call_requires(grammar, (st,)),
    ensures
        exists|st: ParseState<'s>|
            st.wf() && #[trigger] st.is_initial(path@, source@) && call_ensures(
                grammar,
                (st,),
                (r.1, r.0),
            ),
{
    let st = ParseState::new(path, source);
    let (st2, tree) = grammar(st);
    (tree, st2)
}

} // verus!
