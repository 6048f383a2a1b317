//! Diagnostics model: a closed taxonomy of parse defects, each with a fixed
//! human-readable message, a stable numeric code and a fixed severity from the
//! ordered scale `Note < Warn < Error < Fatal`.

use vstd::prelude::*;
use vstd::string::StrSliceExecFns;
use vstd::string::StringExecFns;
use core::cmp::Ordering;
use core::ops::Range;
use crate::position::Position;

verus! {

/// The decimal digit character for a value below ten.
pub open spec fn dec_digit(d: int) -> char {
    if d == 0 {
        '0'
    } else if d == 1 {
        '1'
    } else if d == 2 {
        '2'
    } else if d == 3 {
        '3'
    } else if d == 4 {
        '4'
    } else if d == 5 {
        '5'
    } else if d == 6 {
        '6'
    } else if d == 7 {
        '7'
    } else if d == 8 {
        '8'
    } else {
        '9'
    }
}

/// The decimal rendering of a non-negative number, most significant digit
/// first, with no leading zeroes (a lone zero for zero).
pub open spec fn dec_str(n: int) -> Seq<char>
    decreases n,
{
    if n < 10 {
        seq![dec_digit(n % 10)]
    } else {
        dec_str(n / 10).push(dec_digit(n % 10))
    }
}

/// Renders a number in decimal.
fn dec_string(n: u64) -> (r: String)
    ensures
        r@ == dec_str(n as int),
    decreases n,
{
    let digits = "0123456789";
    proof {
        reveal_strlit("0123456789");
    }
    let d = (n % 10) as usize;
    let ds = digits.substring_char(d, d + 1);
    proof {
        assert(ds@ =~= seq![dec_digit(n as int % 10)]);
    }
    if n < 10 {
        String::from_str(ds)
    } else {
        let mut s = dec_string(n / 10);
        s.append(ds);
        proof {
            assert(dec_str(n as int / 10) + ds@ =~= dec_str(n as int));
        }
        s
    }
}

/// Severity scale for parse diagnostics, ordered `Note < Warn < Error < Fatal`.
#[derive(Debug, Clone, Copy, PartialEq, Eq, Hash, Structural)]
pub enum ParseErrorLevel {
    /// Likely to be a mistake and should be noticed.
    ///
    /// The generator may generate code that contains this kind of mistakes.
    Note,
    /// Should be a mistake but the compiler can guess a good way to generate proper code.
    Warn,
    /// An error that prevents a successful compilation, but can still continue to find more errors.
    Error,
    /// A very serious error that can cause continuous compiling issues, such as miss matched braces.
    Fatal,
}

/// Numeric rank of a severity, by which severities are ordered.
pub open spec fn level_rank(l: ParseErrorLevel) -> nat {
    match l {
        ParseErrorLevel::Note => 1nat,
        ParseErrorLevel::Warn => 2nat,
        ParseErrorLevel::Error => 3nat,
        ParseErrorLevel::Fatal => 4nat,
    }
}

impl ParseErrorLevel {
    fn rank(&self) -> (r: u32)
        ensures
            r == level_rank(*self),
    {
        match self {
            ParseErrorLevel::Note => 1,
            ParseErrorLevel::Warn => 2,
            ParseErrorLevel::Error => 3,
            ParseErrorLevel::Fatal => 4,
        }
    }
}

impl PartialOrd for ParseErrorLevel {
    fn partial_cmp(&self, other: &ParseErrorLevel) -> (r: Option<Ordering>) {
        let a = self.rank();
        let b = other.rank();
        if a < b {
            Some(Ordering::Less)
        } else if a == b {
            Some(Ordering::Equal)
        } else {
            Some(Ordering::Greater)
        }
    }
}

impl vstd::std_specs::cmp::PartialOrdSpecImpl for ParseErrorLevel {
    open spec fn obeys_partial_cmp_spec() -> bool {
        true
    }

    open spec fn partial_cmp_spec(&self, other: &ParseErrorLevel) -> Option<Ordering> {
        if level_rank(*self) < level_rank(*other) {
            Some(Ordering::Less)
        } else if level_rank(*self) == level_rank(*other) {
            Some(Ordering::Equal)
        } else {
            Some(Ordering::Greater)
        }
    }
}

/// Closed taxonomy of parse defects.
#[derive(Debug, Clone, Copy, PartialEq, Eq, Structural)]
pub enum ParseErrorKind {
    UnexpectedCharacter,
    UnexpectedExpressionCharacter,
    UnrecognizedTag,
    MissingExpressionEnd,
    IllegalEntity,
    IncompleteTag,
    MissingEndTag,
    IllegalNamePrefix,
    InvalidAttributePrefix,
    InvalidAttributeName,
    InvalidAttributeValue,
    InvalidAttribute,
    DuplicatedAttribute,
    DuplicatedName,
    AvoidUppercaseLetters,
    UnexpectedWhitespace,
    MissingAttributeValue,
    DataBindingNotAllowed,
    InvalidIdentifier,
    InvalidScopeName,
    ChildNodesNotAllowed,
    IllegalEscapeSequence,
    IncompleteConditionExpression,
    UnmatchedBracket,
    UnmatchedParenthesis,
    MissingModuleName,
    MissingSourcePath,
    UnsupportedSyntax,
}

/// The stable numeric code of each defect kind, used by external tooling.
pub open spec fn code_spec(k: ParseErrorKind) -> u32 {
    match k {
        ParseErrorKind::UnexpectedCharacter => 0x10001,
        ParseErrorKind::UnexpectedExpressionCharacter => 0x10002,
        ParseErrorKind::UnrecognizedTag => 0x10003,
        ParseErrorKind::MissingExpressionEnd => 0x10004,
        ParseErrorKind::IllegalEntity => 0x10005,
        ParseErrorKind::IncompleteTag => 0x10006,
        ParseErrorKind::MissingEndTag => 0x10007,
        ParseErrorKind::IllegalNamePrefix => 0x10008,
        ParseErrorKind::InvalidAttributePrefix => 0x10009,
        ParseErrorKind::InvalidAttributeName => 0x1000A,
        ParseErrorKind::InvalidAttributeValue => 0x1000B,
        ParseErrorKind::InvalidAttribute => 0x1000C,
        ParseErrorKind::DuplicatedAttribute => 0x1000D,
        ParseErrorKind::DuplicatedName => 0x1000E,
        ParseErrorKind::AvoidUppercaseLetters => 0x1000F,
        ParseErrorKind::UnexpectedWhitespace => 0x10010,
        ParseErrorKind::MissingAttributeValue => 0x10011,
        ParseErrorKind::DataBindingNotAllowed => 0x10012,
        ParseErrorKind::InvalidIdentifier => 0x10013,
        ParseErrorKind::InvalidScopeName => 0x10014,
        ParseErrorKind::ChildNodesNotAllowed => 0x10015,
        ParseErrorKind::IllegalEscapeSequence => 0x10016,
        ParseErrorKind::IncompleteConditionExpression => 0x10017,
        ParseErrorKind::UnmatchedBracket => 0x10018,
        ParseErrorKind::UnmatchedParenthesis => 0x10019,
        ParseErrorKind::MissingModuleName => 0x1001A,
        ParseErrorKind::MissingSourcePath => 0x1001B,
        ParseErrorKind::UnsupportedSyntax => 0x1001C,
    }
}

/// The fixed severity of each defect kind: a static, total mapping.
pub open spec fn level_spec(k: ParseErrorKind) -> ParseErrorLevel {
    match k {
        ParseErrorKind::UnexpectedCharacter => ParseErrorLevel::Fatal,
        ParseErrorKind::UnexpectedExpressionCharacter => ParseErrorLevel::Fatal,
        ParseErrorKind::UnrecognizedTag => ParseErrorLevel::Warn,
        ParseErrorKind::MissingExpressionEnd => ParseErrorLevel::Fatal,
        ParseErrorKind::IllegalEntity => ParseErrorLevel::Error,
        ParseErrorKind::IncompleteTag => ParseErrorLevel::Fatal,
        ParseErrorKind::MissingEndTag => ParseErrorLevel::Error,
        ParseErrorKind::IllegalNamePrefix => ParseErrorLevel::Warn,
        ParseErrorKind::InvalidAttributePrefix => ParseErrorLevel::Warn,
        ParseErrorKind::InvalidAttributeName => ParseErrorLevel::Warn,
        ParseErrorKind::InvalidAttributeValue => ParseErrorLevel::Note,
        ParseErrorKind::InvalidAttribute => ParseErrorLevel::Warn,
        ParseErrorKind::DuplicatedAttribute => ParseErrorLevel::Warn,
        ParseErrorKind::DuplicatedName => ParseErrorLevel::Note,
        ParseErrorKind::AvoidUppercaseLetters => ParseErrorLevel::Warn,
        ParseErrorKind::UnexpectedWhitespace => ParseErrorLevel::Note,
        ParseErrorKind::MissingAttributeValue => ParseErrorLevel::Error,
        ParseErrorKind::DataBindingNotAllowed => ParseErrorLevel::Note,
        ParseErrorKind::InvalidIdentifier => ParseErrorLevel::Fatal,
        ParseErrorKind::InvalidScopeName => ParseErrorLevel::Note,
        ParseErrorKind::ChildNodesNotAllowed => ParseErrorLevel::Error,
        ParseErrorKind::IllegalEscapeSequence => ParseErrorLevel::Error,
        ParseErrorKind::IncompleteConditionExpression => ParseErrorLevel::Fatal,
        ParseErrorKind::UnmatchedBracket => ParseErrorLevel::Fatal,
        ParseErrorKind::UnmatchedParenthesis => ParseErrorLevel::Fatal,
        ParseErrorKind::MissingModuleName => ParseErrorLevel::Error,
        ParseErrorKind::MissingSourcePath => ParseErrorLevel::Error,
        ParseErrorKind::UnsupportedSyntax => ParseErrorLevel::Error,
    }
}

/// The fixed human-readable message of each defect kind.
pub open spec fn message_spec(k: ParseErrorKind) -> Seq<char> {
    match k {
        ParseErrorKind::UnexpectedCharacter => "unexpected character"@,
        ParseErrorKind::UnexpectedExpressionCharacter => "unexpected character inside expression"@,
        ParseErrorKind::UnrecognizedTag => "unrecognized tag"@,
        ParseErrorKind::MissingExpressionEnd => "missing expression end"@,
        ParseErrorKind::IllegalEntity => "illegal entity"@,
        ParseErrorKind::IncompleteTag => "incomplete tag"@,
        ParseErrorKind::MissingEndTag => "missing end tag"@,
        ParseErrorKind::IllegalNamePrefix => "illegal name prefix"@,
        ParseErrorKind::InvalidAttributePrefix => "invalid attribute prefix"@,
        ParseErrorKind::InvalidAttributeName => "invalid attribute name"@,
        ParseErrorKind::InvalidAttributeValue => "invalid attribute value"@,
        ParseErrorKind::InvalidAttribute => "invalid attribute"@,
        ParseErrorKind::DuplicatedAttribute => "duplicated attribute"@,
        ParseErrorKind::DuplicatedName => "duplicated name"@,
        ParseErrorKind::AvoidUppercaseLetters => "avoid uppercase letters"@,
        ParseErrorKind::UnexpectedWhitespace => "unexpected whitespace"@,
        ParseErrorKind::MissingAttributeValue => "missing attribute value"@,
        ParseErrorKind::DataBindingNotAllowed => "data bindings are not allowed for this attribute"@,
        ParseErrorKind::InvalidIdentifier => "not a valid identifier"@,
        ParseErrorKind::InvalidScopeName => "not a valid identifier as scope name"@,
        ParseErrorKind::ChildNodesNotAllowed => "child nodes are not allowed for this element"@,
        ParseErrorKind::IllegalEscapeSequence => "illegal escape sequence"@,
        ParseErrorKind::IncompleteConditionExpression => "incomplete condition expression"@,
        ParseErrorKind::UnmatchedBracket => "unmatched bracket"@,
        ParseErrorKind::UnmatchedParenthesis => "unmatched parenthesis"@,
        ParseErrorKind::MissingModuleName => "missing module name"@,
        ParseErrorKind::MissingSourcePath => "missing source path"@,
        ParseErrorKind::UnsupportedSyntax => "this syntax has not been supported yet"@,
    }
}

/// Whether a diagnostic of kind `k` prevents a successful compilation:
/// true exactly for the `Error` and `Fatal` severities.
pub open spec fn prevent_success_spec(k: ParseErrorKind) -> bool {
    level_rank(level_spec(k)) >= 3
}

impl ParseErrorKind {
    /// The fixed human-readable message for this kind of defect.
    pub fn static_message(&self) -> (r: &'static str)
        ensures
            r@ == message_spec(*self),
    {
        match self {
            Self::UnexpectedCharacter => "unexpected character",
            Self::UnexpectedExpressionCharacter => "unexpected character inside expression",
            Self::UnrecognizedTag => "unrecognized tag",
            Self::MissingExpressionEnd => "missing expression end",
            Self::IllegalEntity => "illegal entity",
            Self::IncompleteTag => "incomplete tag",
            Self::MissingEndTag => "missing end tag",
            Self::IllegalNamePrefix => "illegal name prefix",
            Self::InvalidAttributePrefix => "invalid attribute prefix",
            Self::InvalidAttributeName => "invalid attribute name",
            Self::InvalidAttributeValue => "invalid attribute value",
            Self::InvalidAttribute => "invalid attribute",
            Self::DuplicatedAttribute => "duplicated attribute",
            Self::DuplicatedName => "duplicated name",
            Self::AvoidUppercaseLetters => "avoid uppercase letters",
            Self::UnexpectedWhitespace => "unexpected whitespace",
            Self::MissingAttributeValue => "missing attribute value",
            Self::DataBindingNotAllowed => "data bindings are not allowed for this attribute",
            Self::InvalidIdentifier => "not a valid identifier",
            Self::InvalidScopeName => "not a valid identifier as scope name",
            Self::ChildNodesNotAllowed => "child nodes are not allowed for this element",
            Self::IllegalEscapeSequence => "illegal escape sequence",
            Self::IncompleteConditionExpression => "incomplete condition expression",
            Self::UnmatchedBracket => "unmatched bracket",
            Self::UnmatchedParenthesis => "unmatched parenthesis",
            Self::MissingModuleName => "missing module name",
            Self::MissingSourcePath => "missing source path",
            Self::UnsupportedSyntax => "this syntax has not been supported yet",
        }
    }

    /// The fixed severity of this kind of defect.
    pub fn level(&self) -> (r: ParseErrorLevel)
        ensures
            r == level_spec(*self),
    {
        match self {
            Self::UnexpectedCharacter => ParseErrorLevel::Fatal,
            Self::UnexpectedExpressionCharacter => ParseErrorLevel::Fatal,
            Self::UnrecognizedTag => ParseErrorLevel::Warn,
            Self::MissingExpressionEnd => ParseErrorLevel::Fatal,
            Self::IllegalEntity => ParseErrorLevel::Error,
            Self::IncompleteTag => ParseErrorLevel::Fatal,
            Self::MissingEndTag => ParseErrorLevel::Error,
            Self::IllegalNamePrefix => ParseErrorLevel::Warn,
            Self::InvalidAttributePrefix => ParseErrorLevel::Warn,
            Self::InvalidAttributeName => ParseErrorLevel::Warn,
            Self::InvalidAttributeValue => ParseErrorLevel::Note,
            Self::InvalidAttribute => ParseErrorLevel::Warn,
            Self::DuplicatedAttribute => ParseErrorLevel::Warn,
            Self::DuplicatedName => ParseErrorLevel::Note,
            Self::AvoidUppercaseLetters => ParseErrorLevel::Warn,
            Self::UnexpectedWhitespace => ParseErrorLevel::Note,
            Self::MissingAttributeValue => ParseErrorLevel::Error,
            Self::DataBindingNotAllowed => ParseErrorLevel::Note,
            Self::InvalidIdentifier => ParseErrorLevel::Fatal,
            Self::InvalidScopeName => ParseErrorLevel::Note,
            Self::ChildNodesNotAllowed => ParseErrorLevel::Error,
            Self::IllegalEscapeSequence => ParseErrorLevel::Error,
            Self::IncompleteConditionExpression => ParseErrorLevel::Fatal,
            Self::UnmatchedBracket => ParseErrorLevel::Fatal,
            Self::UnmatchedParenthesis => ParseErrorLevel::Fatal,
            Self::MissingModuleName => ParseErrorLevel::Error,
            Self::MissingSourcePath => ParseErrorLevel::Error,
            Self::UnsupportedSyntax => ParseErrorLevel::Error,
        }
    }

    /// The stable numeric code for this kind of defect.
    pub fn code(&self) -> (r: u32)
        ensures
            r == code_spec(*self),
    {
        match self {
            Self::UnexpectedCharacter => 0x10001,
            Self::UnexpectedExpressionCharacter => 0x10002,
            Self::UnrecognizedTag => 0x10003,
            Self::MissingExpressionEnd => 0x10004,
            Self::IllegalEntity => 0x10005,
            Self::IncompleteTag => 0x10006,
            Self::MissingEndTag => 0x10007,
            Self::IllegalNamePrefix => 0x10008,
            Self::InvalidAttributePrefix => 0x10009,
            Self::InvalidAttributeName => 0x1000A,
            Self::InvalidAttributeValue => 0x1000B,
            Self::InvalidAttribute => 0x1000C,
            Self::DuplicatedAttribute => 0x1000D,
            Self::DuplicatedName => 0x1000E,
            Self::AvoidUppercaseLetters => 0x1000F,
            Self::UnexpectedWhitespace => 0x10010,
            Self::MissingAttributeValue => 0x10011,
            Self::DataBindingNotAllowed => 0x10012,
            Self::InvalidIdentifier => 0x10013,
            Self::InvalidScopeName => 0x10014,
            Self::ChildNodesNotAllowed => 0x10015,
            Self::IllegalEscapeSequence => 0x10016,
            Self::IncompleteConditionExpression => 0x10017,
            Self::UnmatchedBracket => 0x10018,
            Self::UnmatchedParenthesis => 0x10019,
            Self::MissingModuleName => 0x1001A,
            Self::MissingSourcePath => 0x1001B,
            Self::UnsupportedSyntax => 0x1001C,
        }
    }
}

/// Severity totality: every defect kind maps to exactly one severity of the
/// four-member scale, and the `Error` and `Fatal` severities — and only those —
/// prevent a successful compilation.
pub proof fn lemma_severity_totality(k: ParseErrorKind)
    ensures
        level_spec(k) == ParseErrorLevel::Note || level_spec(k) == ParseErrorLevel::Warn
            || level_spec(k) == ParseErrorLevel::Error || level_spec(k) == ParseErrorLevel::Fatal,
        prevent_success_spec(k) <==> (level_spec(k) == ParseErrorLevel::Error || level_spec(k)
            == ParseErrorLevel::Fatal),
{
}

/// Template parsing error object.
#[derive(Debug, PartialEq)]
pub struct ParseError {
    pub path: String,
    pub kind: ParseErrorKind,
    pub location: Range<Position>,
}

impl Clone for ParseError {
    fn clone(&self) -> (r: Self)
        ensures
            r.path@ == self.path@,
            r.kind == self.kind,
            r.location.start == self.location.start,
            r.location.end == self.location.end,
    {
        ParseError {
            path: self.path.clone(),
            kind: self.kind,
            location: self.location.start..self.location.end,
        }
    }
}

impl ParseError {
    /// The level of the error.
    pub fn level(&self) -> (r: ParseErrorLevel)
        ensures
            r == level_spec(self.kind),
    {
        self.kind.level()
    }

    /// An error code.
    pub fn code(&self) -> (r: u32)
        ensures
            r == code_spec(self.kind),
    {
        self.kind.code()
    }

    /// Whether the error prevent a success compilation.
    pub fn prevent_success(&self) -> (r: bool)
        ensures
            r == prevent_success_spec(self.kind),
    {
        self.level() >= ParseErrorLevel::Error
    }

    /// Renders the full diagnostic for human display, with one-based line
    /// and column numbers.
    pub fn display_string(&self) -> (r: String)
        ensures
            r@ == display_spec(*self),
    {
        let mut s = String::from_str("template parsing error at ");
        s.append(self.path.as_str());
        s.append(":");
        let t1 = dec_string(self.location.start.line as u64 + 1);
        s.append(t1.as_str());
        s.append(":");
        let t2 = dec_string(self.location.start.utf16_col as u64 + 1);
        s.append(t2.as_str());
        s.append("-");
        let t3 = dec_string(self.location.end.line as u64 + 1);
        s.append(t3.as_str());
        s.append(":");
        let t4 = dec_string(self.location.end.utf16_col as u64 + 1);
        s.append(t4.as_str());
        s.append(": ");
        s.append(self.kind.static_message());
        proof {
            assert(s@ =~= display_spec(*self));
        }
        s
    }
}

/// The display rendering of a diagnostic:
/// `template parsing error at <path>:<line>:<col>-<line>:<col>: <message>`,
/// with one-based line and column numbers.
pub open spec fn display_spec(e: ParseError) -> Seq<char> {
    "template parsing error at "@ + e.path@ + ":"@ + dec_str(e.location.start.line + 1) + ":"@
        + dec_str(e.location.start.utf16_col + 1) + "-"@ + dec_str(e.location.end.line + 1) + ":"@
        + dec_str(e.location.end.utf16_col + 1) + ": "@ + message_spec(e.kind)
}

} // verus!
