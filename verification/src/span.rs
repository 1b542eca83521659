//! Positions and spans.
use vstd::prelude::*;
use vstd::string::{StrSliceExecFns, StringExecFns};

verus! {

/// A half-open range of byte positions in a source file.
#[derive(Clone, Copy, Debug, PartialEq, Eq, Structural)]
pub struct ByteSpan {
    pub lo: u32,
    pub hi: u32,
}

impl ByteSpan {
    /// `other` lies within `self`.
    pub open spec fn contains(self, other: ByteSpan) -> bool {
        self.lo <= other.lo && other.hi <= self.hi
    }

    /// `other` lies within `self` and is not all of it.
    pub open spec fn strictly_contains(self, other: ByteSpan) -> bool {
        self.contains(other) && self != other
    }

    /// The two spans share no byte.
    pub open spec fn disjoint(self, other: ByteSpan) -> bool {
        self.hi <= other.lo || other.hi <= self.lo
    }

    pub fn new(lo: u32, hi: u32) -> (span: ByteSpan)
        ensures
            span.lo == lo,
            span.hi == hi,
    {
        ByteSpan { lo, hi }
    }
}

/// A line (counted from 1) and a display column (counted from 0).
#[derive(Clone, Copy, Debug, PartialEq, Eq, Structural)]
pub struct LineColumn {
    pub line: usize,
    pub column: usize,
}

impl LineColumn {
    /// `self` comes no later than `other`: lines first, then columns.
    pub open spec fn le(self, other: LineColumn) -> bool {
        self.line < other.line || (self.line == other.line && self.column <= other.column)
    }

    /// Whether `self` comes no later than `other`.
    pub fn precedes_or_equals(&self, other: &LineColumn) -> (r: bool)
        ensures
            r == self.le(*other),
    {
        self.line < other.line || (self.line == other.line && self.column <= other.column)
    }
}

/// A source file of a project: the project's root and the file's path.
#[derive(Clone, Debug)]
pub struct SourceFile {
    pub root: String,
    pub path: String,
}

/// What a `SourceFile` stands for.
pub struct SourceFileView {
    pub root: Seq<char>,
    pub path: Seq<char>,
}

impl View for SourceFile {
    type V = SourceFileView;

    open spec fn view(&self) -> SourceFileView {
        SourceFileView { root: self.root@, path: self.path@ }
    }
}

impl SourceFile {
    pub fn new(root: String, path: String) -> (file: SourceFile)
        ensures
            file@ == (SourceFileView { root: root@, path: path@ }),
    {
        SourceFile { root, path }
    }

    /// Whether both name the same file of the same project.
    pub fn same_as(&self, other: &SourceFile) -> (r: bool)
        ensures
            r == (self@ == other@),
    {
        self.root == other.root && self.path == other.path
    }

    pub fn duplicate(&self) -> (file: SourceFile)
        ensures
            file@ == self@,
    {
        SourceFile { root: self.root.clone(), path: self.path.clone() }
    }
}

/// A range of a source file, from `start` up to `end`.
#[derive(Clone, Debug)]
pub struct Span {
    pub source_file: SourceFile,
    pub start: LineColumn,
    pub end: LineColumn,
}

/// What a `Span` stands for.
pub struct SpanView {
    pub source_file: SourceFileView,
    pub start: LineColumn,
    pub end: LineColumn,
}

impl View for Span {
    type V = SpanView;

    open spec fn view(&self) -> SpanView {
        SpanView { source_file: self.source_file@, start: self.start, end: self.end }
    }
}

impl Span {
    /// The start comes no later than the end.
    pub open spec fn ordered(&self) -> bool {
        self.start.le(self.end)
    }

    /// Both lines are counted from 1.
    pub open spec fn on_lines(&self) -> bool {
        self.start.line >= 1 && self.end.line >= 1
    }

    /// Whether both cover the same range of the same file.
    pub fn same_as(&self, other: &Span) -> (r: bool)
        ensures
            r == (self@ == other@),
    {
        self.source_file.same_as(&other.source_file) && self.start == other.start && self.end
            == other.end
    }

    pub fn duplicate(&self) -> (span: Span)
        ensures
            span@ == self@,
    {
        Span { source_file: self.source_file.duplicate(), start: self.start, end: self.end }
    }
}

/// The character of the decimal digit `d`.
pub open spec fn digit(d: nat) -> char {
    if d == 0 {
        '0'
    } else if d == 1 {
        '1'
    } else if d == 2 {
        '2'
    } else if d == 3 {
        '3'
    } else if d == 4 {
        '4'
    } else if d == 5 {
        '5'
    } else if d == 6 {
        '6'
    } else if d == 7 {
        '7'
    } else if d == 8 {
        '8'
    } else {
        '9'
    }
}

/// `n` in decimal digits, without leading zeros.
pub open spec fn decimal(n: nat) -> Seq<char>
    decreases n,
{
    if n < 10 {
        seq![digit(n)]
    } else {
        decimal(n / 10).push(digit(n % 10))
    }
}

/// `path` without `root` and the slash behind it, where `path` starts with
/// them; else all of `path`.
pub open spec fn relative(root: Seq<char>, path: Seq<char>) -> Seq<char> {
    if root.len() < path.len() && path.subrange(0, root.len() as int) == root && path[root.len() as int]
        == '/' {
        path.subrange(root.len() as int + 1, path.len() as int)
    } else {
        path
    }
}

/// A line and column as text: `line:column`.
pub open spec fn line_column_text(lc: LineColumn) -> Seq<char> {
    decimal(lc.line as nat) + seq![':'] + decimal(lc.column as nat)
}

/// A span as text: `path:line:column-line:column`, with the path taken from
/// the project's root.
pub open spec fn span_text(span: SpanView) -> Seq<char> {
    relative(span.source_file.root, span.source_file.path) + seq![':'] + line_column_text(
        span.start,
    ) + seq!['-'] + line_column_text(span.end)
}

/// The text of the decimal digit `d`.
fn digit_str(d: usize) -> (r: &'static str)
    requires
        d < 10,
    ensures
        r@ == seq![digit(d as nat)],
{
    proof {
        reveal_strlit("0");
        reveal_strlit("1");
        reveal_strlit("2");
        reveal_strlit("3");
        reveal_strlit("4");
        reveal_strlit("5");
        reveal_strlit("6");
        reveal_strlit("7");
        reveal_strlit("8");
        reveal_strlit("9");
    }
    let r = if d == 0 {
        "0"
    } else if d == 1 {
        "1"
    } else if d == 2 {
        "2"
    } else if d == 3 {
        "3"
    } else if d == 4 {
        "4"
    } else if d == 5 {
        "5"
    } else if d == 6 {
        "6"
    } else if d == 7 {
        "7"
    } else if d == 8 {
        "8"
    } else {
        "9"
    };
    assert(r@ =~= seq![digit(d as nat)]);
    r
}

/// Writes `n` in decimal digits behind `text`.
fn push_decimal(text: &mut String, n: usize)
    ensures
        final(text)@ == old(text)@ + decimal(n as nat),
    decreases n,
{
    if n >= 10 {
        push_decimal(text, n / 10);
    }
    text.append(digit_str(n % 10));
    proof {
        if n >= 10 {
            assert(old(text)@ + decimal(n as nat) =~= old(text)@ + decimal((n / 10) as nat) + seq![
                digit((n % 10) as nat),
            ]);
        }
    }
}

impl LineColumn {
    /// Writes `line:column` behind `text`.
    fn push_text(&self, text: &mut String)
        ensures
            final(text)@ == old(text)@ + line_column_text(*self),
    {
        proof {
            reveal_strlit(":");
        }
        push_decimal(text, self.line);
        text.append(":");
        push_decimal(text, self.column);
        assert(text@ =~= old(text)@ + line_column_text(*self));
    }
}

impl SourceFile {
    /// The file's path from the project's root.
    pub fn relative_path(&self) -> (r: String)
        ensures
            r@ == relative(self.root@, self.path@),
    {
        let root = self.root.as_str();
        let path = self.path.as_str();
        let root_len = root.unicode_len();
        let path_len = path.unicode_len();
        if root_len >= path_len {
            return self.path.clone();
        }
        let mut i: usize = 0;
        while i < root_len
            invariant
                i <= root_len < path_len,
                root_len == root@.len(),
                path_len == path@.len(),
                root@ == self.root@,
                path@ == self.path@,
                path@.subrange(0, i as int) == root@.subrange(0, i as int),
            decreases root_len - i,
        {
            if root.get_char(i) != path.get_char(i) {
                proof {
                    let prefix = path@.subrange(0, root_len as int);
                    assert(prefix[i as int] == path@[i as int]);
                    assert(prefix != root@);
                }
                return self.path.clone();
            }
            proof {
                assert(path@.subrange(0, i + 1) =~= path@.subrange(0, i as int).push(path@[i as int]));
                assert(root@.subrange(0, i + 1) =~= root@.subrange(0, i as int).push(root@[i as int]));
            }
            i = i + 1;
        }
        assert(root@.subrange(0, root_len as int) =~= root@);
        if path.get_char(root_len) != '/' {
            return self.path.clone();
        }
        String::from_str(path.substring_char(root_len + 1, path_len))
    }
}

impl Span {
    /// The span as text: `path:line:column-line:column`, with the path
    /// taken from the project's root.
    pub fn to_text(&self) -> (text: String)
        ensures
            text@ == span_text(self@),
    {
        proof {
            reveal_strlit(":");
            reveal_strlit("-");
        }
        let mut text = self.source_file.relative_path();
        text.append(":");
        self.start.push_text(&mut text);
        text.append("-");
        self.end.push_text(&mut text);
        assert(text@ =~= span_text(self@));
        text
    }
}

} // verus!
