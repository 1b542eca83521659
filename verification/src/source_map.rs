//! From byte positions to lines and columns.
//!
//! Byte positions are those of a parser that reads the text as the first
//! file of a source map: the first byte is at position 1.
use crate::span::{ByteSpan, LineColumn, SourceFile, SourceFileView, Span, SpanView};
use swc_core::common::sync::Lrc;
use swc_core::common::{BytePos, FileName};
use vstd::prelude::*;
use vstd::string::*;
use vstd::utf8::{encode_utf8, is_char_boundary};

verus! {

/// The line and the display column that `swc_common`'s source map reports
/// for byte position `pos`, when the map holds `text` as its only file.
pub uninterp spec fn char_pos(text: Seq<char>, pos: u32) -> (nat, nat);

/// `text` starts with a byte order mark.
pub open spec fn starts_with_bom(text: Seq<char>) -> bool {
    text.len() > 0 && text[0] == '\u{feff}'
}

/// `pos` is a position of `text`: that of one of its characters, or the one
/// behind the last.
pub open spec fn valid_pos(text: Seq<char>, pos: u32) -> bool {
    let bytes = encode_utf8(text);
    1 <= pos <= bytes.len() + 1 && is_char_boundary(bytes, pos - 1)
}

/// `a` comes no later than `b`: lines first, then columns.
pub open spec fn pos_le(a: (nat, nat), b: (nat, nat)) -> bool {
    a.0 < b.0 || (a.0 == b.0 && a.1 <= b.1)
}

/// Looks `pos` up with `SourceMap::lookup_char_pos` of `swc_common`, in a
/// fresh map that holds `text` as its only file, and returns the line and
/// the display column of the location found.
///
/// Claimed of the outside code: the result depends on `text` and `pos`
/// alone; lines are counted from 1 in a text that is not empty; and a later
/// position never gets an earlier line, nor an earlier column on the same
/// line.
#[verifier::external_body]
fn lookup_char_pos(text: &str, pos: u32) -> (r: (usize, usize))
    requires
        text.spec_bytes().len() < u32::MAX,
        !starts_with_bom(text@),
        valid_pos(text@, pos),
    ensures
        (r.0 as nat, r.1 as nat) == char_pos(text@, pos),
        text@.len() > 0 ==> r.0 >= 1,
        forall|earlier: u32|
            earlier <= pos && valid_pos(text@, earlier) ==> pos_le(
                #[trigger] char_pos(text@, earlier),
                (r.0 as nat, r.1 as nat),
            ),
{
    let map = swc_core::common::SourceMap::default();
    map.new_source_file(Lrc::new(FileName::Anon), text.to_string());
    let loc = map.lookup_char_pos(BytePos(pos));
    (loc.line, loc.col_display)
}

/// Why a text is refused as a source.
#[derive(Debug)]
pub enum SourceError {
    /// The text starts with a byte order mark.
    ByteOrderMark,
    /// The text is too long for 32-bit positions.
    TooLarge,
}

/// The text of a source file, in which positions are looked up.
pub struct SourceMap {
    text: String,
}

impl View for SourceMap {
    type V = Seq<char>;

    closed spec fn view(&self) -> Seq<char> {
        self.text@
    }
}

impl SourceMap {
    #[verifier::type_invariant]
    spec fn inv(self) -> bool {
        encode_utf8(self.text@).len() < u32::MAX && !starts_with_bom(self.text@)
    }

    /// `pos` is a position of the text.
    pub open spec fn valid(&self, pos: u32) -> bool {
        valid_pos(self@, pos)
    }

    /// The line and column of `pos`.
    pub open spec fn line_column(&self, pos: u32) -> LineColumn {
        LineColumn {
            line: char_pos(self@, pos).0 as usize,
            column: char_pos(self@, pos).1 as usize,
        }
    }

    /// The span that covers `span` in `file`.
    pub open spec fn span_of(&self, file: SourceFileView, span: ByteSpan) -> SpanView {
        SpanView {
            source_file: file,
            start: self.line_column(span.lo),
            end: self.line_column(span.hi),
        }
    }

    /// A source map for `text`. Refuses a text that starts with a byte order
    /// mark, and one of `u32::MAX` bytes or more.
    pub fn new(text: String) -> (r: Result<SourceMap, SourceError>)
        ensures
            match r {
                Ok(map) => map@ == text@ && !starts_with_bom(text@) && encode_utf8(text@).len()
                    < u32::MAX,
                Err(SourceError::ByteOrderMark) => starts_with_bom(text@),
                Err(SourceError::TooLarge) => !starts_with_bom(text@) && encode_utf8(text@).len()
                    >= u32::MAX,
            },
    {
        if !text.as_str().is_empty() && text.as_str().get_char(0) == '\u{feff}' {
            return Err(SourceError::ByteOrderMark);
        }
        if text.as_str().as_bytes().len() >= u32::MAX as usize {
            return Err(SourceError::TooLarge);
        }
        Ok(SourceMap { text })
    }

    /// The text.
    pub fn text(&self) -> (text: &str)
        ensures
            text@ == self@,
    {
        self.text.as_str()
    }

    /// Whether `pos` is a position of the text.
    pub fn is_valid(&self, pos: u32) -> (r: bool)
        ensures
            r == self.valid(pos),
    {
        pos >= 1 && (pos - 1) as usize <= self.text.as_str().as_bytes().len()
            && self.text.as_str().is_char_boundary((pos - 1) as usize)
    }

    /// The line and column of `pos`.
    pub fn lookup_char_pos(&self, pos: u32) -> (lc: LineColumn)
        requires
            self.valid(pos),
        ensures
            lc == self.line_column(pos),
            self@.len() > 0 ==> lc.line >= 1,
            forall|earlier: u32|
                earlier <= pos && self.valid(earlier) ==> (#[trigger] self.line_column(
                    earlier,
                )).le(lc),
    {
        proof {
            use_type_invariant(self);
        }
        let (line, column) = lookup_char_pos(self.text.as_str(), pos);
        let lc = LineColumn { line, column };
        assert forall|earlier: u32| earlier <= pos && self.valid(earlier) implies (
        #[trigger] self.line_column(earlier)).le(lc) by {
            assert(pos_le(char_pos(self@, earlier), (line as nat, column as nat)));
        }
        lc
    }

    /// The line and column of `pos`, where it is a position of the text.
    pub fn try_lookup_char_pos(&self, pos: u32) -> (r: Option<LineColumn>)
        ensures
            r is Some <==> self.valid(pos),
            r matches Some(lc) ==> lc == self.line_column(pos),
    {
        if self.is_valid(pos) {
            Some(self.lookup_char_pos(pos))
        } else {
            None
        }
    }
}

impl ByteSpan {
    /// The span that covers these bytes of `source_file`.
    pub fn to_internal_span(&self, source_map: &SourceMap, source_file: &SourceFile) -> (span:
        Span)
        requires
            self.lo <= self.hi,
            source_map.valid(self.lo),
            source_map.valid(self.hi),
        ensures
            span@ == source_map.span_of(source_file@, *self),
            span.ordered(),
            source_map@.len() > 0 ==> span.on_lines(),
    {
        let start = source_map.lookup_char_pos(self.lo);
        let end = source_map.lookup_char_pos(self.hi);
        assert(source_map.line_column(self.lo).le(end));
        Span { source_file: source_file.duplicate(), start, end }
    }
}

} // verus!
