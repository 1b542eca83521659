use hardhat_ts::ast::{Expr, Module, Node, Stmt};
use hardhat_ts::source_map::{SourceError, SourceMap};
use hardhat_ts::span::{ByteSpan, LineColumn, SourceFile, Span};

fn lc(line: usize, column: usize) -> LineColumn {
    LineColumn { line, column }
}

#[test]
fn positions_start_at_one() {
    let map = SourceMap::new("ab\ncd\n".to_string()).unwrap();
    assert_eq!(map.lookup_char_pos(1), lc(1, 0));
    assert_eq!(map.lookup_char_pos(2), lc(1, 1));
    assert_eq!(map.lookup_char_pos(3), lc(1, 2));
    assert_eq!(map.lookup_char_pos(4), lc(2, 0));
    assert_eq!(map.lookup_char_pos(6), lc(2, 2));
    assert_eq!(map.text(), "ab\ncd\n");
}

#[test]
fn position_behind_the_last_character_is_valid() {
    let map = SourceMap::new("ab".to_string()).unwrap();
    assert!(map.is_valid(1));
    assert!(map.is_valid(3));
    assert!(!map.is_valid(0));
    assert!(!map.is_valid(4));
    assert_eq!(map.lookup_char_pos(3), lc(1, 2));
    assert_eq!(map.try_lookup_char_pos(3), Some(lc(1, 2)));
    assert_eq!(map.try_lookup_char_pos(0), None);
    assert_eq!(map.try_lookup_char_pos(4), None);
}

#[test]
fn tab_is_four_columns_wide() {
    let map = SourceMap::new("\tx".to_string()).unwrap();
    assert_eq!(map.lookup_char_pos(1), lc(1, 0));
    assert_eq!(map.lookup_char_pos(2), lc(1, 4));
    assert_eq!(map.lookup_char_pos(3), lc(1, 5));
}

#[test]
fn wide_and_multibyte_characters() {
    // 'é' takes two bytes and one column, '世' three bytes and two columns.
    let map = SourceMap::new("é世x".to_string()).unwrap();
    assert_eq!(map.lookup_char_pos(1), lc(1, 0));
    assert_eq!(map.lookup_char_pos(3), lc(1, 1));
    assert_eq!(map.lookup_char_pos(6), lc(1, 3));
    assert_eq!(map.lookup_char_pos(7), lc(1, 4));
    // Positions inside a character are none.
    assert!(!map.is_valid(2));
    assert!(!map.is_valid(4));
    assert!(!map.is_valid(5));
    assert_eq!(map.try_lookup_char_pos(2), None);
}

#[test]
fn carriage_return_and_line_feed_end_one_line() {
    let map = SourceMap::new("a\r\nb".to_string()).unwrap();
    assert_eq!(map.lookup_char_pos(1), lc(1, 0));
    assert_eq!(map.lookup_char_pos(4), lc(2, 0));
    assert_eq!(map.lookup_char_pos(5), lc(2, 1));
}

#[test]
fn later_positions_come_no_earlier() {
    let text = "it(\"a\", () => {\n\tawait x.y();\n});\n";
    let map = SourceMap::new(text.to_string()).unwrap();
    let mut last = lc(0, 0);
    for pos in 1..=(text.len() as u32 + 1) {
        let here = map.lookup_char_pos(pos);
        assert!(last.precedes_or_equals(&here));
        last = here;
    }
    // Behind the last line break no new line starts.
    assert_eq!(last, lc(3, 4));
}

#[test]
fn empty_text_has_one_position() {
    let map = SourceMap::new(String::new()).unwrap();
    assert!(map.is_valid(1));
    assert!(!map.is_valid(2));
    assert_eq!(map.lookup_char_pos(1), lc(0, 0));
}

#[test]
fn byte_order_mark_is_refused() {
    assert!(matches!(SourceMap::new("\u{feff}x".to_string()), Err(SourceError::ByteOrderMark)));
    assert!(SourceMap::new("x\u{feff}".to_string()).is_ok());
}

#[test]
fn byte_span_becomes_a_span_of_lines_and_columns() {
    let map = SourceMap::new("a;\n  foo();\n".to_string()).unwrap();
    let file = SourceFile::new("/p".to_string(), "/p/test/t.ts".to_string());
    let span = ByteSpan::new(6, 12).to_internal_span(&map, &file);
    assert_eq!(span.start, lc(2, 2));
    assert_eq!(span.end, lc(2, 8));
    assert_eq!(span.source_file.root, "/p");
    assert_eq!(span.source_file.path, "/p/test/t.ts");
    let across = ByteSpan::new(1, 12).to_internal_span(&map, &file);
    assert_eq!(across.start, lc(1, 0));
    assert_eq!(across.end, lc(2, 8));
}

#[test]
fn line_columns_are_ordered_by_line_then_column() {
    assert!(lc(1, 5).precedes_or_equals(&lc(2, 0)));
    assert!(lc(2, 3).precedes_or_equals(&lc(2, 3)));
    assert!(lc(2, 3).precedes_or_equals(&lc(2, 4)));
    assert!(!lc(2, 4).precedes_or_equals(&lc(2, 3)));
    assert!(!lc(3, 0).precedes_or_equals(&lc(2, 9)));
}

fn span(path: &str, start: LineColumn, end: LineColumn) -> Span {
    Span { source_file: SourceFile::new("/p".to_string(), path.to_string()), start, end }
}

#[test]
fn spans_are_compared_by_file_and_positions() {
    let a = span("/p/t.ts", lc(1, 2), lc(3, 4));
    assert!(a.same_as(&span("/p/t.ts", lc(1, 2), lc(3, 4))));
    assert!(a.same_as(&a.duplicate()));
    assert!(!a.same_as(&span("/p/u.ts", lc(1, 2), lc(3, 4))));
    assert!(!a.same_as(&span("/p/t.ts", lc(1, 3), lc(3, 4))));
    assert!(!a.same_as(&span("/p/t.ts", lc(1, 2), lc(3, 5))));
    let other_root = Span {
        source_file: SourceFile::new("/q".to_string(), "/p/t.ts".to_string()),
        start: lc(1, 2),
        end: lc(3, 4),
    };
    assert!(!a.same_as(&other_root));
    assert!(a.source_file.same_as(&a.source_file.duplicate()));
}

#[test]
fn span_text_is_path_and_positions() {
    assert_eq!(span("/p/test/t.ts", lc(12, 4), lc(12, 30)).to_text(), "test/t.ts:12:4-12:30");
    assert_eq!(span("/p/t.ts", lc(1, 0), lc(107, 9)).to_text(), "t.ts:1:0-107:9");
    assert_eq!(span("/p/t.ts", lc(0, 0), lc(10, 100)).to_text(), "t.ts:0:0-10:100");
}

#[test]
fn relative_path_drops_the_root() {
    let file = |root: &str, path: &str| SourceFile::new(root.to_string(), path.to_string());
    assert_eq!(file("/p", "/p/test/t.ts").relative_path(), "test/t.ts");
    assert_eq!(file("/p", "/q/test/t.ts").relative_path(), "/q/test/t.ts");
    assert_eq!(file("/p", "/pq/t.ts").relative_path(), "/pq/t.ts");
    assert_eq!(file("/p", "/p").relative_path(), "/p");
    assert_eq!(file("/p/long/root", "/p").relative_path(), "/p");
    assert_eq!(file("", "/t.ts").relative_path(), "t.ts");
    assert_eq!(file("/é", "/é/t.ts").relative_path(), "t.ts");
}

#[test]
fn trees_are_checked_against_the_text() {
    let map = SourceMap::new("f();é".to_string()).unwrap();
    let f = || Expr::call(ByteSpan::new(1, 4), Expr::identifier(ByteSpan::new(1, 2), "f".to_string()), vec![], vec![]);
    let good = Module::new(ByteSpan::new(1, 7), vec![Node::Stmt(Stmt::expr(ByteSpan::new(1, 5), f()))]);
    assert!(good.check_fits(&map));
    // The module's own span is not looked at.
    let wide = Module::new(ByteSpan::new(1, 70), vec![Node::Stmt(Stmt::expr(ByteSpan::new(1, 5), f()))]);
    assert!(wide.check_fits(&map));
    let inside_a_character =
        Module::new(ByteSpan::new(1, 7), vec![Node::Stmt(Stmt::expr(ByteSpan::new(1, 6), f()))]);
    assert!(!inside_a_character.check_fits(&map));
    let behind = Module::new(ByteSpan::new(1, 7), vec![Node::Stmt(Stmt::expr(ByteSpan::new(1, 8), f()))]);
    assert!(!behind.check_fits(&map));
    let deep = Module::new(
        ByteSpan::new(1, 7),
        vec![Node::Stmt(Stmt::expr(
            ByteSpan::new(1, 5),
            Expr::call(ByteSpan::new(1, 4), Expr::identifier(ByteSpan::new(0, 2), "f".to_string()), vec![], vec![]),
        ))],
    );
    assert!(!deep.check_fits(&map));
}

#[test]
fn order_holds_with_characters_of_every_width() {
    let texts = [
        "a\u{7}b\u{301}c\t\u{200b}d",
        "x\r\ny\rz\n\n世界\r\n🙂🙂\t\u{0}\u{1f}é\n",
        "\n\n\n",
        "\r\r\n\r",
        "🙂",
        "\u{301}\u{301}\u{301}a",
        "tab\there\tand\twide\t世\t界",
    ];
    for text in texts {
        let map = SourceMap::new(text.to_string()).unwrap();
        let mut last: Option<LineColumn> = None;
        let mut valid = 0;
        for pos in 0..=(text.len() as u32 + 2) {
            match map.try_lookup_char_pos(pos) {
                Some(here) => {
                    assert!(text.is_char_boundary(pos as usize - 1));
                    assert!(here.line >= 1);
                    if let Some(last) = last {
                        assert!(last.precedes_or_equals(&here), "{text:?} at {pos}");
                    }
                    last = Some(here);
                    valid += 1;
                }
                None => {
                    assert!(pos == 0 || pos as usize > text.len() || !text.is_char_boundary(pos as usize - 1));
                }
            }
        }
        assert_eq!(valid, text.chars().count() + 1);
    }
}
