use axiomterm::types::{
    Cell, CellAttr, Cursor, Line, LineImpact, OperationCategory, Screen, ScreenOperation,
    TerminalColor,
};

fn text(line: &Line) -> String {
    line.cells.iter().map(|c| c.ch).collect()
}

fn replay(ops: &[ScreenOperation]) -> Screen {
    let mut s = Screen::new();
    for op in ops {
        match op {
            ScreenOperation::PushLine(l) => {
                s.push_line(l.clone());
            }
            ScreenOperation::Clear => {
                s.clear();
            }
            ScreenOperation::SetCursor(c) => {
                s.set_cursor(*c);
            }
            ScreenOperation::UpdateLine(r, l) => {
                s.update_line(*r, l.clone());
            }
        }
    }
    s
}

#[test]
fn replaying_operations_rebuilds_screen() {
    let white = TerminalColor::white();
    let mut s = Screen::new();
    let mut ops = Vec::new();
    ops.push(s.push_line(Line::from_string("one", white)));
    ops.push(s.push_line(Line::from_string("two", white)));
    ops.push(s.update_line(0, Line::from_string("uno", white)));
    ops.push(s.update_line(2, Line::from_string("three", white)));
    ops.push(s.update_line(9, Line::from_string("far", white)));
    ops.push(s.clear());
    ops.push(s.push_line(Line::from_string("after", white)));
    ops.push(s.set_cursor(Cursor { row: 1, col: 3 }));
    let r = replay(&ops);
    assert_eq!(r.lines, s.lines);
    assert_eq!(r.cursor, s.cursor);
    assert_eq!(r.meta, s.meta);
    assert_eq!(s.lines.len(), 1);
    assert_eq!(text(&s.lines[0]), "after");
}

#[test]
fn update_line_in_range_and_past_end() {
    let c = TerminalColor::gray();
    let mut s = Screen::new();
    s.push_line(Line::from_string("a", c));
    let op = s.update_line(0, Line::from_string("b", c));
    assert_eq!(op, ScreenOperation::UpdateLine(0, Line::from_string("b", c)));
    let op = s.update_line(1, Line::from_string("c", c));
    assert_eq!(op, ScreenOperation::PushLine(Line::from_string("c", c)));
    let op = s.update_line(7, Line::from_string("d", c));
    assert_eq!(op, ScreenOperation::PushLine(Line::from_string("d", c)));
    let texts: Vec<String> = s.lines.iter().map(text).collect();
    assert_eq!(texts, vec!["b", "c", "d"]);
    assert!(s.meta.dirty);
}

#[test]
fn classification_of_operations() {
    let l = Line::new();
    for r in [0usize, 3, usize::MAX] {
        let op = ScreenOperation::UpdateLine(r, l.clone());
        assert_eq!(op.category(), OperationCategory::Visual);
        assert_eq!(op.metadata().impact, LineImpact::Single(r));
        assert!(!op.metadata().caused_scroll);
    }
    for op in [ScreenOperation::PushLine(l.clone()), ScreenOperation::Clear] {
        assert_eq!(op.category(), OperationCategory::Layout);
        assert_eq!(op.metadata().impact, LineImpact::Unbounded);
        assert!(op.metadata().caused_scroll);
    }
    let op = ScreenOperation::SetCursor(Cursor { row: 2, col: 2 });
    assert_eq!(op.category(), OperationCategory::Cursor);
    assert_eq!(op.metadata().impact, LineImpact::Multi(Vec::new()));
}

#[test]
fn clear_resets_cursor_and_lines() {
    let mut s = Screen::new();
    s.push_line(Line::from_string("x", TerminalColor::red()));
    s.set_cursor(Cursor { row: 4, col: 9 });
    let op = s.clear();
    assert_eq!(op, ScreenOperation::Clear);
    assert!(s.lines.is_empty());
    assert_eq!(s.cursor, Cursor { row: 0, col: 0 });
    let op = s.clear();
    assert_eq!(op, ScreenOperation::Clear);
    assert!(s.lines.is_empty());
}

#[test]
fn line_from_string_cells() {
    let l = Line::from_string("hé", TerminalColor::gold());
    assert_eq!(l.cells.len(), 2);
    assert_eq!(
        l.cells[1],
        Cell {
            ch: 'é',
            fg: TerminalColor::from_rgb(255, 215, 0),
            bg: TerminalColor::black(),
            attrs: CellAttr { bold: false, underline: false },
        }
    );
    assert_eq!(Cell::new('q', TerminalColor::blue()).fg, TerminalColor::from_rgb(100, 150, 255));
    assert!(Line::new().cells.is_empty());
}
