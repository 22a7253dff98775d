use axiomterm::renderer::{FrameGeometry, TerminalRenderer};
use axiomterm::types::{Cursor, Line, ScreenOperation};

fn geometry(w: u32) -> FrameGeometry {
    FrameGeometry { width_bits: w, height_bits: 7, origin_x_bits: 0, origin_y_bits: 0 }
}

fn draw(r: &mut TerminalRenderer<String>, g: FrameGeometry, rows: usize) -> Vec<usize> {
    r.begin_frame(g, rows);
    let built = r.rows_to_build();
    for &row in &built {
        r.store_row(row, vec![format!("row {}", row)]);
    }
    r.end_frame();
    built
}

#[test]
fn second_draw_rebuilds_nothing() {
    let mut r: TerminalRenderer<String> = TerminalRenderer::new();
    assert_eq!(draw(&mut r, geometry(1), 3), vec![0, 1, 2]);
    assert!(draw(&mut r, geometry(1), 3).is_empty());
}

#[test]
fn structural_operation_drops_every_row() {
    let mut r: TerminalRenderer<String> = TerminalRenderer::new();
    draw(&mut r, geometry(1), 3);
    r.on_operation(&ScreenOperation::PushLine(Line::new()));
    assert!(r.screen_cache.iter().all(|e| e.is_none()));
    assert_eq!(r.metrics.structural_ops, 1);
    assert_eq!(r.metrics.dirty_line_count, usize::MAX);
    assert_eq!(draw(&mut r, geometry(1), 4), vec![0, 1, 2, 3]);
    r.on_operation(&ScreenOperation::Clear);
    assert!(r.screen_cache.iter().all(|e| e.is_none()));
}

#[test]
fn row_update_drops_only_that_row() {
    let mut r: TerminalRenderer<String> = TerminalRenderer::new();
    draw(&mut r, geometry(1), 4);
    r.on_operation(&ScreenOperation::UpdateLine(2, Line::new()));
    let present: Vec<bool> = r.screen_cache.iter().map(|e| e.is_some()).collect();
    assert_eq!(present, vec![true, true, false, true]);
    assert_eq!(r.metrics.visual_ops, 1);
    assert_eq!(r.metrics.dirty_line_count, 1);
    assert_eq!(draw(&mut r, geometry(1), 4), vec![2]);
    assert_eq!(r.metrics.dirty_line_count, 0);
    r.on_operation(&ScreenOperation::UpdateLine(10, Line::new()));
    assert!(r.screen_cache.iter().all(|e| e.is_some()));
}

#[test]
fn cursor_move_keeps_cache() {
    let mut r: TerminalRenderer<String> = TerminalRenderer::new();
    draw(&mut r, geometry(1), 2);
    r.on_operation(&ScreenOperation::SetCursor(Cursor { row: 1, col: 1 }));
    assert!(r.screen_cache.iter().all(|e| e.is_some()));
    assert_eq!(r.metrics.cursor_ops, 1);
}

#[test]
fn geometry_change_or_disabled_cache_rebuilds_all() {
    let mut r: TerminalRenderer<String> = TerminalRenderer::new();
    draw(&mut r, geometry(1), 2);
    assert_eq!(draw(&mut r, geometry(2), 2), vec![0, 1]);
    r.cursor_optimization_mode = false;
    assert_eq!(draw(&mut r, geometry(2), 2), vec![0, 1]);
}

#[test]
fn shrinking_and_growing_row_count() {
    let mut r: TerminalRenderer<String> = TerminalRenderer::new();
    draw(&mut r, geometry(1), 3);
    assert!(draw(&mut r, geometry(1), 2).is_empty());
    assert_eq!(draw(&mut r, geometry(1), 4), vec![2, 3]);
    assert_eq!(r.screen_cache[3].as_ref().unwrap().line_index, 3);
}

#[test]
fn kept_entries_keep_their_shapes() {
    let mut r: TerminalRenderer<String> = TerminalRenderer::new();
    draw(&mut r, geometry(1), 3);
    r.store_row(0, vec!["custom".to_string()]);
    r.on_operation(&ScreenOperation::UpdateLine(1, Line::new()));
    assert_eq!(r.screen_cache[0].as_ref().unwrap().shapes, vec!["custom".to_string()]);
    assert_eq!(r.screen_cache[2].as_ref().unwrap().shapes, vec!["row 2".to_string()]);
    r.begin_frame(geometry(1), 3);
    assert_eq!(r.screen_cache[0].as_ref().unwrap().shapes, vec!["custom".to_string()]);
    assert!(r.screen_cache[1].is_none());
    r.on_operation(&ScreenOperation::SetCursor(Cursor { row: 0, col: 0 }));
    assert_eq!(r.metrics.dirty_line_count, 1);
}
