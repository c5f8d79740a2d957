use wezterm_render::config::WindowPadding;
use wezterm_render::cursor::{CursorPosition, CursorShape};
use wezterm_render::paint::{
    adjusted_font_scale, dpi_scale_for, first_line_offset, next_paint_step, padding_rects,
    relative_tab_index, scaling_changed, screen_cursor, terminal_size_for_window,
    text_cursor_rect, window_size_for_cells, window_title, FontSizeChange, PaintAction,
    PaintEvent, PaintPhase, PixelRect, TabError, TerminalSize,
};

#[test]
fn overflow_recovery_sequence() {
    let start = PaintPhase::Painting { retried: false };
    let (p, a) = next_paint_step(start, PaintEvent::OutOfTextureSpace { size: 4096 });
    assert_eq!(a, PaintAction::RecreateAtlas(Some(4096)));
    let (p, a) = next_paint_step(p, PaintEvent::AtlasRecreateFailed);
    assert_eq!(a, PaintAction::RecreateAtlas(None));
    let (p, a) = next_paint_step(p, PaintEvent::AtlasRecreated);
    assert_eq!(a, PaintAction::Repaint);
    let (p, a) = next_paint_step(p, PaintEvent::OutOfTextureSpace { size: 8192 });
    assert_eq!(a, PaintAction::Abort);
    assert_eq!(p, PaintPhase::Fatal);
}

#[test]
fn overflow_recovery_gives_up_after_two_attempts() {
    let mut phase = PaintPhase::Painting { retried: false };
    let mut recreations = 0;
    let events = [
        PaintEvent::OutOfTextureSpace { size: 2048 },
        PaintEvent::AtlasRecreateFailed,
        PaintEvent::AtlasRecreateFailed,
        PaintEvent::AtlasRecreateFailed,
    ];
    let mut last = PaintAction::Ignore;
    for e in events.iter() {
        let (p, a) = next_paint_step(phase, *e);
        if let PaintAction::RecreateAtlas(_) = a {
            recreations += 1;
        }
        phase = p;
        last = a;
    }
    assert_eq!(recreations, 2);
    assert_eq!(phase, PaintPhase::Fatal);
    assert_eq!(last, PaintAction::Ignore);
    let (p, a) = next_paint_step(PaintPhase::Painting { retried: true }, PaintEvent::Painted);
    assert_eq!((p, a), (PaintPhase::Done, PaintAction::Finish));
    let (_, a) = next_paint_step(PaintPhase::Painting { retried: false }, PaintEvent::PaintFailed);
    assert_eq!(a, PaintAction::ReportError);
}

#[test]
fn padding_fills() {
    let pad = WindowPadding { left: 2, top: 3, right: 4, bottom: 5 };
    let r = padding_rects(100, 80, pad, 4, 1, 10);
    assert_eq!(r[0], PixelRect { x: 0, y: 53, width: 100, height: 27 });
    assert_eq!(r[1], PixelRect { x: 0, y: 0, width: 100, height: 3 });
    assert_eq!(r[2], PixelRect { x: 0, y: 3, width: 2, height: 77 });
    assert_eq!(r[3], PixelRect { x: 96, y: 3, width: 4, height: 77 });
}

#[test]
fn sizes_from_window() {
    let pad = WindowPadding { left: 2, top: 3, right: 4, bottom: 5 };
    assert_eq!(
        terminal_size_for_window(86, 72, pad, 8, 16, true),
        TerminalSize { rows: 3, cols: 10, pixel_width: 80, pixel_height: 64 }
    );
    assert_eq!(terminal_size_for_window(3, 3, pad, 8, 16, true).rows, 0);
    assert_eq!(window_size_for_cells(4, 10, pad, 8, 16, true), (86, 88));
    assert_eq!(
        text_cursor_rect(-1, 2, 8, 16, pad),
        PixelRect { x: 2, y: 35, width: 8, height: 16 }
    );
}

#[test]
fn tab_index_wraps() {
    assert_eq!(relative_tab_index(0, -1, 3), Ok(2));
    assert_eq!(relative_tab_index(2, 1, 3), Ok(0));
    assert_eq!(relative_tab_index(1, 0, 3), Ok(1));
    assert_eq!(relative_tab_index(0, -7, 3), Ok(2));
    assert_eq!(relative_tab_index(0, 1, 0), Err(TabError::NoTabs));
}

#[test]
fn window_titles() {
    let title: Vec<char> = "vim".chars().collect();
    assert_eq!(window_title(0, 0, &title), None);
    assert_eq!(window_title(0, 1, &title), Some(title.clone()));
    let t: String = window_title(11, 12, &title).unwrap().into_iter().collect();
    assert_eq!(t, "[12/12] vim");
    let t: String = window_title(0, 3, &title).unwrap().into_iter().collect();
    assert_eq!(t, "[1/3] vim");
}

#[test]
fn font_scale_steps() {
    assert_eq!(adjusted_font_scale(1000, FontSizeChange::Increase), 1100);
    assert_eq!(adjusted_font_scale(1000, FontSizeChange::Decrease), 900);
    assert_eq!(adjusted_font_scale(1234, FontSizeChange::Reset), 1000);
    assert_eq!(adjusted_font_scale(u32::MAX, FontSizeChange::Increase), u32::MAX);
    assert!(scaling_changed(96, 192, 1000, 1000));
    assert!(scaling_changed(96, 96, 1000, 1100));
    assert!(!scaling_changed(96, 96, 1000, 1000));
    assert_eq!(dpi_scale_for(192), 2000);
    assert_eq!(dpi_scale_for(144), 1500);
    assert_eq!(dpi_scale_for(u32::MAX), u32::MAX);
}

#[test]
fn tab_bar_moves_cursor_down() {
    let c = CursorPosition { x: 4, y: 2, shape: CursorShape::Default };
    assert_eq!(screen_cursor(c, true).y, 3);
    assert_eq!(screen_cursor(c, false), c);
    assert_eq!(first_line_offset(true), 1);
    assert_eq!(first_line_offset(false), 0);
}
