use castella_skia_core::color::Color;
use castella_skia_core::{clear_color, fill_paint_color, stroke_paint_color, StateStack};

#[test]
fn fill_paint_takes_fill_color_or_black() {
    assert_eq!(fill_paint_color(Some("#ff0000")), Color::from_rgb(255, 0, 0));
    assert_eq!(fill_paint_color(None), Color::black());
}

#[test]
fn stroke_falls_back_to_fill() {
    assert_eq!(stroke_paint_color(Some("#0000ff"), Some("#00ff00")), Color::from_rgb(0, 0, 255));
    assert_eq!(stroke_paint_color(None, Some("#00ff00")), Color::from_rgb(0, 255, 0));
    assert_eq!(stroke_paint_color(None, None), Color::black());
}

#[test]
fn clear_uses_fill_or_white() {
    assert_eq!(clear_color(Some("#10203040")), Color::from_argb(0x40, 0x10, 0x20, 0x30));
    assert_eq!(clear_color(None), Color::white());
}

#[test]
fn restore_undoes_style_change() {
    let mut s = StateStack::new("style-1".to_string());
    s.save();
    s.set_current("style-2".to_string());
    assert_eq!(s.current(), "style-2");
    assert!(s.restore());
    assert_eq!(s.current(), "style-1");
    assert_eq!(s.depth(), 0);
}

#[test]
fn restore_without_save_keeps_state() {
    let mut s = StateStack::new(1u32);
    s.set_current(2);
    assert!(!s.restore());
    assert_eq!(*s.current(), 2);
}

#[test]
fn nested_saves_restore_in_order() {
    let mut s = StateStack::new(1u32);
    s.save();
    s.set_current(2);
    s.save();
    s.set_current(3);
    assert_eq!(s.depth(), 2);
    s.restore();
    assert_eq!(*s.current(), 2);
    s.restore();
    assert_eq!(*s.current(), 1);
}
