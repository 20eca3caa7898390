use bootcore::panic_control::{
    render_detailed_report, render_double_panic_marker, PanicController, PanicTier,
};
use bootcore::vga_buffer::{Color, ColorSet, Output, BUFFER_HEIGHT, BUFFER_WIDTH};

#[test]
fn panic_entries_degrade_in_order() {
    let mut controller = PanicController::new();
    assert_eq!(controller.record(), PanicTier::Detailed);
    assert_eq!(controller.record(), PanicTier::BareMarker);
    assert_eq!(controller.record(), PanicTier::Silent);
    assert_eq!(controller.record(), PanicTier::Silent);
    assert_eq!(controller.record(), PanicTier::Silent);
}

#[test]
fn detailed_report_is_styled_white_on_red_from_the_top_left() {
    let mut out = Output::new();
    out.write_str("earlier content");
    out.set_cursor(12, 34);
    assert!(render_detailed_report(&mut out, "oops: it broke"));
    let expected = b"oops: it broke";
    for (i, byte) in expected.iter().enumerate() {
        let cell = out.char_at(i);
        assert_eq!(cell.character, *byte);
        assert_eq!(cell.appearance, ColorSet::new(Color::White, Color::Red));
    }
    assert_eq!(out.cursor(), expected.len());
    // what the report did not overwrite is still there
    assert_eq!(out.char_at(14).character, b't');
}

#[test]
fn detailed_report_refuses_a_message_that_cannot_fit() {
    let mut out = Output::new();
    // a newline once the grid is exactly full, followed by another byte,
    // would land outside the operating bounds
    let mut message = String::new();
    for _ in 0..BUFFER_WIDTH * BUFFER_HEIGHT {
        message.push('a');
    }
    message.push('\n');
    message.push('\n');
    message.push('b');
    assert!(!render_detailed_report(&mut out, &message));
    // the reset itself still happened: cursor at the top-left corner
    assert_eq!(out.cursor(), 0);
}

#[test]
fn double_panic_marker_is_bare_and_unstyled() {
    let mut out = Output::new();
    out.set_style(ColorSet::new(Color::Green, Color::Black));
    out.write_str("xyz");
    assert!(render_double_panic_marker(&mut out));
    let expected = b"double panic";
    for (i, byte) in expected.iter().enumerate() {
        let cell = out.char_at(3 + i);
        assert_eq!(cell.character, *byte);
        // the marker is written with whatever style the console had
        assert_eq!(cell.appearance, ColorSet::new(Color::Green, Color::Black));
    }
    assert_eq!(out.cursor(), 3 + expected.len());
}

#[test]
fn double_panic_marker_refuses_an_out_of_bounds_cursor() {
    let mut out = Output::new();
    out.set_cursor(BUFFER_HEIGHT + 1, 0);
    let p = out.cursor();
    assert!(!render_double_panic_marker(&mut out));
    assert_eq!(out.cursor(), p);
}
