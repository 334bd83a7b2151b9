use otp_fill::clock::{Timestamp, SECOND};
use otp_fill::floating_window::{Frame, VerificationCodeApp};
use otp_fill::palette::{card_colors, close_button_color, Rgba};

fn window(code: &str) -> VerificationCodeApp {
    VerificationCodeApp::new(code.to_string(), "iMessage".to_string(), Timestamp { nanos: 5 })
}

#[test]
fn spaces_out_four_to_eight_digits() {
    assert_eq!(window("1234").formatted_code(), "1 2 3 4");
    assert_eq!(window("123456").formatted_code(), "1 2 3 4 5 6");
    assert_eq!(window("12345678").formatted_code(), "1 2 3 4 5 6 7 8");
    assert_eq!(window("123").formatted_code(), "123");
    assert_eq!(window("123456789").formatted_code(), "123456789");
    assert_eq!(window("12a4").formatted_code(), "12a4");
    assert_eq!(window("\u{0661}\u{0662}\u{0663}\u{0664}").formatted_code(), "\u{0661}\u{0662}\u{0663}\u{0664}");
    assert_eq!(window("").formatted_code(), "");
}

#[test]
fn closes_after_ten_minutes() {
    let app = window("1234");
    assert_eq!(app.update(Timestamp { nanos: 0 }), Frame::Draw);
    assert_eq!(app.update(Timestamp { nanos: 5 + 600 * SECOND }), Frame::Draw);
    assert_eq!(app.update(Timestamp { nanos: 6 + 600 * SECOND }), Frame::Close);
}

#[test]
fn closes_after_a_click() {
    for (setting, enter) in [(None, false), (Some(false), false), (Some(true), true)] {
        let mut app = window("1234");
        assert_eq!(app.clicked(setting), enter);
        assert_eq!(app.update(Timestamp { nanos: 5 }), Frame::Close);
        assert_eq!(app.code(), "1234");
        assert_eq!(app.source(), "iMessage");
    }
}

#[test]
fn shows_the_pointer_until_the_button_goes_down() {
    for (dark, rest, raised) in [(true, 0x3c, 0x45), (false, 0xe6, 0xd8)] {
        let grey = |l: u8| Rgba { r: l, g: l, b: l, a: 255 };
        assert_eq!(card_colors(dark, false, false).fill, grey(rest));
        assert_eq!(card_colors(dark, false, true).fill, grey(raised));
        assert_eq!(card_colors(dark, true, true).fill, grey(rest));
        assert_eq!(card_colors(dark, true, false).fill, grey(rest));
    }
    assert_eq!(card_colors(true, false, false).code, Rgba { r: 255, g: 255, b: 255, a: 255 });
    assert_eq!(card_colors(false, false, false).hint, Rgba { r: 90, g: 90, b: 90, a: 180 });
    assert_eq!(card_colors(false, false, false).source, Rgba { r: 78, g: 78, b: 78, a: 150 });
    assert_eq!(close_button_color(true), Rgba { r: 220, g: 90, b: 80, a: 255 });
    assert_eq!(close_button_color(false), Rgba { r: 237, g: 106, b: 94, a: 255 });
}

#[test]
fn a_click_fills_in_before_it_presses_enter() {
    for code in ["1234", "a b", ""] {
        let app = window(code);
        let paste = format!("Paste({:?})", code);
        assert_eq!(format!("{:?}", app.click_steps(None)), format!("[{}]", paste));
        assert_eq!(format!("{:?}", app.click_steps(Some(false))), format!("[{}]", paste));
        assert_eq!(
            format!("{:?}", app.click_steps(Some(true))),
            format!("[{}, PressEnter]", paste)
        );
    }
}

#[test]
fn showing_puts_blanks_in_once() {
    for code in ["1234", "12345678", "1 2 3", "12 4", "abc def", " ", ""] {
        let shown = window(code).formatted_code();
        assert_eq!(shown.replace(' ', ""), code.replace(' ', ""));
        assert_eq!(window(&shown).formatted_code(), shown);
    }
}
