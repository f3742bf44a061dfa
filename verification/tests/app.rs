use asconvert::app::{App, Flow, Key, KeyInput, OutputState};
use asconvert::mode::{Mode, Separator};
use asconvert::palette::Palette;

fn key(k: Key) -> KeyInput {
    KeyInput { key: k, ctrl: false, alt: false }
}

fn ctrl(c: char) -> KeyInput {
    KeyInput { key: Key::Char(c), ctrl: true, alt: false }
}

fn typed(app: &mut App, s: &str) {
    for c in s.chars() {
        app.push_char(c);
    }
}

#[test]
fn new_app_starts_empty() {
    let app = App::new();
    assert_eq!(app.mode(), Mode::TextToDecimal);
    assert_eq!(app.input(), "");
    assert_eq!(app.output(), "");
    assert_eq!(app.error(), None);
    assert!(!app.show_help());
    assert!(!app.show_table());
    assert_eq!(app.table_scroll(), 0);
    assert!(app.cursor_visible());
    assert_eq!(app.tick(), 0);
    assert_eq!(app.separator(), Separator::Space);
}

#[test]
fn typing_converts_as_you_go() {
    let mut app = App::new();
    typed(&mut app, "Hi");
    assert_eq!(app.output(), "72 105");
    app.next_mode();
    assert_eq!(app.mode(), Mode::TextToHex);
    assert_eq!(app.output(), "48 69");
}

#[test]
fn separator_cycles_and_reformats() {
    let mut app = App::new();
    typed(&mut app, "ab");
    app.cycle_separator();
    assert_eq!(app.separator(), Separator::Comma);
    assert_eq!(app.output(), "97,98");
    app.cycle_separator();
    assert_eq!(app.separator(), Separator::Newline);
    assert_eq!(app.output(), "97\n98");
    app.cycle_separator();
    assert_eq!(app.separator(), Separator::Space);
    assert_eq!(app.output(), "97 98");
}

#[test]
fn decimal_to_text_error_message() {
    let mut app = App::new();
    app.next_mode();
    app.next_mode();
    assert_eq!(app.mode(), Mode::DecimalToText);
    typed(&mut app, "72 abc");
    assert_eq!(app.error(), Some("Invalid decimal: 'abc'"));
    assert_eq!(app.output(), "");
    app.pop_char();
    app.pop_char();
    app.pop_char();
    assert_eq!(app.error(), None);
    assert_eq!(app.output(), "H");
}

#[test]
fn hex_to_text_error_message() {
    let mut app = App::new();
    app.prev_mode();
    assert_eq!(app.mode(), Mode::HexToText);
    typed(&mut app, "48 zz");
    assert_eq!(app.error(), Some("Invalid hex: 'zz'"));
    assert_eq!(app.output(), "");
}

#[test]
fn pop_on_empty_input_keeps_it_empty() {
    let mut app = App::new();
    app.pop_char();
    assert_eq!(app.input(), "");
    assert_eq!(app.output(), "");
}

#[test]
fn clear_input_empties_everything() {
    let mut app = App::new();
    app.prev_mode();
    typed(&mut app, "zz");
    assert!(app.error().is_some());
    app.clear_input();
    assert_eq!(app.input(), "");
    assert_eq!(app.output(), "");
    assert_eq!(app.error(), None);
    assert_eq!(app.mode(), Mode::HexToText);
}

#[test]
fn delete_word_keeps_through_last_space() {
    let mut app = App::new();
    typed(&mut app, "hello big world  ");
    app.delete_word();
    assert_eq!(app.input(), "hello big ");
    app.delete_word();
    assert_eq!(app.input(), "hello ");
    app.delete_word();
    assert_eq!(app.input(), "");
    assert_eq!(app.output(), "");
    typed(&mut app, "one");
    app.delete_word();
    assert_eq!(app.input(), "");
}

#[test]
fn delete_word_ignores_other_white_space_as_boundary() {
    let mut app = App::new();
    typed(&mut app, "a b\tc\n");
    app.delete_word();
    assert_eq!(app.input(), "a ");
    assert_eq!(app.output(), "97 32");
}

#[test]
fn table_scroll_is_clamped() {
    let mut app = App::new();
    app.table_scroll_down(200);
    assert_eq!(app.table_scroll(), 127);
    app.table_scroll_up(27);
    assert_eq!(app.table_scroll(), 100);
    app.table_scroll_up(500);
    assert_eq!(app.table_scroll(), 0);
    app.table_scroll_down(5);
    assert_eq!(app.table_scroll(), 5);
}

#[test]
fn table_window_fits_scroll() {
    let mut app = App::new();
    app.table_scroll_down(100);
    assert_eq!(app.table_window(20), (16, 16));
    assert_eq!(app.table_scroll(), 16);
    assert_eq!(app.table_window(2), (16, 0));
    assert_eq!(app.table_window(40), (0, 36));
    assert_eq!(app.table_scroll(), 0);
}

#[test]
fn tick_blinks_cursor_every_sixth() {
    let mut app = App::new();
    for _ in 0..5 {
        app.on_tick();
    }
    assert!(app.cursor_visible());
    app.on_tick();
    assert_eq!(app.tick(), 6);
    assert!(!app.cursor_visible());
    for _ in 0..6 {
        app.on_tick();
    }
    assert!(app.cursor_visible());
}

#[test]
fn keys_quit() {
    let mut app = App::new();
    assert_eq!(app.handle_key(ctrl('c')), Flow::Quit);
    assert_eq!(app.handle_key(ctrl('q')), Flow::Quit);
    assert_eq!(app.handle_key(key(Key::Esc)), Flow::Quit);
}

#[test]
fn keys_edit_and_switch() {
    let mut app = App::new();
    assert_eq!(app.handle_key(key(Key::Char('A'))), Flow::Continue);
    app.handle_key(key(Key::Enter));
    assert_eq!(app.input(), "A\n");
    assert_eq!(app.output(), "65 10");
    app.handle_key(key(Key::Backspace));
    assert_eq!(app.input(), "A");
    app.handle_key(key(Key::Tab));
    assert_eq!(app.mode(), Mode::TextToHex);
    app.handle_key(key(Key::Right));
    assert_eq!(app.mode(), Mode::DecimalToText);
    app.handle_key(key(Key::Left));
    app.handle_key(key(Key::BackTab));
    assert_eq!(app.mode(), Mode::TextToDecimal);
    app.handle_key(ctrl('s'));
    assert_eq!(app.separator(), Separator::Comma);
    app.handle_key(ctrl('x'));
    assert_eq!(app.input(), "A");
    app.handle_key(ctrl('l'));
    assert_eq!(app.input(), "");
    app.handle_key(key(Key::Char('z')));
    app.handle_key(key(Key::Delete));
    assert_eq!(app.input(), "");
}

#[test]
fn keys_ctrl_w_deletes_word() {
    let mut app = App::new();
    typed(&mut app, "ab cd");
    app.handle_key(ctrl('w'));
    assert_eq!(app.input(), "ab ");
}

#[test]
fn keys_popups() {
    let mut app = App::new();
    app.handle_key(key(Key::F(1)));
    assert!(app.show_help());
    app.handle_key(key(Key::F(2)));
    assert!(app.show_table());
    assert!(!app.show_help());
    app.handle_key(key(Key::Char('j')));
    app.handle_key(key(Key::Down));
    assert_eq!(app.table_scroll(), 2);
    assert_eq!(app.input(), "");
    app.handle_key(key(Key::PageDown));
    assert_eq!(app.table_scroll(), 12);
    app.handle_key(key(Key::Char('k')));
    app.handle_key(key(Key::Up));
    assert_eq!(app.table_scroll(), 10);
    app.handle_key(key(Key::PageUp));
    assert_eq!(app.table_scroll(), 0);
    app.handle_key(key(Key::End));
    assert_eq!(app.table_scroll(), 127);
    app.handle_key(key(Key::Home));
    assert_eq!(app.table_scroll(), 0);
    app.handle_key(key(Key::Char('x')));
    assert_eq!(app.input(), "x");
    assert_eq!(app.handle_key(key(Key::Esc)), Flow::Continue);
    assert!(!app.show_table());
    app.handle_key(key(Key::F(2)));
    app.handle_key(key(Key::F(2)));
    assert!(!app.show_table());
    app.handle_key(key(Key::F(1)));
    assert_eq!(app.handle_key(key(Key::Esc)), Flow::Continue);
    assert!(!app.show_help());
    app.handle_key(key(Key::Char('j')));
    assert_eq!(app.input(), "xj");
}

#[test]
fn input_box_text() {
    let mut app = App::new();
    assert_eq!(app.input_text(), "  Type any text…");
    typed(&mut app, "hé");
    assert_eq!(app.input_text(), "hé▌");
    assert_eq!(app.input_counter(), " 2 chars ");
    for _ in 0..6 {
        app.on_tick();
    }
    assert_eq!(app.input_text(), "hé ");
    assert_eq!(app.separator_tag(), " sep:Space ");
    app.clear_input();
    app.next_mode();
    app.next_mode();
    assert_eq!(app.input_text(), "  e.g.  72 101 108  or  72,101,108");
}

#[test]
fn output_panel_states() {
    let mut app = App::new();
    let p = app.output_panel();
    assert_eq!(p.state, OutputState::Empty);
    assert_eq!(p.border, Palette::Border);
    assert_eq!(p.title_background, Palette::BorderLight);
    assert_eq!(p.title, " OUTPUT ");
    assert_eq!(p.counter, "");
    assert_eq!(p.body, "  Output will appear here…");
    typed(&mut app, "Hi");
    let p = app.output_panel();
    assert_eq!(p.state, OutputState::Filled);
    assert_eq!(p.border, Palette::Mint);
    assert_eq!(p.counter, " 6 chars ");
    assert_eq!(p.body, "72 105");
    app.clear_input();
    app.prev_mode();
    typed(&mut app, "q");
    let p = app.output_panel();
    assert_eq!(p.state, OutputState::Error);
    assert_eq!(p.border, Palette::Coral);
    assert_eq!(p.title, " ERROR ");
    assert_eq!(p.counter, "");
    assert_eq!(p.body, "✕  Invalid hex: 'q'");
}

#[test]
fn law_push_then_pop_restores() {
    let mut app = App::new();
    typed(&mut app, "12 x");
    app.next_mode();
    app.next_mode();
    let before = (app.input().to_string(), app.output().to_string(), app.error().map(|s| s.to_string()));
    app.push_char('9');
    app.pop_char();
    let after = (app.input().to_string(), app.output().to_string(), app.error().map(|s| s.to_string()));
    assert_eq!(before, after);
}

#[test]
fn law_next_then_prev_restores() {
    let mut app = App::new();
    typed(&mut app, "7");
    for _ in 0..4 {
        let before = (app.mode(), app.output().to_string(), app.error().map(|s| s.to_string()));
        app.next_mode();
        app.prev_mode();
        let after = (app.mode(), app.output().to_string(), app.error().map(|s| s.to_string()));
        assert_eq!(before, after);
        app.next_mode();
    }
}

#[test]
fn law_converter_round_trip_in_app() {
    let mut app = App::new();
    typed(&mut app, "Verus!");
    let codes = app.output().to_string();
    app.clear_input();
    app.next_mode();
    app.next_mode();
    typed(&mut app, &codes);
    assert_eq!(app.output(), "Verus!");
    assert_eq!(app.error(), None);
}

#[test]
fn keys_alt_s_cycles_separator() {
    let mut app = App::new();
    typed(&mut app, "ab");
    let flow = app.handle_key(KeyInput { key: Key::Char('s'), ctrl: false, alt: true });
    assert_eq!(flow, Flow::Continue);
    assert_eq!(app.separator(), Separator::Comma);
    assert_eq!(app.input(), "ab");
    assert_eq!(app.output(), "97,98");
    app.handle_key(KeyInput { key: Key::Char('s'), ctrl: false, alt: false });
    assert_eq!(app.input(), "abs");
}

#[test]
fn output_counter_counts_characters() {
    let mut app = App::new();
    app.prev_mode();
    typed(&mut app, "E9 41");
    assert_eq!(app.output(), "\u{e9}A");
    assert_eq!(app.output_panel().counter, " 2 chars ");
}
