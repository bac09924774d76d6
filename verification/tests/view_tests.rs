use nexacode_core::actions::{Action, Mode};
use nexacode_core::reducer::reduce;
use nexacode_core::reducers::{State, Theme as CoreTheme};
use nexacode_core::theme::{ColorRole, TextLook, Theme};
use nexacode_core::view::{help_panel_lines, help_panel_title, input_line, message_area_lines, Tone};
use ratatui::style::Color;

fn texts(line: &[nexacode_core::view::Span]) -> Vec<String> {
    line.iter().map(|s| s.text.clone()).collect()
}

#[test]
fn empty_chat_shows_the_welcome_line() {
    let state = State::new();
    let lines = message_area_lines(&state);
    assert_eq!(lines.len(), 6);
    assert_eq!(texts(&lines[3]), vec!["  -- ", "INPUT", " --"]);
    assert_eq!(lines[3][1].tone, Tone::Primary);
    assert_eq!(texts(&lines[5]), vec!["  What do you want to build?"]);
}

#[test]
fn messages_show_headings_content_and_search_info() {
    let state = State::new();
    let state = reduce(state, &Action::user_message("one\ntwo"));
    let state = reduce(state, &Action::search("two"));
    let lines = message_area_lines(&state);
    assert_eq!(texts(&lines[5]), vec!["  ◇ ", "You"]);
    assert_eq!(texts(&lines[6]), vec!["    ", "one"]);
    assert_eq!(lines[6][1].tone, Tone::Highlight);
    assert_eq!(texts(&lines[8]), Vec::<String>::new());
    let last = lines.last().unwrap();
    assert_eq!(texts(last), vec!["  🔍 \"", "two", "\" ", "1/1"]);
}

#[test]
fn input_line_shows_the_cursor() {
    let state = State::new();
    assert_eq!(texts(&input_line(&state)), vec!["> ", "█"]);
    let state = reduce(state, &Action::insert_char('a'));
    let state = reduce(state, &Action::insert_char('b'));
    let state = reduce(state, &Action::Input(nexacode_core::actions::InputAction::MoveCursorLeft));
    assert_eq!(texts(&input_line(&state)), vec!["> ", "a█b"]);
    let state = reduce(state, &Action::set_mode(Mode::Normal));
    assert_eq!(texts(&input_line(&state))[0], "  ");
}

#[test]
fn help_panel() {
    let lines = help_panel_lines();
    assert_eq!(lines.len(), 39);
    assert_eq!(texts(&lines[1]), vec!["  MODES"]);
    assert_eq!(help_panel_title(), " Help (press h or ? to close) ");
}

#[test]
fn theme_palette() {
    assert_eq!(Theme::Dark.background(), Color::Rgb(0x0A, 0x0A, 0x0A));
    assert_eq!(Theme::Light.foreground(), Color::Rgb(0x11, 0x18, 0x27));
    assert_eq!(Theme::Dark.primary(), Color::Rgb(0x10, 0xB9, 0x81));
    assert_eq!(Theme::Light.border(), Color::Rgb(0xE5, 0xE7, 0xEB));
    assert_eq!(Theme::default(), Theme::Light);
    assert_eq!(Theme::from(CoreTheme::Dark), Theme::Dark);
}

#[test]
fn theme_styles_name_their_colors() {
    let t = Theme::Dark;
    assert_eq!(t.base_style(), TextLook { fg: Some(ColorRole::Foreground), bg: Some(ColorRole::Background), bold: false });
    assert_eq!(t.title_style(), TextLook { fg: Some(ColorRole::Primary), bg: None, bold: true });
    assert_eq!(t.prompt_style(), t.title_style());
    assert_eq!(t.comment_style(), TextLook { fg: Some(ColorRole::Secondary), bg: None, bold: false });
    assert_eq!(t.rgb(ColorRole::Secondary), 0x6B7280);
}
