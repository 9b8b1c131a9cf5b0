use term_surface::{
    calculate_modifier_number, csi, csi2, handle_event, ss3, Button, Event, Key, KeyBind,
    Modifiers, NamedKey, Point, Rect, ScrollDelta, State, Status, TermCommand, TermInfo,
    TerminalBox, TerminalScroll,
};

fn mods(shift: bool, alt: bool, ctrl: bool, logo: bool) -> Modifiers {
    Modifiers { shift, alt, ctrl, logo }
}

fn term_info() -> TermInfo {
    TermInfo {
        is_app_cursor: false,
        is_mouse_mode: false,
        cell_width: 10,
        cell_height: 20,
        buffer_width: 800,
        buffer_height: 600,
        line_height: 20,
        scrollbar: None,
        selection_active: false,
    }
}

fn bounds() -> Rect {
    Rect { x: 0, y: 0, width: 1000, height: 700 }
}

fn focused_state() -> State {
    let mut state = State::new();
    state.focus();
    state
}

fn run_key(
    state: &mut State,
    info: &TermInfo,
    key: Key,
    text: Option<char>,
    modifiers: Modifiers,
) -> (Status, Vec<TermCommand>) {
    let mut cfg = TerminalBox::new(Vec::new());
    let event = Event::KeyPressed { key, text, modifiers };
    let r = handle_event(&mut cfg, state, info, &event, bounds(), &None, 0);
    (r.status, r.commands)
}

#[test]
fn modifier_number_formula() {
    for bits in 0u8..16 {
        let m = mods(bits & 1 != 0, bits & 2 != 0, bits & 4 != 0, bits & 8 != 0);
        let expected = 1
            + if m.shift { 1 } else { 0 }
            + if m.alt { 2 } else { 0 }
            + if m.ctrl { 4 } else { 0 }
            + if m.logo { 8 } else { 0 };
        assert_eq!(calculate_modifier_number(&m), expected);
    }
}

#[test]
fn modifier_segment_omitted_only_without_modifiers() {
    // no modifier: no `;` anywhere; with one: `;<mod>` after the code
    assert_eq!(csi(2, b'~', 1).unwrap(), b"\x1B[2~");
    assert_eq!(csi(2, b'~', 5).unwrap(), b"\x1B[2;5~");
    assert_eq!(csi(15, b'~', 1).unwrap(), b"\x1B[15~");
    assert_eq!(csi(15, b'~', 13).unwrap(), b"\x1B[15;13~");
    assert!(!csi(24, b'~', 1).unwrap().contains(&b';'));
}

#[test]
fn arrow_up_differs_between_cursor_modes() {
    // plain press: CSI A in normal mode, SS3 A in application-cursor mode
    assert_eq!(csi2(b'A', 1).unwrap(), b"\x1B[A");
    assert_eq!(ss3(b'A', 1).unwrap(), b"\x1BOA");
    assert_ne!(csi2(b'A', 1).unwrap(), ss3(b'A', 1).unwrap());
    // with a modifier both fall back to the same CSI 1;<mod> form
    assert_eq!(csi2(b'A', 3).unwrap(), b"\x1B[1;3A");
    assert_eq!(ss3(b'A', 3).unwrap(), ss3(b'A', 3).unwrap());
    assert_eq!(csi2(b'A', 3).unwrap(), ss3(b'A', 3).unwrap());
}

#[test]
fn arrow_up_through_handler() {
    let mut state = focused_state();
    let info = term_info();
    let (status, commands) = run_key(
        &mut state,
        &info,
        Key::Named(NamedKey::ArrowUp),
        None,
        mods(false, false, false, false),
    );
    assert_eq!(status, Status::Captured);
    assert_eq!(commands, vec![TermCommand::Input(b"\x1B[A".to_vec())]);

    let mut app_info = term_info();
    app_info.is_app_cursor = true;
    let (_, commands_app) = run_key(
        &mut state,
        &app_info,
        Key::Named(NamedKey::ArrowUp),
        None,
        mods(false, false, false, false),
    );
    assert_eq!(commands_app, vec![TermCommand::Input(b"\x1BOA".to_vec())]);
}

#[test]
fn function_keys_encode() {
    let mut state = focused_state();
    let info = term_info();
    let (_, f1) = run_key(
        &mut state,
        &info,
        Key::Named(NamedKey::F1),
        None,
        mods(false, false, false, false),
    );
    assert_eq!(f1, vec![TermCommand::Input(b"\x1BOP".to_vec())]);
    let (_, f5) = run_key(
        &mut state,
        &info,
        Key::Named(NamedKey::F5),
        None,
        mods(false, false, false, false),
    );
    assert_eq!(f5, vec![TermCommand::Input(b"\x1B[15~".to_vec())]);
    let (_, f12) = run_key(
        &mut state,
        &info,
        Key::Named(NamedKey::F12),
        None,
        mods(false, false, false, false),
    );
    assert_eq!(f12, vec![TermCommand::Input(b"\x1B[24~".to_vec())]);
}

#[test]
fn shift_page_up_scrolls_locally() {
    let mut state = focused_state();
    let info = term_info();
    let (status, commands) = run_key(
        &mut state,
        &info,
        Key::Named(NamedKey::PageUp),
        None,
        mods(true, false, false, false),
    );
    // the scroll happens locally and the event is not consumed
    assert_eq!(commands, vec![TermCommand::Scroll(TerminalScroll::PageUp)]);
    assert_eq!(status, Status::Ignored);
    let (_, home) = run_key(
        &mut state,
        &info,
        Key::Named(NamedKey::Home),
        None,
        mods(true, false, false, false),
    );
    assert_eq!(home, vec![TermCommand::Scroll(TerminalScroll::Top)]);
}

#[test]
fn ctrl_underscore_sends_unit_separator() {
    let mut state = focused_state();
    let info = term_info();
    let (status, commands) = run_key(
        &mut state,
        &info,
        Key::Character('_'),
        Some('_'),
        mods(true, false, true, false),
    );
    assert_eq!(status, Status::Captured);
    assert_eq!(commands, vec![TermCommand::Input(vec![0x1F])]);
}

#[test]
fn alt_a_prefixes_escape() {
    let mut state = focused_state();
    let info = term_info();
    let (status, commands) = run_key(
        &mut state,
        &info,
        Key::Character('a'),
        Some('a'),
        mods(false, true, false, false),
    );
    assert_eq!(status, Status::Captured);
    assert_eq!(commands, vec![TermCommand::Input(vec![0x1B, 0x61])]);
}

#[test]
fn logo_suppresses_character_input() {
    let mut state = focused_state();
    let info = term_info();
    let (status, commands) = run_key(
        &mut state,
        &info,
        Key::Character('a'),
        Some('a'),
        mods(false, false, false, true),
    );
    assert_eq!(status, Status::Ignored);
    assert!(commands.is_empty());
}

#[test]
fn plain_character_passes_through_utf8() {
    let mut state = focused_state();
    let info = term_info();
    let (_, ascii) = run_key(
        &mut state,
        &info,
        Key::Character('q'),
        Some('q'),
        mods(false, false, false, false),
    );
    assert_eq!(ascii, vec![TermCommand::Input(vec![0x71])]);
    let (_, euro) = run_key(
        &mut state,
        &info,
        Key::Character('\u{20AC}'),
        Some('\u{20AC}'),
        mods(false, true, false, false),
    );
    assert_eq!(euro, vec![TermCommand::Input(vec![0x1B, 0xE2, 0x82, 0xAC])]);
}

#[test]
fn ctrl_alone_passes_only_control_characters() {
    let mut state = focused_state();
    let info = term_info();
    let (_, ctrl_a) = run_key(
        &mut state,
        &info,
        Key::Character('a'),
        Some('\u{01}'),
        mods(false, false, true, false),
    );
    assert_eq!(ctrl_a, vec![TermCommand::Input(vec![0x01])]);
    let (status, none) = run_key(
        &mut state,
        &info,
        Key::Character('a'),
        Some('a'),
        mods(false, false, true, false),
    );
    assert!(none.is_empty());
    assert_eq!(status, Status::Ignored);
}

#[test]
fn escape_clears_selection_and_sends_nothing() {
    let mut state = focused_state();
    let mut info = term_info();
    info.selection_active = true;
    let (status, commands) = run_key(
        &mut state,
        &info,
        Key::Named(NamedKey::Escape),
        None,
        mods(false, false, false, false),
    );
    assert_eq!(status, Status::Captured);
    assert_eq!(
        commands,
        vec![TermCommand::ClearSelection, TermCommand::Redraw]
    );
    for c in &commands {
        assert!(!matches!(c, TermCommand::Input(_)));
    }
}

#[test]
fn escape_with_alt_and_no_selection_sends_double_escape() {
    let mut state = focused_state();
    let info = term_info();
    let (status, commands) = run_key(
        &mut state,
        &info,
        Key::Named(NamedKey::Escape),
        None,
        mods(false, true, false, false),
    );
    assert_eq!(status, Status::Captured);
    assert_eq!(commands, vec![TermCommand::Input(vec![0x1B, 0x1B])]);
}

#[test]
fn backspace_enter_tab_legacy_codes() {
    let mut state = focused_state();
    let info = term_info();
    let plain = mods(false, false, false, false);
    let (_, bs) = run_key(&mut state, &info, Key::Named(NamedKey::Backspace), None, plain);
    assert_eq!(bs, vec![TermCommand::Input(vec![0x7F])]);
    let (_, ctrl_bs) = run_key(
        &mut state,
        &info,
        Key::Named(NamedKey::Backspace),
        None,
        mods(false, false, true, false),
    );
    assert_eq!(ctrl_bs, vec![TermCommand::Input(vec![0x08])]);
    let (_, enter) = run_key(&mut state, &info, Key::Named(NamedKey::Enter), None, plain);
    assert_eq!(enter, vec![TermCommand::Input(vec![0x0D])]);
    let (_, tab) = run_key(&mut state, &info, Key::Named(NamedKey::Tab), None, plain);
    assert_eq!(tab, vec![TermCommand::Input(vec![0x09])]);
    let (_, shift_tab) = run_key(
        &mut state,
        &info,
        Key::Named(NamedKey::Tab),
        None,
        mods(true, false, false, false),
    );
    assert_eq!(shift_tab, vec![TermCommand::Input(b"\x1B[Z".to_vec())]);
}

#[test]
fn unfocused_key_press_is_ignored() {
    let mut state = State::new();
    let info = term_info();
    let (status, commands) = run_key(
        &mut state,
        &info,
        Key::Named(NamedKey::Enter),
        None,
        mods(false, false, false, false),
    );
    assert_eq!(status, Status::Ignored);
    assert!(commands.is_empty());
}

#[test]
fn key_binding_takes_precedence() {
    let binds = vec![KeyBind {
        modifiers: mods(false, false, true, false),
        key: Key::Named(NamedKey::Enter),
    }];
    let mut cfg = TerminalBox::new(binds);
    let mut state = focused_state();
    let info = term_info();
    let event = Event::KeyPressed {
        key: Key::Named(NamedKey::Enter),
        text: None,
        modifiers: mods(false, false, true, false),
    };
    let r = handle_event(&mut cfg, &mut state, &info, &event, bounds(), &None, 0);
    assert_eq!(r.status, Status::Captured);
    assert!(r.commands.is_empty());
}

#[test]
fn wheel_lines_scroll_six_per_unit() {
    let mut cfg = TerminalBox::new(Vec::new());
    let mut state = focused_state();
    let info = term_info();
    let event = Event::WheelScrolled(ScrollDelta::Lines(1));
    let cursor = Some(Point { x: 50, y: 50 });
    let r = handle_event(&mut cfg, &mut state, &info, &event, bounds(), &cursor, 0);
    assert_eq!(r.status, Status::Captured);
    assert_eq!(
        r.commands,
        vec![TermCommand::Scroll(TerminalScroll::Delta(6))]
    );
    assert_eq!(state.scroll_pixels, 0);
}

#[test]
fn pixel_scroll_accumulates_to_exactly_one_line() {
    // two sub-line deltas of 30 px sum to exactly one 60-unit line height:
    // the first only accumulates, the second emits one line and leaves
    // nothing over
    let mut cfg = TerminalBox::new(Vec::new());
    let mut state = focused_state();
    let mut info = term_info();
    info.line_height = 60;
    let cursor = Some(Point { x: 50, y: 50 });
    let ev = Event::WheelScrolled(ScrollDelta::Pixels(-30));
    let r1 = handle_event(&mut cfg, &mut state, &info, &ev, bounds(), &cursor, 0);
    assert!(r1.commands.is_empty());
    assert_eq!(state.scroll_pixels, 30);
    let r2 = handle_event(&mut cfg, &mut state, &info, &ev, bounds(), &cursor, 0);
    assert_eq!(
        r2.commands,
        vec![TermCommand::Scroll(TerminalScroll::Delta(-1))]
    );
    assert_eq!(state.scroll_pixels, 0);
}

#[test]
fn pixel_scroll_rechunking_matches() {
    // one delta of 60 px gives the same lines and leftover as two of 30 px
    let mut cfg = TerminalBox::new(Vec::new());
    let info = {
        let mut i = term_info();
        i.line_height = 60;
        i
    };
    let cursor = Some(Point { x: 50, y: 50 });
    let mut one = focused_state();
    let r = handle_event(
        &mut cfg,
        &mut one,
        &info,
        &Event::WheelScrolled(ScrollDelta::Pixels(-60)),
        bounds(),
        &cursor,
        0,
    );
    assert_eq!(
        r.commands,
        vec![TermCommand::Scroll(TerminalScroll::Delta(-1))]
    );
    let mut two = focused_state();
    let mut emitted = Vec::new();
    for _ in 0..2 {
        let r = handle_event(
            &mut cfg,
            &mut two,
            &info,
            &Event::WheelScrolled(ScrollDelta::Pixels(-30)),
            bounds(),
            &cursor,
            0,
        );
        emitted.extend(r.commands);
    }
    assert_eq!(emitted, vec![TermCommand::Scroll(TerminalScroll::Delta(-1))]);
    assert_eq!(one.scroll_pixels, two.scroll_pixels);
}

#[test]
fn mouse_mode_reports_instead_of_gestures() {
    let mut cfg = TerminalBox::new(Vec::new());
    let mut state = State::new();
    let mut info = term_info();
    info.is_mouse_mode = true;
    let cursor = Some(Point { x: 105, y: 47 });
    let r = handle_event(
        &mut cfg,
        &mut state,
        &info,
        &Event::ButtonPressed(Button::Left),
        bounds(),
        &cursor,
        0,
    );
    // cell 10x20: col 10, row 2
    assert_eq!(r.commands, vec![TermCommand::ReportMouse { col: 10, row: 2 }]);
    assert!(state.dragging.is_none());
}
