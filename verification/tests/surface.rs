use term_surface::{
    content_height, handle_event, mouse_interaction, render, shade, Button, CursorInfo,
    CursorShape, DrawCommand, Dragging, Event, Frame, Glyph, HostNotice, LayoutRun, Metadata,
    MetadataRegistry, Modifiers, MouseInteraction, Point, Rect, Rgba, ScrollbarTheme,
    SelectionKind, Side, State, Status, TermCommand, TermInfo, TerminalBox,
};

fn term_info() -> TermInfo {
    TermInfo {
        is_app_cursor: false,
        is_mouse_mode: false,
        cell_width: 10,
        cell_height: 20,
        buffer_width: 800,
        buffer_height: 600,
        line_height: 20,
        scrollbar: Some(200000),
        selection_active: false,
    }
}

fn bounds() -> Rect {
    Rect { x: 0, y: 0, width: 1000, height: 700 }
}

fn rgba(r: u8, g: u8, b: u8) -> Rgba {
    Rgba { r, g, b, a: 255 }
}

#[test]
fn interning_deduplicates() {
    let mut registry = MetadataRegistry::new();
    let a = Metadata::new(rgba(10, 20, 30), rgba(0, 0, 0));
    let b = Metadata::new(rgba(99, 20, 30), rgba(0, 0, 0));
    let ha1 = registry.intern(a);
    let hb = registry.intern(b);
    let ha2 = registry.intern(a);
    assert_eq!(ha1, ha2);
    assert_ne!(ha1, hb);
    assert_eq!(registry.len(), 2);
    assert_eq!(registry.resolve(ha1), a);
    assert_eq!(registry.resolve(hb), b);
}

#[test]
fn interning_is_stable_across_growth() {
    let mut registry = MetadataRegistry::new();
    let first = Metadata::new(rgba(1, 1, 1), rgba(0, 0, 0));
    let h = registry.intern(first);
    for i in 0..50u8 {
        registry.intern(Metadata::new(rgba(i, 2, 3), rgba(4, 5, 6)).with_flags(1));
    }
    assert_eq!(registry.intern(first), h);
    assert_eq!(registry.resolve(h), first);
}

#[test]
fn metadata_builders() {
    let m = Metadata::new(rgba(1, 2, 3), rgba(4, 5, 6))
        .with_underline_color(rgba(7, 8, 9))
        .with_flags(0x21);
    assert_eq!(m.bg, rgba(1, 2, 3));
    assert_eq!(m.underline_color, rgba(7, 8, 9));
    assert_eq!(m.flags, 0x21);
}

#[test]
fn shade_dims_unfocused_colors() {
    let c = Rgba { r: 100, g: 200, b: 50, a: 210 };
    assert_eq!(shade(c, true), c);
    let dimmed = shade(c, false);
    assert_eq!(dimmed, Rgba { r: 92, g: 184, b: 46, a: 210 });
}

#[test]
fn triple_click_cycle() {
    let mut cfg = TerminalBox::new(Vec::new());
    let mut state = State::new();
    let info = term_info();
    let cursor = Some(Point { x: 55, y: 45 });
    let press = Event::ButtonPressed(Button::Left);
    let release = Event::ButtonReleased(Button::Left);
    let mut kinds = Vec::new();
    let times = [0u64, 100, 200, 300, 1500];
    for now in times {
        let r = handle_event(&mut cfg, &mut state, &info, &press, bounds(), &cursor, now);
        assert_eq!(r.status, Status::Captured);
        for c in r.commands {
            if let TermCommand::StartSelection { kind, .. } = c {
                kinds.push(kind);
            }
        }
        handle_event(&mut cfg, &mut state, &info, &release, bounds(), &cursor, now);
    }
    assert_eq!(
        kinds,
        vec![
            SelectionKind::Simple,
            SelectionKind::Semantic,
            SelectionKind::Lines,
            SelectionKind::Simple,  // a fourth within-window press wraps around
            SelectionKind::Simple,  // a press after the window resets
        ]
    );
}

#[test]
fn selection_press_computes_cell_and_side() {
    let mut cfg = TerminalBox::new(Vec::new());
    let mut state = State::new();
    let info = term_info();
    // x = 53 -> col 5, left half (3 < 5); y = 45 -> row 2
    let cursor = Some(Point { x: 53, y: 45 });
    let r = handle_event(
        &mut cfg,
        &mut state,
        &info,
        &Event::ButtonPressed(Button::Left),
        bounds(),
        &cursor,
        0,
    );
    assert_eq!(
        r.commands,
        vec![
            TermCommand::StartSelection {
                kind: SelectionKind::Simple,
                row: 2,
                col: 5,
                side: Side::Left,
            },
            TermCommand::Redraw,
        ]
    );
    assert!(state.is_focused());
    assert_eq!(state.dragging, Some(Dragging::Buffer));
}

#[test]
fn press_on_thumb_starts_scrollbar_drag_and_move_is_linear() {
    let mut cfg = TerminalBox::new(Vec::new());
    let mut state = State::new();
    let mut info = term_info();
    info.buffer_width = 100;  // keep the press out of the text area
    info.buffer_height = 600;
    state.scrollbar_rect = Rect { x: 100, y: 100, width: 8, height: 60 };
    let cursor = Some(Point { x: 104, y: 120 });
    let r = handle_event(
        &mut cfg,
        &mut state,
        &info,
        &Event::ButtonPressed(Button::Left),
        bounds(),
        &cursor,
        0,
    );
    assert_eq!(r.status, Status::Captured);
    assert!(r.commands.is_empty());
    assert_eq!(
        state.dragging,
        Some(Dragging::Scrollbar { start_y: 120, start_scroll: 200000 })
    );
    // moving 60 px down over 600 px of content adds a tenth of a turn
    let move_cursor = Some(Point { x: 104, y: 180 });
    let r2 = handle_event(
        &mut cfg,
        &mut state,
        &info,
        &Event::CursorMoved,
        bounds(),
        &move_cursor,
        0,
    );
    assert_eq!(r2.status, Status::Captured);
    assert_eq!(r2.commands, vec![TermCommand::ScrollTo(300000)]);
    // releasing ends the drag
    handle_event(
        &mut cfg,
        &mut state,
        &info,
        &Event::ButtonReleased(Button::Left),
        bounds(),
        &move_cursor,
        0,
    );
    assert!(state.dragging.is_none());
}

#[test]
fn track_press_jumps_proportionally() {
    let mut cfg = TerminalBox::new(Vec::new());
    let mut state = State::new();
    let mut info = term_info();
    info.buffer_width = 100;
    info.buffer_height = 600;
    state.scrollbar_rect = Rect { x: 100, y: 100, width: 8, height: 60 };
    // in the track column but off the thumb
    let cursor = Some(Point { x: 104, y: 300 });
    let r = handle_event(
        &mut cfg,
        &mut state,
        &info,
        &Event::ButtonPressed(Button::Left),
        bounds(),
        &cursor,
        0,
    );
    assert_eq!(r.commands, vec![TermCommand::ScrollTo(500000)]);
    assert_eq!(
        state.dragging,
        Some(Dragging::Scrollbar { start_y: 300, start_scroll: 500000 })
    );
}

#[test]
fn drag_extends_selection() {
    let mut cfg = TerminalBox::new(Vec::new());
    let mut state = State::new();
    let info = term_info();
    let cursor = Some(Point { x: 53, y: 45 });
    handle_event(
        &mut cfg,
        &mut state,
        &info,
        &Event::ButtonPressed(Button::Left),
        bounds(),
        &cursor,
        0,
    );
    let move_cursor = Some(Point { x: 118, y: 65 });
    let r = handle_event(
        &mut cfg,
        &mut state,
        &info,
        &Event::CursorMoved,
        bounds(),
        &move_cursor,
        0,
    );
    assert_eq!(
        r.commands,
        vec![
            TermCommand::UpdateSelection { row: 3, col: 11, side: Side::Right },
            TermCommand::Redraw,
        ]
    );
}

fn frame(registry: &mut MetadataRegistry) -> (Frame, usize) {
    let default = registry.intern(Metadata::new(rgba(0, 0, 0), rgba(0, 0, 0)));
    let f = Frame {
        runs: Vec::new(),
        default_metadata: default,
        line_height: 20,
        cell_width: 10,
        cell_height: 20,
        viewport_w: 500,
        viewport_h: 400,
        bounds_w: 500,
        bounds_h: 400,
        scrollbar: None,
        theme: ScrollbarTheme {
            width: 8,
            base: rgba(128, 128, 128),
            hover: rgba(160, 160, 160),
            pressed: rgba(200, 200, 200),
        },
        cursor: CursorInfo { col: 3, line: 2, shape: CursorShape::Beam, color: rgba(255, 255, 255) },
        pointer: None,
    };
    (f, default)
}

#[test]
fn zero_sized_viewport_draws_nothing() {
    let mut registry = MetadataRegistry::new();
    let (mut f, _) = frame(&mut registry);
    f.viewport_w = 4;  // smaller than the scrollbar track
    let cfg = TerminalBox::new(Vec::new());
    let mut state = State::new();
    let cmds = render(&cfg, &mut state, &registry, &f);
    assert!(cmds.is_empty());
}

#[test]
fn background_comes_first_and_dims_when_unfocused() {
    let mut registry = MetadataRegistry::new();
    let default = registry.intern(Metadata::new(rgba(100, 200, 50), rgba(0, 0, 0)));
    let (mut f, _) = frame(&mut MetadataRegistry::new());
    f.default_metadata = default;
    let cfg = TerminalBox::new(Vec::new());
    let mut state = State::new();
    let cmds = render(&cfg, &mut state, &registry, &f);
    match cmds[0] {
        DrawCommand::Background { w, h, color, .. } => {
            assert_eq!((w, h), (500, 400));
            assert_eq!(color, Rgba { r: 92, g: 184, b: 46, a: 255 });
        }
        _ => panic!("expected the background first"),
    }
}

#[test]
fn scrollbar_rect_is_cached_for_events() {
    let mut registry = MetadataRegistry::new();
    let (mut f, _) = frame(&mut registry);
    f.scrollbar = Some((250000, 500000));
    let cfg = TerminalBox::new(Vec::new());
    let mut state = State::new();
    let cmds = render(&cfg, &mut state, &registry, &f);
    // view is 500 - 8 = 492 wide, 400 tall
    assert_eq!(
        state.scrollbar_rect,
        Rect { x: 492, y: 100, width: 8, height: 100 }
    );
    // idle: thumb drawn at half width, centered in the track
    let thumb = cmds
        .iter()
        .find_map(|c| match c {
            DrawCommand::Rounded { x, y, w, h, color, .. } => Some((*x, *y, *w, *h, *color)),
            _ => None,
        })
        .expect("a scrollbar thumb");
    assert_eq!(thumb, (494, 100, 4, 100, rgba(128, 128, 128)));
}

#[test]
fn scrollbar_cleared_when_content_fits() {
    let mut registry = MetadataRegistry::new();
    let (f, _) = frame(&mut registry);
    let cfg = TerminalBox::new(Vec::new());
    let mut state = State::new();
    state.scrollbar_rect = Rect { x: 1, y: 2, width: 3, height: 4 };
    render(&cfg, &mut state, &registry, &f);
    assert_eq!(state.scrollbar_rect, Rect { x: 0, y: 0, width: 0, height: 0 });
}

#[test]
fn beam_cursor_is_one_unit_bar() {
    let mut registry = MetadataRegistry::new();
    let (f, _) = frame(&mut registry);
    let cfg = TerminalBox::new(Vec::new());
    let mut state = State::new();
    let cmds = render(&cfg, &mut state, &registry, &f);
    let last = cmds.last().unwrap();
    assert_eq!(
        *last,
        DrawCommand::Quad { x: 30, y: 40, w: 1, h: 20, color: rgba(255, 255, 255) }
    );
}

#[test]
fn block_cursor_is_not_painted_here() {
    let mut registry = MetadataRegistry::new();
    let (mut f, _) = frame(&mut registry);
    f.cursor.shape = CursorShape::Block;
    let cfg = TerminalBox::new(Vec::new());
    let mut state = State::new();
    let cmds = render(&cfg, &mut state, &registry, &f);
    assert!(matches!(cmds.last().unwrap(), DrawCommand::Text { .. }));
}

#[test]
fn underline_decoration_is_emitted() {
    let mut registry = MetadataRegistry::new();
    let default = registry.intern(Metadata::new(rgba(0, 0, 0), rgba(0, 0, 0)));
    let underlined = registry.intern(
        Metadata::new(rgba(0, 0, 0), rgba(250, 40, 40)).with_flags(term_surface::FLAG_UNDERLINE),
    );
    let run = LayoutRun {
        line_top: 0,
        glyphs: vec![
            Glyph { x: 0, w: 10, metadata: underlined, font_size: 140 },
            Glyph { x: 10, w: 10, metadata: underlined, font_size: 140 },
        ],
    };
    let (mut f, _) = frame(&mut MetadataRegistry::new());
    f.default_metadata = default;
    f.runs = vec![run];
    let cfg = TerminalBox::new(Vec::new());
    let mut state = State::new();
    let cmds = render(&cfg, &mut state, &registry, &f);
    // style thickness: 140 / 10 = 14; underline hangs 2 * 14 below the
    // line's bottom edge (y = 20 - 28 = -8), spanning the coalesced span
    assert!(cmds.contains(&DrawCommand::Quad {
        x: 0,
        y: -8,
        w: 20,
        h: 14,
        color: rgba(250, 40, 40),
    }));
}

#[test]
fn modifiers_changed_updates_state() {
    let mut cfg = TerminalBox::new(Vec::new());
    let mut state = State::new();
    let info = term_info();
    let m = Modifiers { shift: true, alt: false, ctrl: true, logo: false };
    let r = handle_event(
        &mut cfg,
        &mut state,
        &info,
        &Event::ModifiersChanged(m),
        bounds(),
        &None,
        0,
    );
    assert_eq!(r.status, Status::Ignored);
    assert_eq!(state.modifiers, m);
}

#[test]
fn middle_click_and_context_menu_notices() {
    let mut cfg = TerminalBox::new(Vec::new()).on_middle_click().on_context_menu();
    let mut state = State::new();
    let info = term_info();
    let cursor = Some(Point { x: 55, y: 45 });
    let r = handle_event(
        &mut cfg,
        &mut state,
        &info,
        &Event::ButtonPressed(Button::Middle),
        bounds(),
        &cursor,
        0,
    );
    assert_eq!(
        r.notices,
        vec![HostNotice::MiddleClick, HostNotice::ContextMenuClose]
    );
    let r2 = handle_event(
        &mut cfg,
        &mut state,
        &info,
        &Event::ButtonPressed(Button::Right),
        bounds(),
        &cursor,
        0,
    );
    assert_eq!(
        r2.notices,
        vec![HostNotice::ContextMenuOpen(Point { x: 55, y: 45 })]
    );
    // with a menu already open, any press asks to close it
    let mut open_cfg = TerminalBox::new(Vec::new())
        .on_context_menu()
        .context_menu(Point { x: 1, y: 1 });
    let r3 = handle_event(
        &mut open_cfg,
        &mut state,
        &info,
        &Event::ButtonPressed(Button::Right),
        bounds(),
        &cursor,
        0,
    );
    assert_eq!(r3.notices, vec![HostNotice::ContextMenuClose]);
}

#[test]
fn mouse_enter_fires_on_crossing_in() {
    let mut cfg = TerminalBox::new(Vec::new()).on_mouse_enter();
    let state = State::new();
    let info = term_info();
    let outside = Some(Point { x: 5000, y: 5000 });
    let inside = Some(Point { x: 10, y: 10 });
    let r1 = handle_event(&mut cfg, &mut state.clone(), &info, &Event::CursorMoved, bounds(), &outside, 0);
    assert!(r1.notices.is_empty());
    assert_eq!(cfg.mouse_inside_boundary, Some(false));
    let mut st = State::new();
    let r2 = handle_event(&mut cfg, &mut st, &info, &Event::CursorMoved, bounds(), &inside, 0);
    assert_eq!(r2.notices, vec![HostNotice::MouseEnter]);
    assert_eq!(cfg.mouse_inside_boundary, Some(true));
}

#[test]
fn pointer_cursor_over_text_area() {
    let cfg = TerminalBox::new(Vec::new());
    let mut state = State::new();
    let info = term_info();
    let inside = Some(Point { x: 10, y: 10 });
    assert_eq!(
        mouse_interaction(&cfg, &state, &info, bounds(), &inside),
        MouseInteraction::Text
    );
    let past_text = Some(Point { x: 900, y: 10 });
    assert_eq!(
        mouse_interaction(&cfg, &state, &info, bounds(), &past_text),
        MouseInteraction::Idle
    );
    state.dragging = Some(Dragging::Scrollbar { start_y: 0, start_scroll: 0 });
    assert_eq!(
        mouse_interaction(&cfg, &state, &info, bounds(), &inside),
        MouseInteraction::Idle
    );
}

#[test]
fn content_height_is_lines_times_line_height() {
    assert_eq!(content_height(0, 20), 0);
    assert_eq!(content_height(37, 18), 666);
}

#[test]
fn dotted_pattern_tiles_from_absolute_x() {
    let mut registry = MetadataRegistry::new();
    let default = registry.intern(Metadata::new(rgba(0, 0, 0), rgba(0, 0, 0)));
    let dotted = registry.intern(
        Metadata::new(rgba(0, 0, 0), rgba(9, 9, 9)).with_flags(term_surface::FLAG_DOTTED_UNDERLINE),
    );
    // span [3, 11): the two-on/two-off pattern is phase-aligned to x = 0,
    // so dots cover [0,2), [4,6), [8,10) in absolute coordinates; cropped to
    // the span that leaves [4,6) and [8,10)
    let run = LayoutRun {
        line_top: 0,
        glyphs: vec![Glyph { x: 3, w: 8, metadata: dotted, font_size: 140 }],
    };
    let (mut f, _) = frame(&mut MetadataRegistry::new());
    f.default_metadata = default;
    f.runs = vec![run];
    let cfg = TerminalBox::new(Vec::new());
    let mut state = State::new();
    let cmds = render(&cfg, &mut state, &registry, &f);
    let dots: Vec<(i64, i64, i64, i64)> = cmds
        .iter()
        .filter_map(|c| match c {
            DrawCommand::Quad { x, y, w, h, color } if *color == rgba(9, 9, 9) => {
                Some((*x, *y, *w, *h))
            }
            _ => None,
        })
        .collect();
    // thickness 14, hung 28 below the bottom edge of the 20-unit line
    assert_eq!(dots, vec![(4, -8, 2, 14), (8, -8, 2, 14)]);
}

#[test]
fn strikeout_and_double_underline_geometry() {
    let mut registry = MetadataRegistry::new();
    let default = registry.intern(Metadata::new(rgba(0, 0, 0), rgba(0, 0, 0)));
    let struck = registry.intern(
        Metadata::new(rgba(0, 0, 0), rgba(1, 2, 3))
            .with_flags(term_surface::FLAG_STRIKEOUT | term_surface::FLAG_DOUBLE_UNDERLINE),
    );
    let run = LayoutRun {
        line_top: 40,
        glyphs: vec![Glyph { x: 0, w: 30, metadata: struck, font_size: 40 }],
    };
    let (mut f, _) = frame(&mut MetadataRegistry::new());
    f.default_metadata = default;
    f.runs = vec![run];
    let cfg = TerminalBox::new(Vec::new());
    let mut state = State::new();
    let cmds = render(&cfg, &mut state, &registry, &f);
    // thickness for font size 40 is 4; the strikeout sits at mid-cell:
    // y = 40 + 20 - (20 - 4) / 2 = 52
    assert!(cmds.contains(&DrawCommand::Quad { x: 0, y: 52, w: 30, h: 4, color: rgba(1, 2, 3) }));
    // double underline: half thickness 2, gap 2, offset (2 + 2) * 2 = 8:
    // lines at y = 60 - 8 = 52 and y = 60 - 4 = 56, each 2 thick
    assert!(cmds.contains(&DrawCommand::Quad { x: 0, y: 52, w: 30, h: 2, color: rgba(1, 2, 3) }));
    assert!(cmds.contains(&DrawCommand::Quad { x: 0, y: 56, w: 30, h: 2, color: rgba(1, 2, 3) }));
}

#[test]
fn changed_background_is_filled_per_span() {
    let mut registry = MetadataRegistry::new();
    let default = registry.intern(Metadata::new(rgba(0, 0, 0), rgba(0, 0, 0)));
    let highlighted = registry.intern(Metadata::new(rgba(60, 60, 120), rgba(0, 0, 0)));
    let run = LayoutRun {
        line_top: 20,
        glyphs: vec![
            Glyph { x: 0, w: 10, metadata: default, font_size: 140 },
            Glyph { x: 10, w: 10, metadata: highlighted, font_size: 140 },
            Glyph { x: 20, w: 10, metadata: highlighted, font_size: 140 },
        ],
    };
    let (mut f, _) = frame(&mut MetadataRegistry::new());
    f.default_metadata = default;
    f.runs = vec![run];
    let cfg = TerminalBox::new(Vec::new());
    let mut state = State::new();
    state.focus();
    let cmds = render(&cfg, &mut state, &registry, &f);
    // the two highlighted glyphs coalesce into one full-height fill
    assert!(cmds.contains(&DrawCommand::Quad {
        x: 10,
        y: 20,
        w: 20,
        h: 20,
        color: rgba(60, 60, 120),
    }));
    // and the default-background glyph adds no fill of its own
    let fills = cmds
        .iter()
        .filter(|c| matches!(c, DrawCommand::Quad { color, .. } if *color == rgba(60, 60, 120)))
        .count();
    assert_eq!(fills, 1);
}

#[test]
fn pattern_stays_phase_aligned_across_span_boundaries() {
    // the same dotted line drawn as two adjacent spans and as one combined
    // span covers exactly the same columns: the pattern phase follows the
    // absolute coordinate instead of restarting at the boundary
    fn covered_columns(cmds: &[DrawCommand], color: Rgba) -> Vec<i64> {
        let mut cols = Vec::new();
        for c in cmds {
            if let DrawCommand::Quad { x, w, color: qc, .. } = c {
                if *qc == color {
                    for xx in *x..*x + *w {
                        cols.push(xx);
                    }
                }
            }
        }
        cols.sort();
        cols
    }
    let deco = rgba(9, 9, 9);
    let cfg = TerminalBox::new(Vec::new());

    let mut reg_two = MetadataRegistry::new();
    let default_two = reg_two.intern(Metadata::new(rgba(0, 0, 0), rgba(0, 0, 0)));
    let left = reg_two.intern(
        Metadata::new(rgba(0, 0, 0), deco).with_flags(term_surface::FLAG_DOTTED_UNDERLINE),
    );
    let right = reg_two.intern(
        Metadata::new(rgba(1, 1, 1), deco).with_flags(term_surface::FLAG_DOTTED_UNDERLINE),
    );
    let (mut f_two, _) = frame(&mut MetadataRegistry::new());
    f_two.default_metadata = default_two;
    f_two.runs = vec![LayoutRun {
        line_top: 0,
        glyphs: vec![
            Glyph { x: 3, w: 4, metadata: left, font_size: 140 },
            Glyph { x: 7, w: 4, metadata: right, font_size: 140 },
        ],
    }];
    let mut state = State::new();
    let two = render(&cfg, &mut state, &reg_two, &f_two);

    let mut reg_one = MetadataRegistry::new();
    let default_one = reg_one.intern(Metadata::new(rgba(0, 0, 0), rgba(0, 0, 0)));
    let whole = reg_one.intern(
        Metadata::new(rgba(0, 0, 0), deco).with_flags(term_surface::FLAG_DOTTED_UNDERLINE),
    );
    let (mut f_one, _) = frame(&mut MetadataRegistry::new());
    f_one.default_metadata = default_one;
    f_one.runs = vec![LayoutRun {
        line_top: 0,
        glyphs: vec![Glyph { x: 3, w: 8, metadata: whole, font_size: 140 }],
    }];
    let one = render(&cfg, &mut state, &reg_one, &f_one);

    assert_eq!(
        covered_columns(&two, deco),
        covered_columns(&one, deco),
        "two: {:?} one: {:?}",
        two,
        one
    );
    assert_eq!(covered_columns(&one, deco), vec![4, 5, 8, 9]);
}
