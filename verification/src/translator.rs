//! The input translator and event handler: a pure mapping from host UI
//! events, widget state and terminal mode flags to pty byte sequences, local
//! terminal commands and host notices.
//!
//! The terminal-state engine (grid, selection, scrollback, pty) is an
//! external collaborator: this module never touches it directly. It reads a
//! plain snapshot of the engine's modes and metrics (`TermInfo`) and emits
//! `TermCommand` values for the host to apply.

use vstd::prelude::*;

use crate::commands::HostNotice;
use crate::commands::Point;
use crate::commands::Rect;
use crate::commands::SelectionKind;
use crate::commands::Side;
use crate::commands::Status;
use crate::commands::TermCommand;
use crate::commands::TerminalScroll;
use crate::interaction::ClickKind;
use crate::interaction::Dragging;
use crate::interaction::State;
use crate::interaction::accumulate_scroll;
use crate::interaction::next_click_kind;
use crate::interaction::spec_next_click_kind;
use crate::interaction::trunc_div;
use crate::interaction::trunc_rem;
use crate::keyboard::Key;
use crate::keyboard::KeyBind;
use crate::keyboard::LegacyAction;
use crate::keyboard::Modifiers;
use crate::keyboard::NamedEscape;
use crate::keyboard::NamedKey;
use crate::keyboard::SpecKeyAction;
use crate::keyboard::any_key_bind_matches;
use crate::keyboard::calculate_modifier_number;
use crate::keyboard::encode_character;
use crate::keyboard::legacy_key;
use crate::keyboard::named_key_escape;
use crate::keyboard::spec_char_bytes;
use crate::keyboard::spec_legacy_key;
use crate::keyboard::spec_modifier_number;
use crate::keyboard::spec_named_escape;

verus! {

/// Inner padding of the widget, in device units.
#[derive(Clone, Copy, Debug, PartialEq, Eq, Structural)]
pub struct Padding {
    pub top: i32,
    pub right: i32,
    pub bottom: i32,
    pub left: i32,
}

impl Padding {
    /// Uniform padding on all four sides.
    pub fn uniform(v: i32) -> (p: Padding)
        ensures
            p == (Padding { top: v, right: v, bottom: v, left: v }),
    {
        Padding { top: v, right: v, bottom: v, left: v }
    }
}

/// The border drawn around the widget background, forwarded into the
/// background drawing command.
#[derive(Clone, Copy, Debug, PartialEq, Eq, Structural)]
pub struct Border {
    pub width: i32,
    pub radius: i32,
    pub color: crate::color::Rgba,
}

impl Border {
    /// No border.
    pub fn none() -> (b: Border)
        ensures
            b == (Border {
                width: 0,
                radius: 0,
                color: crate::color::Rgba { r: 0, g: 0, b: 0, a: 0 },
            }),
    {
        Border { width: 0, radius: 0, color: crate::color::Rgba { r: 0, g: 0, b: 0, a: 0 } }
    }
}

/// The widget configuration: geometry, click timing, registered accelerator
/// bindings, and which host callbacks are wired up. The host callbacks
/// themselves live with the host; this engine only decides when to notify
/// them, so it needs to know only whether each one exists.
pub struct TerminalBox {
    /// An optional widget identity, for the host's focus bookkeeping.
    pub id: Option<u64>,
    pub border: Border,
    pub padding: Padding,
    pub click_timing_ms: u64,
    pub context_menu: Option<Point>,
    pub has_on_context_menu: bool,
    pub has_on_mouse_enter: bool,
    pub has_on_middle_click: bool,
    pub opacity: Option<u8>,
    pub mouse_inside_boundary: Option<bool>,
    pub key_binds: Vec<KeyBind>,
}

impl TerminalBox {
    /// A terminal box with no border or padding, a 500 ms click window, no
    /// context menu open, no host callbacks, and the given accelerator
    /// bindings.
    pub fn new(key_binds: Vec<KeyBind>) -> (t: TerminalBox)
        ensures
            t.id is None,
            t.border == Border::spec_none(),
            t.padding == (Padding { top: 0, right: 0, bottom: 0, left: 0 }),
            t.click_timing_ms == 500,
            t.context_menu is None,
            !t.has_on_context_menu,
            !t.has_on_mouse_enter,
            !t.has_on_middle_click,
            t.opacity is None,
            t.mouse_inside_boundary is None,
            t.key_binds == key_binds,
    {
        TerminalBox {
            id: None,
            border: Border::none(),
            padding: Padding::uniform(0),
            click_timing_ms: 500,
            context_menu: None,
            has_on_context_menu: false,
            has_on_mouse_enter: false,
            has_on_middle_click: false,
            opacity: None,
            mouse_inside_boundary: None,
            key_binds,
        }
    }

    /// Sets the widget identity.
    pub fn id(self, id: u64) -> (t: TerminalBox)
        ensures
            t == (TerminalBox { id: Some(id), ..self }),
    {
        TerminalBox { id: Some(id), ..self }
    }

    /// Replaces the border.
    pub fn border(self, border: Border) -> (t: TerminalBox)
        ensures
            t == (TerminalBox { border, ..self }),
    {
        TerminalBox { border, ..self }
    }

    /// Replaces the padding.
    pub fn padding(self, padding: Padding) -> (t: TerminalBox)
        ensures
            t == (TerminalBox { padding, ..self }),
    {
        TerminalBox { padding, ..self }
    }

    /// Replaces the multi-click timing window.
    pub fn click_timing(self, click_timing_ms: u64) -> (t: TerminalBox)
        ensures
            t == (TerminalBox { click_timing_ms, ..self }),
    {
        TerminalBox { click_timing_ms, ..self }
    }

    /// Records that a context menu is open at the position.
    pub fn context_menu(self, position: Point) -> (t: TerminalBox)
        ensures
            t == (TerminalBox { context_menu: Some(position), ..self }),
    {
        TerminalBox { context_menu: Some(position), ..self }
    }

    /// Wires up the host's context-menu callback.
    pub fn on_context_menu(self) -> (t: TerminalBox)
        ensures
            t == (TerminalBox { has_on_context_menu: true, ..self }),
    {
        TerminalBox { has_on_context_menu: true, ..self }
    }

    /// Wires up the host's mouse-enter callback.
    pub fn on_mouse_enter(self) -> (t: TerminalBox)
        ensures
            t == (TerminalBox { has_on_mouse_enter: true, ..self }),
    {
        TerminalBox { has_on_mouse_enter: true, ..self }
    }

    /// Wires up the host's middle-click callback.
    pub fn on_middle_click(self) -> (t: TerminalBox)
        ensures
            t == (TerminalBox { has_on_middle_click: true, ..self }),
    {
        TerminalBox { has_on_middle_click: true, ..self }
    }

    /// Overrides the background opacity (alpha channel).
    pub fn opacity(self, opacity: u8) -> (t: TerminalBox)
        ensures
            t == (TerminalBox { opacity: Some(opacity), ..self }),
    {
        TerminalBox { opacity: Some(opacity), ..self }
    }
}

/// A terminal box with the default configuration and the given accelerator
/// bindings.
pub fn terminal_box(key_binds: Vec<KeyBind>) -> (t: TerminalBox)
    ensures
        t.id is None,
        t.border == Border::spec_none(),
        t.padding == (Padding { top: 0, right: 0, bottom: 0, left: 0 }),
        t.click_timing_ms == 500,
        t.context_menu is None,
        !t.has_on_context_menu,
        !t.has_on_mouse_enter,
        !t.has_on_middle_click,
        t.opacity is None,
        t.mouse_inside_boundary is None,
        t.key_binds == key_binds,
{
    TerminalBox::new(key_binds)
}

impl Border {
    /// The no-border value.
    pub open spec fn spec_none() -> Border {
        Border { width: 0, radius: 0, color: crate::color::Rgba { r: 0, g: 0, b: 0, a: 0 } }
    }
}

/// A snapshot of the external terminal-state engine, read under its lock and
/// handed to the event handler as plain values.
#[derive(Clone, Copy, Debug)]
pub struct TermInfo {
    /// Application-cursor mode: arrows and Home/End use the `SS3` encoding.
    pub is_app_cursor: bool,
    /// Mouse-reporting mode: pointer events become protocol bytes instead of
    /// local gestures.
    pub is_mouse_mode: bool,
    /// Width of one cell, in device units.
    pub cell_width: i32,
    /// Height of one cell, in device units.
    pub cell_height: i32,
    /// Pixel width of the laid-out buffer (0 when unknown).
    pub buffer_width: i32,
    /// Pixel height of the laid-out buffer (0 when unknown).
    pub buffer_height: i32,
    /// Line height of the buffer metrics, in device units.
    pub line_height: i32,
    /// The scrollbar start fraction in millionths, when content overflows.
    pub scrollbar: Option<i64>,
    /// Whether a selection object currently exists on the engine.
    pub selection_active: bool,
}

impl TermInfo {
    /// Well-formedness of an engine snapshot: positive cell metrics and
    /// non-negative buffer extents, all small enough that coordinate
    /// arithmetic stays in range.
    pub open spec fn wf(self) -> bool {
        &&& 0 < self.cell_width <= 0x1000_0000
        &&& 0 < self.cell_height <= 0x1000_0000
        &&& 0 < self.line_height <= 0x1000_0000
        &&& 0 <= self.buffer_width <= 0x1000_0000
        &&& 0 <= self.buffer_height <= 0x1000_0000
    }
}

/// A mouse button.
#[derive(Clone, Copy, Debug, PartialEq, Eq, Structural)]
pub enum Button {
    Left,
    Middle,
    Right,
    Other,
}

/// A scroll-wheel delta: whole lines, or pixels for high-resolution wheels
/// and touchpads.
#[derive(Clone, Copy, Debug, PartialEq, Eq, Structural)]
pub enum ScrollDelta {
    Lines(i32),
    Pixels(i32),
}

/// A host UI event, reduced to the plain values this engine needs.
#[derive(Clone, Copy, Debug)]
pub enum Event {
    /// A key went down: the logical key, the text it produces (first
    /// character), and the modifiers at press time.
    KeyPressed { key: Key, text: Option<char>, modifiers: Modifiers },
    /// The modifier state changed.
    ModifiersChanged(Modifiers),
    ButtonPressed(Button),
    ButtonReleased(Button),
    /// The pointer moved; its position arrives separately.
    CursorMoved,
    WheelScrolled(ScrollDelta),
}

/// What the event handler decided: whether the event was consumed, the
/// commands for the terminal engine, and the notices for the host.
pub struct Response {
    pub status: Status,
    pub commands: Vec<TermCommand>,
    pub notices: Vec<HostNotice>,
}

impl Response {
    /// An ignored event: nothing to do.
    fn ignored() -> (r: Response)
        ensures
            r.status == Status::Ignored,
            r.commands@ == Seq::<TermCommand>::empty(),
            r.notices@ == Seq::<HostNotice>::empty(),
    {
        Response { status: Status::Ignored, commands: Vec::new(), notices: Vec::new() }
    }

    /// A consumed event with nothing to do.
    fn captured() -> (r: Response)
        ensures
            r.status == Status::Captured,
            r.commands@ == Seq::<TermCommand>::empty(),
            r.notices@ == Seq::<HostNotice>::empty(),
    {
        Response { status: Status::Captured, commands: Vec::new(), notices: Vec::new() }
    }
}

/// Whether some accelerator binding matches the pressed key: such a press is
/// consumed locally.
pub open spec fn spec_key_bound(binds: Seq<KeyBind>, m: Modifiers, key: Key) -> bool {
    exists|i: int| 0 <= i < binds.len() && binds[i].modifiers == m && binds[i].key == key
}

/// The contract of a named-key press while focused: a matching accelerator
/// binding consumes the event; otherwise the escape table decides between
/// pty bytes (consumed), a local scroll (left unconsumed, matching the
/// host toolkit convention for scroll interception), and the legacy keys,
/// where Escape with an active selection clears it locally.
pub open spec fn key_named_post(
    binds: Seq<KeyBind>,
    st0: State,
    info: TermInfo,
    named: NamedKey,
    em: Modifiers,
    r: Response,
    st1: State,
) -> bool {
    let mod_no = spec_modifier_number(st0.modifiers);
    &&& st1 == st0
    &&& if spec_key_bound(binds, em, Key::Named(named)) {
        &&& r.status == Status::Captured
        &&& r.commands@.len() == 0
        &&& r.notices@.len() == 0
    } else {
        &&& r.notices@.len() == 0
        &&& match spec_named_escape(named, em.shift, info.is_app_cursor, mod_no) {
            SpecKeyAction::Bytes(sb) => {
                &&& r.status == Status::Captured
                &&& r.commands@.len() == 1
                &&& (r.commands@[0] matches TermCommand::Input(b) && b@ == sb)
            },
            SpecKeyAction::Scroll(s) => {
                &&& r.status == Status::Ignored
                &&& r.commands@ == seq![TermCommand::Scroll(s)]
            },
            SpecKeyAction::ClearSelection => false,
            SpecKeyAction::Nothing => match spec_legacy_key(named, em, info.selection_active) {
                SpecKeyAction::Bytes(sb) => {
                    &&& r.status == Status::Captured
                    &&& r.commands@.len() == 1
                    &&& (r.commands@[0] matches TermCommand::Input(b) && b@ == sb)
                },
                SpecKeyAction::ClearSelection => {
                    &&& r.status == Status::Captured
                    &&& r.commands@ == seq![TermCommand::ClearSelection, TermCommand::Redraw]
                },
                SpecKeyAction::Scroll(s) => false,
                SpecKeyAction::Nothing => {
                    &&& r.status == Status::Ignored
                    &&& r.commands@.len() == 0
                },
            },
        }
    }
}

/// Handles a named-key press while the widget is focused.
pub fn handle_key_named(
    binds: &Vec<KeyBind>,
    state: &State,
    info: &TermInfo,
    named: NamedKey,
    em: Modifiers,
) -> (r: Response)
    ensures
        key_named_post(binds@, *state, *info, named, em, r, *state),
{
    let key = Key::Named(named);
    if any_key_bind_matches(binds, em, &key) {
        return Response::captured();
    }
    let mod_no = calculate_modifier_number(&state.modifiers);
    match named_key_escape(named, em.shift, info.is_app_cursor, mod_no) {
        NamedEscape::Bytes(b) => {
            let mut commands: Vec<TermCommand> = Vec::new();
            commands.push(TermCommand::Input(b));
            Response { status: Status::Captured, commands, notices: Vec::new() }
        },
        NamedEscape::Scroll(s) => {
            let mut commands: Vec<TermCommand> = Vec::new();
            commands.push(TermCommand::Scroll(s));
            proof {
                assert(commands@ =~= seq![TermCommand::Scroll(s)]);
            }
            Response { status: Status::Ignored, commands, notices: Vec::new() }
        },
        NamedEscape::Unhandled => {
            match legacy_key(named, em, info.selection_active) {
                LegacyAction::Bytes(b) => {
                    let mut commands: Vec<TermCommand> = Vec::new();
                    commands.push(TermCommand::Input(b));
                    Response { status: Status::Captured, commands, notices: Vec::new() }
                },
                LegacyAction::ClearSelection => {
                    let mut commands: Vec<TermCommand> = Vec::new();
                    commands.push(TermCommand::ClearSelection);
                    commands.push(TermCommand::Redraw);
                    proof {
                        assert(commands@ =~= seq![
                            TermCommand::ClearSelection,
                            TermCommand::Redraw,
                        ]);
                    }
                    Response { status: Status::Captured, commands, notices: Vec::new() }
                },
                LegacyAction::Unhandled => Response::ignored(),
            }
        },
    }
}

/// The contract of a character-key press while focused: a matching binding
/// consumes the event; otherwise the character encoding rules decide the pty
/// bytes, with suppressed combinations left unconsumed.
pub open spec fn key_char_post(
    binds: Seq<KeyBind>,
    st0: State,
    key: Key,
    text: Option<char>,
    em: Modifiers,
    r: Response,
    st1: State,
) -> bool {
    let c = match text {
        Some(c) => c,
        None => '\0',
    };
    &&& st1 == st0
    &&& r.notices@.len() == 0
    &&& if spec_key_bound(binds, em, key) {
        &&& r.status == Status::Captured
        &&& r.commands@.len() == 0
    } else {
        match spec_char_bytes(c, key == Key::Character('_'), em) {
            Some(sb) => {
                &&& r.status == Status::Captured
                &&& r.commands@.len() == 1
                &&& (r.commands@[0] matches TermCommand::Input(b) && b@ == sb)
            },
            None => {
                &&& r.status == Status::Ignored
                &&& r.commands@.len() == 0
            },
        }
    }
}

/// Handles a character-key press while the widget is focused.
pub fn handle_key_char(
    binds: &Vec<KeyBind>,
    state: &State,
    key: Key,
    text: Option<char>,
    em: Modifiers,
) -> (r: Response)
    ensures
        key_char_post(binds@, *state, key, text, em, r, *state),
{
    if any_key_bind_matches(binds, em, &key) {
        return Response::captured();
    }
    let c = match text {
        Some(c) => c,
        None => '\0',
    };
    let underscore = match key {
        Key::Character(k) => k == '_',
        _ => false,
    };
    match encode_character(c, underscore, em) {
        Some(b) => {
            let mut commands: Vec<TermCommand> = Vec::new();
            commands.push(TermCommand::Input(b));
            Response { status: Status::Captured, commands, notices: Vec::new() }
        },
        None => Response::ignored(),
    }
}


/// Well-formedness of the widget configuration: padding stays within a sane
/// range so that coordinate arithmetic cannot overflow.
impl TerminalBox {
    pub open spec fn wf(self) -> bool {
        &&& 0 <= self.padding.left <= 0x10000
        &&& 0 <= self.padding.top <= 0x10000
        &&& 0 <= self.padding.right <= 0x10000
        &&& 0 <= self.padding.bottom <= 0x10000
    }
}

impl Rect {
    /// Well-formedness of a layout rectangle: non-negative extent within the
    /// coordinate range.
    pub open spec fn spec_wf(self) -> bool {
        &&& 0 <= self.width
        &&& 0 <= self.height
        &&& self.x + self.width <= i32::MAX
        &&& self.y + self.height <= i32::MAX
    }
}

/// The cursor position relative to the widget bounds, when it lies inside
/// them.
pub open spec fn spec_position_in(cursor: Option<Point>, bounds: Rect) -> Option<Point> {
    match cursor {
        Some(p) => if bounds.spec_contains(p) {
            Some(Point { x: (p.x - bounds.x) as i32, y: (p.y - bounds.y) as i32 })
        } else {
            None
        },
        None => None,
    }
}

fn position_in(cursor: &Option<Point>, bounds: Rect) -> (r: Option<Point>)
    requires
        bounds.spec_wf(),
    ensures
        r == spec_position_in(*cursor, bounds),
{
    match cursor {
        Some(p) => {
            if bounds.contains(*p) {
                Some(Point { x: p.x - bounds.x, y: p.y - bounds.y })
            } else {
                None
            }
        },
        None => None,
    }
}

/// The zero-based cell coordinate at pixel coordinate `v` with cells of the
/// given size: positions left of or above the grid clamp to cell 0, and the
/// coordinate saturates at the top of the `u32` range, as a float-to-integer
/// conversion would.
pub open spec fn spec_cell(v: int, size: int) -> int {
    if v <= 0 {
        0
    } else if v / size > u32::MAX {
        u32::MAX as int
    } else {
        v / size
    }
}

fn cell_coord(v: i64, size: i32) -> (c: u32)
    requires
        0 < size,
        -0x1_0000_0000_0000 <= v <= 0x1_0000_0000_0000,
    ensures
        c == spec_cell(v as int, size as int),
{
    if v <= 0 {
        0
    } else {
        let q = (v as u64) / (size as u64);
        if q > u32::MAX as u64 {
            u32::MAX
        } else {
            q as u32
        }
    }
}

/// Which half of its cell the pixel coordinate `x` falls in. A position left
/// of the grid counts as the left half, matching the sign of the fractional
/// cell coordinate.
pub open spec fn spec_side(x: int, cell_width: int) -> Side {
    if x < 0 || 2 * (x % cell_width) < cell_width {
        Side::Left
    } else {
        Side::Right
    }
}

fn cell_side(x: i64, cell_width: i32) -> (s: Side)
    requires
        0 < cell_width,
        -0x1_0000_0000_0000 <= x <= 0x1_0000_0000_0000,
    ensures
        s == spec_side(x as int, cell_width as int),
{
    if x < 0 {
        Side::Left
    } else {
        let rem = (x as u64) % (cell_width as u64);
        if 2 * rem < cell_width as u64 {
            Side::Left
        } else {
            Side::Right
        }
    }
}

/// An absolute scroll fraction in millionths for a press at pixel `y` within
/// content of the given pixel height (height 0 counts as 1), truncated
/// toward zero as the pixel ratio would be.
pub open spec fn spec_track_ratio(y: int, buffer_height: int) -> int {
    trunc_div(y * 1000000, if buffer_height == 0 { 1 } else { buffer_height })
}

fn track_ratio(y: i64, buffer_height: i32) -> (r: i64)
    requires
        0 <= buffer_height <= 0x1000_0000,
        -0x10_0000_0000 <= y <= 0x10_0000_0000,
    ensures
        r == spec_track_ratio(y as int, buffer_height as int),
        -0x10_0000_0000 * 1000000 <= r <= 0x10_0000_0000 * 1000000,
{
    let bh: i64 = if buffer_height == 0 {
        1
    } else {
        buffer_height as i64
    };
    if y >= 0 {
        let q = (y as u64 * 1000000) / (bh as u64);
        proof {
            vstd::arithmetic::div_mod::lemma_div_pos_is_pos(y as int * 1000000, bh as int);
            vstd::arithmetic::div_mod::lemma_div_is_ordered(
                y as int * 1000000,
                0x10_0000_0000int * 1000000,
                bh as int,
            );
        }
        q as i64
    } else {
        let q = ((-y) as u64 * 1000000) / (bh as u64);
        proof {
            vstd::arithmetic::div_mod::lemma_div_pos_is_pos((-y) as int * 1000000, bh as int);
            vstd::arithmetic::div_mod::lemma_div_is_ordered(
                (-y) as int * 1000000,
                0x10_0000_0000int * 1000000,
                bh as int,
            );
        }
        -(q as i64)
    }
}

/// The context-menu notice for a button press at relative position `p`:
/// a close request when a menu is already open, an open request at `p` for a
/// right click, and a close request otherwise.
pub open spec fn spec_context_notice(menu: Option<Point>, button: Button, p: Point) -> HostNotice {
    match menu {
        Some(_) => HostNotice::ContextMenuClose,
        None => match button {
            Button::Right => HostNotice::ContextMenuOpen(p),
            _ => HostNotice::ContextMenuClose,
        },
    }
}

/// The contract of a button press.
///
/// Outside the widget nothing happens. In mouse-reporting mode the press is
/// forwarded to the engine's mouse-report encoder with its cell coordinates.
/// Otherwise the widget takes focus and the press is consumed: a left press
/// in the text area starts a selection whose granularity follows the click
/// multiplicity and starts a text drag; a left press on the cached scrollbar
/// thumb grabs the thumb; a left press elsewhere in the track jumps the
/// scroll position proportionally and grabs the thumb there; a middle press
/// notifies the host; and every press toggles the context menu when that
/// callback is wired up.
pub open spec fn button_pressed_post(
    cfg: TerminalBox,
    st0: State,
    info: TermInfo,
    button: Button,
    bounds: Rect,
    cursor: Option<Point>,
    now: u64,
    r: Response,
    st1: State,
) -> bool {
    match spec_position_in(cursor, bounds) {
        None => {
            &&& r.status == Status::Ignored
            &&& r.commands@.len() == 0
            &&& r.notices@.len() == 0
            &&& st1 == st0
        },
        Some(p) => {
            let x = p.x - cfg.padding.left;
            let y = p.y - cfg.padding.top;
            if info.is_mouse_mode {
                &&& r.status == Status::Ignored
                &&& r.commands@ == seq![
                    TermCommand::ReportMouse {
                        col: spec_cell(x, info.cell_width as int) as u32,
                        row: spec_cell(y, info.cell_height as int) as u32,
                    },
                ]
                &&& r.notices@.len() == 0
                &&& st1 == st0
            } else {
                let mid: Seq<HostNotice> = if button == Button::Middle
                    && cfg.has_on_middle_click {
                    seq![HostNotice::MiddleClick]
                } else {
                    Seq::empty()
                };
                let ctx: Seq<HostNotice> = if cfg.has_on_context_menu {
                    seq![spec_context_notice(cfg.context_menu, button, p)]
                } else {
                    Seq::empty()
                };
                &&& r.status == Status::Captured
                &&& r.notices@ == mid + ctx
                &&& st1.is_focused
                &&& st1.modifiers == st0.modifiers
                &&& st1.scroll_pixels == st0.scroll_pixels
                &&& st1.scrollbar_rect == st0.scrollbar_rect
                &&& if button == Button::Left {
                    if 0 <= x < info.buffer_width && 0 <= y < info.buffer_height {
                        let kind = spec_next_click_kind(st0.click, now, cfg.click_timing_ms);
                        let sel = match kind {
                            ClickKind::Single => SelectionKind::Simple,
                            ClickKind::Double => SelectionKind::Semantic,
                            ClickKind::Triple => SelectionKind::Lines,
                        };
                        &&& r.commands@ == seq![
                            TermCommand::StartSelection {
                                kind: sel,
                                row: spec_cell(y as int, info.cell_height as int) as u32,
                                col: spec_cell(x as int, info.cell_width as int) as u32,
                                side: spec_side(x as int, info.cell_width as int),
                            },
                            TermCommand::Redraw,
                        ]
                        &&& st1.click == Some((kind, now))
                        &&& st1.dragging == Some(Dragging::Buffer)
                    } else if st0.scrollbar_rect.spec_contains(
                        Point { x: x as i32, y: y as i32 },
                    ) {
                        &&& r.commands@.len() == 0
                        &&& st1.click == st0.click
                        &&& st1.dragging == (match info.scrollbar {
                            Some(s) => Some(Dragging::Scrollbar { start_y: y as i32, start_scroll: s }),
                            None => st0.dragging,
                        })
                    } else if st0.scrollbar_rect.x <= x < st0.scrollbar_rect.x
                        + st0.scrollbar_rect.width {
                        match info.scrollbar {
                            Some(_) => {
                                let ratio = spec_track_ratio(y as int, info.buffer_height as int);
                                &&& r.commands@ == seq![TermCommand::ScrollTo(ratio as i64)]
                                &&& st1.click == st0.click
                                &&& st1.dragging == Some(
                                    Dragging::Scrollbar { start_y: y as i32, start_scroll: ratio as i64 },
                                )
                            },
                            None => {
                                &&& r.commands@.len() == 0
                                &&& st1.click == st0.click
                                &&& st1.dragging == st0.dragging
                            },
                        }
                    } else {
                        &&& r.commands@.len() == 0
                        &&& st1.click == st0.click
                        &&& st1.dragging == st0.dragging
                    }
                } else {
                    &&& r.commands@.len() == 0
                    &&& st1.click == st0.click
                    &&& st1.dragging == st0.dragging
                }
            }
        },
    }
}

/// Handles a mouse button press.
pub fn handle_button_pressed(
    cfg: &TerminalBox,
    state: &mut State,
    info: &TermInfo,
    button: Button,
    bounds: Rect,
    cursor: &Option<Point>,
    now_ms: u64,
) -> (r: Response)
    requires
        cfg.wf(),
        info.wf(),
        bounds.spec_wf(),
        scrollbar_wf(*info),
        dragging_wf(*old(state)),
    ensures
        button_pressed_post(*cfg, *old(state), *info, button, bounds, *cursor, now_ms, r, *final(state)),
        final(state).scroll_pixels == old(state).scroll_pixels,
        dragging_wf(*final(state)),
{
    let pos = position_in(cursor, bounds);
    match pos {
        None => Response::ignored(),
        Some(p) => {
            let x: i64 = p.x as i64 - cfg.padding.left as i64;
            let y: i64 = p.y as i64 - cfg.padding.top as i64;
            if info.is_mouse_mode {
                let col = cell_coord(x, info.cell_width);
                let row = cell_coord(y, info.cell_height);
                let mut commands: Vec<TermCommand> = Vec::new();
                commands.push(TermCommand::ReportMouse { col, row });
                proof {
                    assert(commands@ =~= seq![TermCommand::ReportMouse { col, row }]);
                }
                Response { status: Status::Ignored, commands, notices: Vec::new() }
            } else {
                state.is_focused = true;
                let mut commands: Vec<TermCommand> = Vec::new();
                let mut notices: Vec<HostNotice> = Vec::new();
                if button == Button::Left {
                    if 0 <= x && x < info.buffer_width as i64 && 0 <= y && y < info.buffer_height as i64 {
                        let kind = next_click_kind(&state.click, now_ms, cfg.click_timing_ms);
                        let sel = match kind {
                            ClickKind::Single => SelectionKind::Simple,
                            ClickKind::Double => SelectionKind::Semantic,
                            ClickKind::Triple => SelectionKind::Lines,
                        };
                        let col = cell_coord(x, info.cell_width);
                        let row = cell_coord(y, info.cell_height);
                        let side = cell_side(x, info.cell_width);
                        commands.push(TermCommand::StartSelection { kind: sel, row, col, side });
                        commands.push(TermCommand::Redraw);
                        proof {
                            assert(commands@ =~= seq![
                                TermCommand::StartSelection { kind: sel, row, col, side },
                                TermCommand::Redraw,
                            ]);
                        }
                        state.click = Some((kind, now_ms));
                        state.dragging = Some(Dragging::Buffer);
                    } else if state.scrollbar_rect.contains(Point { x: x as i32, y: y as i32 }) {
                        if let Some(start_scroll) = info.scrollbar {
                            state.dragging = Some(
                                Dragging::Scrollbar { start_y: y as i32, start_scroll },
                            );
                        }
                    } else if state.scrollbar_rect.x as i64 <= x && x < state.scrollbar_rect.x as i64
                        + state.scrollbar_rect.width as i64 {
                        if info.scrollbar.is_some() {
                            let ratio = track_ratio(y, info.buffer_height);
                            commands.push(TermCommand::ScrollTo(ratio));
                            proof {
                                assert(commands@ =~= seq![TermCommand::ScrollTo(ratio)]);
                            }
                            state.dragging = Some(
                                Dragging::Scrollbar { start_y: y as i32, start_scroll: ratio },
                            );
                        }
                    }
                } else if button == Button::Middle {
                    if cfg.has_on_middle_click {
                        notices.push(HostNotice::MiddleClick);
                    }
                }
                if cfg.has_on_context_menu {
                    let notice = match cfg.context_menu {
                        Some(_) => HostNotice::ContextMenuClose,
                        None => match button {
                            Button::Right => HostNotice::ContextMenuOpen(p),
                            _ => HostNotice::ContextMenuClose,
                        },
                    };
                    notices.push(notice);
                }
                proof {
                    let midg: Seq<HostNotice> = if button == Button::Middle
                        && cfg.has_on_middle_click {
                        seq![HostNotice::MiddleClick]
                    } else {
                        Seq::empty()
                    };
                    let ctxg: Seq<HostNotice> = if cfg.has_on_context_menu {
                        seq![spec_context_notice(cfg.context_menu, button, p)]
                    } else {
                        Seq::empty()
                    };
                    assert(notices@ =~= midg + ctxg);
                }
                Response { status: Status::Captured, commands, notices }
            }
        },
    }
}



/// The engine snapshot's scrollbar fraction lies within one whole turn.
pub open spec fn scrollbar_wf(info: TermInfo) -> bool {
    match info.scrollbar {
        Some(s) => 0 <= s <= 1000000,
        None => true,
    }
}

/// A recorded scrollbar grab keeps its fraction within the range that keeps
/// drag arithmetic in bounds. Every grab the event handler records satisfies
/// this: grabbed fractions come from the engine (at most one whole turn) or
/// from a track press (bounded by the pixel range times a turn).
pub open spec fn dragging_wf(st: State) -> bool {
    match st.dragging {
        Some(Dragging::Scrollbar { start_y, start_scroll }) => -0x0400_0000_0000_0000
            <= start_scroll <= 0x0400_0000_0000_0000,
        _ => true,
    }
}

/// Wheel deltas stay within the range that keeps the line arithmetic in
/// bounds: six-fold scaling for discrete line deltas, accumulation against
/// the line height for pixel deltas.
pub open spec fn wheel_delta_wf(delta: ScrollDelta) -> bool {
    match delta {
        ScrollDelta::Lines(dy) => -0x0200_0000 <= dy <= 0x0200_0000,
        ScrollDelta::Pixels(dy) => -0x0200_0000 <= dy <= 0x0200_0000,
    }
}

/// An event's payload stays within the ranges event arithmetic needs.
pub open spec fn event_wf(e: Event) -> bool {
    match e {
        Event::WheelScrolled(delta) => wheel_delta_wf(delta),
        _ => true,
    }
}

/// The contract of a button release: a left release always ends any drag
/// gesture (the selection itself remains). In mouse-reporting mode a release
/// inside the widget is forwarded with its cell coordinates; otherwise a
/// left release is consumed.
pub open spec fn button_released_post(
    cfg: TerminalBox,
    st0: State,
    info: TermInfo,
    button: Button,
    bounds: Rect,
    cursor: Option<Point>,
    r: Response,
    st1: State,
) -> bool {
    let report: bool = info.is_mouse_mode && spec_position_in(cursor, bounds) is Some;
    &&& r.notices@.len() == 0
    &&& st1 == (if button == Button::Left {
        State { dragging: None, ..st0 }
    } else {
        st0
    })
    &&& if report {
        let p = spec_position_in(cursor, bounds)->Some_0;
        let x = p.x - cfg.padding.left;
        let y = p.y - cfg.padding.top;
        &&& r.commands@ == seq![
            TermCommand::ReportMouse {
                col: spec_cell(x as int, info.cell_width as int) as u32,
                row: spec_cell(y as int, info.cell_height as int) as u32,
            },
        ]
        &&& r.status == Status::Ignored
    } else {
        &&& r.commands@.len() == 0
        &&& r.status == (if button == Button::Left {
            Status::Captured
        } else {
            Status::Ignored
        })
    }
}

/// Handles a mouse button release.
pub fn handle_button_released(
    cfg: &TerminalBox,
    state: &mut State,
    info: &TermInfo,
    button: Button,
    bounds: Rect,
    cursor: &Option<Point>,
) -> (r: Response)
    requires
        cfg.wf(),
        info.wf(),
        bounds.spec_wf(),
        dragging_wf(*old(state)),
    ensures
        button_released_post(*cfg, *old(state), *info, button, bounds, *cursor, r, *final(state)),
        dragging_wf(*final(state)),
{
    if button == Button::Left {
        state.dragging = None;
    }
    let pos = position_in(cursor, bounds);
    match pos {
        Some(p) => {
            if info.is_mouse_mode {
                let x: i64 = p.x as i64 - cfg.padding.left as i64;
                let y: i64 = p.y as i64 - cfg.padding.top as i64;
                let col = cell_coord(x, info.cell_width);
                let row = cell_coord(y, info.cell_height);
                let mut commands: Vec<TermCommand> = Vec::new();
                commands.push(TermCommand::ReportMouse { col, row });
                proof {
                    assert(commands@ =~= seq![TermCommand::ReportMouse { col, row }]);
                }
                Response { status: Status::Ignored, commands, notices: Vec::new() }
            } else {
                if button == Button::Left {
                    Response::captured()
                } else {
                    Response::ignored()
                }
            }
        },
        None => {
            if button == Button::Left {
                Response::captured()
            } else {
                Response::ignored()
            }
        },
    }
}

/// The contract of a pointer move.
///
/// When the host's mouse-enter callback is wired up, the widget tracks
/// whether the pointer is inside its bounds and notifies the host on every
/// outside-to-inside crossing. With a known pointer position, mouse-report
/// mode forwards the move with its cell coordinates; otherwise the move is
/// consumed, and an active drag either extends the selection endpoint (with
/// the sub-cell side chosen by the fractional column) or recomputes the
/// scroll fraction linearly in the pointer's vertical travel.
pub open spec fn cursor_moved_post(
    cfg0: TerminalBox,
    st0: State,
    info: TermInfo,
    bounds: Rect,
    cursor: Option<Point>,
    r: Response,
    st1: State,
    cfg1: TerminalBox,
) -> bool {
    let inside = cursor matches Some(p) && bounds.spec_contains(p);
    let enter: Seq<HostNotice> = if cfg0.has_on_mouse_enter && (
    cfg0.mouse_inside_boundary matches Some(known) && known != inside) && inside {
        seq![HostNotice::MouseEnter]
    } else {
        Seq::empty()
    };
    &&& cfg1 == (if cfg0.has_on_mouse_enter {
        TerminalBox { mouse_inside_boundary: Some(inside), ..cfg0 }
    } else {
        cfg0
    })
    &&& r.notices@ == enter
    &&& st1 == st0
    &&& match cursor {
        Some(p) => {
            let x = p.x - bounds.x - cfg0.padding.left;
            let y = p.y - bounds.y - cfg0.padding.top;
            if info.is_mouse_mode {
                &&& r.status == Status::Ignored
                &&& r.commands@ == seq![
                    TermCommand::ReportMouse {
                        col: spec_cell(x, info.cell_width as int) as u32,
                        row: spec_cell(y, info.cell_height as int) as u32,
                    },
                ]
            } else {
                &&& r.status == Status::Captured
                &&& match st0.dragging {
                    Some(Dragging::Buffer) => r.commands@ == seq![
                        TermCommand::UpdateSelection {
                            row: spec_cell(y, info.cell_height as int) as u32,
                            col: spec_cell(x, info.cell_width as int) as u32,
                            side: spec_side(x, info.cell_width as int),
                        },
                        TermCommand::Redraw,
                    ],
                    Some(Dragging::Scrollbar { start_y, start_scroll }) => r.commands@ == seq![
                        TermCommand::ScrollTo(
                            (start_scroll + spec_track_ratio(
                                y - start_y,
                                info.buffer_height as int,
                            )) as i64,
                        ),
                    ],
                    None => r.commands@.len() == 0,
                }
            }
        },
        None => {
            &&& r.status == Status::Ignored
            &&& r.commands@.len() == 0
        },
    }
}

/// Handles a pointer move. `cursor` is the absolute pointer position, when
/// known, whether or not it lies inside the widget.
pub fn handle_cursor_moved(
    cfg: &mut TerminalBox,
    state: &State,
    info: &TermInfo,
    bounds: Rect,
    cursor: &Option<Point>,
) -> (r: Response)
    requires
        old(cfg).wf(),
        info.wf(),
        bounds.spec_wf(),
        scrollbar_wf(*info),
        dragging_wf(*state),
    ensures
        cursor_moved_post(*old(cfg), *state, *info, bounds, *cursor, r, *state, *final(cfg)),
        final(cfg).wf(),
{
    let mut notices: Vec<HostNotice> = Vec::new();
    let inside = match cursor {
        Some(p) => bounds.contains(*p),
        None => false,
    };
    if cfg.has_on_mouse_enter {
        match cfg.mouse_inside_boundary {
            Some(known) => {
                if known != inside {
                    if inside {
                        notices.push(HostNotice::MouseEnter);
                    }
                }
            },
            None => {},
        }
        cfg.mouse_inside_boundary = Some(inside);
    }
    proof {
        let insideg = *cursor matches Some(p) && bounds.spec_contains(p);
        assert(inside == insideg);
        let enter: Seq<HostNotice> = if old(cfg).has_on_mouse_enter && (
        old(cfg).mouse_inside_boundary matches Some(known) && known != insideg) && insideg {
            seq![HostNotice::MouseEnter]
        } else {
            Seq::empty()
        };
        assert(notices@ =~= enter);
    }
    match cursor {
        Some(p) => {
            let x: i64 = p.x as i64 - bounds.x as i64 - cfg.padding.left as i64;
            let y: i64 = p.y as i64 - bounds.y as i64 - cfg.padding.top as i64;
            if info.is_mouse_mode {
                let col = cell_coord(x, info.cell_width);
                let row = cell_coord(y, info.cell_height);
                let mut commands: Vec<TermCommand> = Vec::new();
                commands.push(TermCommand::ReportMouse { col, row });
                proof {
                    assert(commands@ =~= seq![TermCommand::ReportMouse { col, row }]);
                }
                Response { status: Status::Ignored, commands, notices }
            } else {
                let mut commands: Vec<TermCommand> = Vec::new();
                match state.dragging {
                    Some(Dragging::Buffer) => {
                        let row = cell_coord(y, info.cell_height);
                        let col = cell_coord(x, info.cell_width);
                        let side = cell_side(x, info.cell_width);
                        commands.push(TermCommand::UpdateSelection { row, col, side });
                        commands.push(TermCommand::Redraw);
                        proof {
                            assert(commands@ =~= seq![
                                TermCommand::UpdateSelection { row, col, side },
                                TermCommand::Redraw,
                            ]);
                        }
                    },
                    Some(Dragging::Scrollbar { start_y, start_scroll }) => {
                        let offset = track_ratio(y - start_y as i64, info.buffer_height);
                        let target: i64 = start_scroll + offset;
                        commands.push(TermCommand::ScrollTo(target));
                        proof {
                            assert(commands@ =~= seq![TermCommand::ScrollTo(target)]);
                        }
                    },
                    None => {},
                }
                Response { status: Status::Captured, commands, notices }
            }
        },
        None => Response { status: Status::Ignored, commands: Vec::new(), notices },
    }
}

/// The contract of a wheel-scroll event.
///
/// Outside the widget nothing happens. In mouse-report mode the wheel event
/// is forwarded with its cell coordinates. Otherwise discrete line deltas
/// reset the pixel accumulator and scroll by six lines-equivalent per unit,
/// and pixel deltas feed the fractional accumulator as they are, measured
/// against the visual line height: whole lines are emitted only when the
/// accumulated total crosses one line height, and the sub-line leftover is
/// carried forward, so deltas summing to one line height scroll exactly one
/// line.
pub open spec fn wheel_post(
    cfg: TerminalBox,
    st0: State,
    info: TermInfo,
    delta: ScrollDelta,
    bounds: Rect,
    cursor: Option<Point>,
    r: Response,
    st1: State,
) -> bool {
    &&& r.notices@.len() == 0
    &&& match spec_position_in(cursor, bounds) {
        None => {
            &&& r.status == Status::Ignored
            &&& r.commands@.len() == 0
            &&& st1 == st0
        },
        Some(p) => {
            let x = p.x - cfg.padding.left;
            let y = p.y - cfg.padding.top;
            if info.is_mouse_mode {
                &&& r.status == Status::Ignored
                &&& r.commands@ == seq![
                    TermCommand::ReportScrollMouse {
                        col: spec_cell(x as int, info.cell_width as int) as u32,
                        row: spec_cell(y as int, info.cell_height as int) as u32,
                    },
                ]
                &&& st1 == st0
            } else {
                match delta {
                    ScrollDelta::Lines(dy) => {
                        let lines = -6 * dy;
                        &&& r.status == Status::Captured
                        &&& st1 == (State { scroll_pixels: 0, ..st0 })
                        &&& r.commands@ == (if lines != 0 {
                            seq![TermCommand::Scroll(TerminalScroll::Delta((-lines) as i32))]
                        } else {
                            Seq::empty()
                        })
                    },
                    ScrollDelta::Pixels(dy) => {
                        let total = st0.scroll_pixels - dy;
                        let lines = trunc_div(total, info.line_height as int);
                        &&& r.status == Status::Captured
                        &&& st1 == (State {
                            scroll_pixels: trunc_rem(total, info.line_height as int) as i32,
                            ..st0
                        })
                        &&& r.commands@ == (if lines != 0 {
                            seq![TermCommand::Scroll(TerminalScroll::Delta((-lines) as i32))]
                        } else {
                            Seq::empty()
                        })
                    },
                }
            }
        },
    }
}

/// Handles a scroll-wheel event.
pub fn handle_wheel(
    cfg: &TerminalBox,
    state: &mut State,
    info: &TermInfo,
    delta: ScrollDelta,
    bounds: Rect,
    cursor: &Option<Point>,
) -> (r: Response)
    requires
        cfg.wf(),
        info.wf(),
        bounds.spec_wf(),
        old(state).wf(),
        dragging_wf(*old(state)),
        wheel_delta_wf(delta),
    ensures
        wheel_post(*cfg, *old(state), *info, delta, bounds, *cursor, r, *final(state)),
        final(state).wf(),
        dragging_wf(*final(state)),
{
    let pos = position_in(cursor, bounds);
    match pos {
        None => Response::ignored(),
        Some(p) => {
            if info.is_mouse_mode {
                let x: i64 = p.x as i64 - cfg.padding.left as i64;
                let y: i64 = p.y as i64 - cfg.padding.top as i64;
                let col = cell_coord(x, info.cell_width);
                let row = cell_coord(y, info.cell_height);
                let mut commands: Vec<TermCommand> = Vec::new();
                commands.push(TermCommand::ReportScrollMouse { col, row });
                proof {
                    assert(commands@ =~= seq![TermCommand::ReportScrollMouse { col, row }]);
                }
                Response { status: Status::Ignored, commands, notices: Vec::new() }
            } else {
                match delta {
                    ScrollDelta::Lines(dy) => {
                        state.scroll_pixels = 0;
                        let scaled: i32 = 6 * dy;
                        let lines: i32 = -scaled;
                        let mut commands: Vec<TermCommand> = Vec::new();
                        if lines != 0 {
                            commands.push(
                                TermCommand::Scroll(TerminalScroll::Delta(-lines)),
                            );
                            proof {
                                assert(commands@ =~= seq![
                                    TermCommand::Scroll(TerminalScroll::Delta((-lines) as i32)),
                                ]);
                            }
                        }
                        Response { status: Status::Captured, commands, notices: Vec::new() }
                    },
                    ScrollDelta::Pixels(dy) => {
                        let lines = accumulate_scroll(
                            &mut state.scroll_pixels,
                            -dy,
                            info.line_height,
                        );
                        let mut commands: Vec<TermCommand> = Vec::new();
                        if lines != 0 {
                            commands.push(
                                TermCommand::Scroll(TerminalScroll::Delta(-lines)),
                            );
                            proof {
                                assert(commands@ =~= seq![
                                    TermCommand::Scroll(TerminalScroll::Delta((-lines) as i32)),
                                ]);
                            }
                        }
                        Response { status: Status::Captured, commands, notices: Vec::new() }
                    },
                }
            }
        },
    }
}

/// The contract of the whole event handler: each event kind behaves as its
/// per-event contract says; key presses require focus, and a modifier change
/// only updates the recorded modifier state.
pub open spec fn handle_event_post(
    cfg0: TerminalBox,
    st0: State,
    info: TermInfo,
    event: Event,
    bounds: Rect,
    cursor: Option<Point>,
    now: u64,
    r: Response,
    st1: State,
    cfg1: TerminalBox,
) -> bool {
    match event {
        Event::KeyPressed { key, text, modifiers } => {
            &&& cfg1 == cfg0
            &&& if !st0.is_focused {
                &&& r.status == Status::Ignored
                &&& r.commands@.len() == 0
                &&& r.notices@.len() == 0
                &&& st1 == st0
            } else {
                match key {
                    Key::Named(named) => key_named_post(
                        cfg0.key_binds@,
                        st0,
                        info,
                        named,
                        modifiers,
                        r,
                        st1,
                    ),
                    Key::Character(_) => key_char_post(
                        cfg0.key_binds@,
                        st0,
                        key,
                        text,
                        modifiers,
                        r,
                        st1,
                    ),
                }
            }
        },
        Event::ModifiersChanged(m) => {
            &&& cfg1 == cfg0
            &&& st1 == (State { modifiers: m, ..st0 })
            &&& r.status == Status::Ignored
            &&& r.commands@.len() == 0
            &&& r.notices@.len() == 0
        },
        Event::ButtonPressed(button) => {
            &&& cfg1 == cfg0
            &&& button_pressed_post(cfg0, st0, info, button, bounds, cursor, now, r, st1)
        },
        Event::ButtonReleased(button) => {
            &&& cfg1 == cfg0
            &&& button_released_post(cfg0, st0, info, button, bounds, cursor, r, st1)
        },
        Event::CursorMoved => cursor_moved_post(cfg0, st0, info, bounds, cursor, r, st1, cfg1),
        Event::WheelScrolled(delta) => {
            &&& cfg1 == cfg0
            &&& wheel_post(cfg0, st0, info, delta, bounds, cursor, r, st1)
        },
    }
}

/// Translates one host UI event against the current widget state and engine
/// snapshot into a status, terminal commands and host notices.
///
/// `bounds` is the widget's layout rectangle, `cursor` the absolute pointer
/// position when known, and `now_ms` the host's monotonic clock reading in
/// milliseconds, used only for the multi-click window.
pub fn handle_event(
    cfg: &mut TerminalBox,
    state: &mut State,
    info: &TermInfo,
    event: &Event,
    bounds: Rect,
    cursor: &Option<Point>,
    now_ms: u64,
) -> (r: Response)
    requires
        old(cfg).wf(),
        old(state).wf(),
        info.wf(),
        bounds.spec_wf(),
        scrollbar_wf(*info),
        dragging_wf(*old(state)),
        event_wf(*event),
    ensures
        handle_event_post(*old(cfg), *old(state), *info, *event, bounds, *cursor,
            now_ms, r, *final(state), *final(cfg)),
        final(state).wf(),
        dragging_wf(*final(state)),
        final(cfg).wf(),
{
    match event {
        Event::KeyPressed { key, text, modifiers } => {
            if !state.is_focused() {
                Response::ignored()
            } else {
                match key {
                    Key::Named(named) => handle_key_named(
                        &cfg.key_binds,
                        state,
                        info,
                        *named,
                        *modifiers,
                    ),
                    Key::Character(_) => handle_key_char(
                        &cfg.key_binds,
                        state,
                        *key,
                        *text,
                        *modifiers,
                    ),
                }
            }
        },
        Event::ModifiersChanged(m) => {
            state.modifiers = *m;
            Response::ignored()
        },
        Event::ButtonPressed(button) => handle_button_pressed(
            cfg,
            state,
            info,
            *button,
            bounds,
            cursor,
            now_ms,
        ),
        Event::ButtonReleased(button) => handle_button_released(
            cfg,
            state,
            info,
            *button,
            bounds,
            cursor,
        ),
        Event::CursorMoved => handle_cursor_moved(cfg, state, info, bounds, cursor),
        Event::WheelScrolled(delta) => handle_wheel(cfg, state, info, *delta, bounds, cursor),
    }
}


/// What the pointer cursor should look like over the widget.
#[derive(Clone, Copy, Debug, PartialEq, Eq, Structural)]
pub enum MouseInteraction {
    Idle,
    Text,
}

/// Chooses the pointer cursor: the plain pointer while dragging the
/// scrollbar, the text cursor over the laid-out text area, and the plain
/// pointer elsewhere.
pub fn mouse_interaction(
    cfg: &TerminalBox,
    state: &State,
    info: &TermInfo,
    bounds: Rect,
    cursor: &Option<Point>,
) -> (r: MouseInteraction)
    requires
        cfg.wf(),
        info.wf(),
        bounds.spec_wf(),
    ensures
        r == (if state.dragging matches Some(Dragging::Scrollbar { .. }) {
            MouseInteraction::Idle
        } else {
            match spec_position_in(*cursor, bounds) {
                Some(p) => {
                    let x = p.x - cfg.padding.left;
                    let y = p.y - cfg.padding.top;
                    if 0 <= x < info.buffer_width && 0 <= y < info.buffer_height {
                        MouseInteraction::Text
                    } else {
                        MouseInteraction::Idle
                    }
                },
                None => MouseInteraction::Idle,
            }
        }),
{
    match state.dragging {
        Some(Dragging::Scrollbar { .. }) => {
            return MouseInteraction::Idle;
        },
        _ => {},
    }
    match position_in(cursor, bounds) {
        Some(p) => {
            let x: i64 = p.x as i64 - cfg.padding.left as i64;
            let y: i64 = p.y as i64 - cfg.padding.top as i64;
            if 0 <= x && x < info.buffer_width as i64 && 0 <= y && y < info.buffer_height as i64 {
                MouseInteraction::Text
            } else {
                MouseInteraction::Idle
            }
        },
        None => MouseInteraction::Idle,
    }
}

/// The intrinsic content height of the laid-out buffer: the number of layout
/// lines times the line height. The widget itself always fills the space it
/// is given; the host uses this height for scroll extents.
pub fn content_height(layout_lines: u32, line_height: i32) -> (h: i64)
    requires
        0 < line_height <= 0x1000_0000,
    ensures
        h == layout_lines * line_height,
{
    proof {
        assert(0 <= layout_lines as int * line_height as int <= 0x100000000 * 0x1000_0000)
            by (nonlinear_arith)
            requires
                0 <= (layout_lines as int) < 0x100000000,
                0 < (line_height as int) <= 0x1000_0000,
        ;
    }
    layout_lines as i64 * line_height as i64
}

} // verus!
