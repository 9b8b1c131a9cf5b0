//! Plain-value commands and geometry shared by the input translator and the
//! renderer.
//!
//! The surface engine does not own the terminal state: it consumes events and
//! emits these commands, and the host applies them to its terminal-state
//! engine and pty.

use vstd::prelude::*;

verus! {

/// Whether an event was consumed by the widget or left for others.
#[derive(Clone, Copy, Debug, PartialEq, Eq, Structural)]
pub enum Status {
    Ignored,
    Captured,
}

/// A local scroll request for the terminal-state engine.
#[derive(Clone, Copy, Debug, PartialEq, Eq, Structural)]
pub enum TerminalScroll {
    PageUp,
    PageDown,
    Top,
    Bottom,
    /// Scroll by this many lines; positive moves the view up into scrollback.
    Delta(i32),
}

/// Selection granularity, chosen by click multiplicity.
#[derive(Clone, Copy, Debug, PartialEq, Eq, Structural)]
pub enum SelectionKind {
    Simple,
    Semantic,
    Lines,
}

/// Which half of a cell the pointer landed in.
#[derive(Clone, Copy, Debug, PartialEq, Eq, Structural)]
pub enum Side {
    Left,
    Right,
}

/// A position in device units, relative to the widget content origin.
#[derive(Clone, Copy, Debug, PartialEq, Eq, Structural)]
pub struct Point {
    pub x: i32,
    pub y: i32,
}

/// An axis-aligned rectangle in device units.
#[derive(Clone, Copy, Debug, PartialEq, Eq, Structural)]
pub struct Rect {
    pub x: i32,
    pub y: i32,
    pub width: i32,
    pub height: i32,
}

impl Rect {
    /// The empty rectangle at the origin.
    pub fn zero() -> (r: Rect)
        ensures
            r == (Rect { x: 0, y: 0, width: 0, height: 0 }),
    {
        Rect { x: 0, y: 0, width: 0, height: 0 }
    }

    /// Whether `p` lies inside the rectangle.
    pub open spec fn spec_contains(self, p: Point) -> bool {
        self.x <= p.x < self.x + self.width && self.y <= p.y < self.y + self.height
    }

    /// Point-in-rectangle test, matching `spec_contains`.
    pub fn contains(&self, p: Point) -> (r: bool)
        ensures
            r == self.spec_contains(p),
    {
        self.x <= p.x && (p.x as i64) < self.x as i64 + self.width as i64 && self.y <= p.y && (
        p.y as i64) < self.y as i64 + self.height as i64
    }
}

/// A command for the host to apply to its terminal-state engine or pty.
///
/// `Input` bytes go to the pty write side; the selection commands mutate the
/// engine's selection object; `ScrollTo` takes an absolute scroll fraction in
/// millionths (the engine clamps it to its own range); the report commands
/// hand a pointer event to the engine's mouse-report encoder together with
/// the zero-based cell coordinates already computed by this engine.
#[derive(Clone, Debug, PartialEq, Eq)]
pub enum TermCommand {
    Input(Vec<u8>),
    Scroll(TerminalScroll),
    ScrollTo(i64),
    StartSelection { kind: SelectionKind, row: u32, col: u32, side: Side },
    UpdateSelection { row: u32, col: u32, side: Side },
    ClearSelection,
    ReportMouse { col: u32, row: u32 },
    ReportScrollMouse { col: u32, row: u32 },
    /// The grid changed in a way the renderer must pick up next frame.
    Redraw,
}

/// A notification for the host application, outside the terminal engine.
#[derive(Clone, Copy, Debug, PartialEq, Eq, Structural)]
pub enum HostNotice {
    MiddleClick,
    /// Open the context menu at the position, or close it when `ContextMenuClose`.
    ContextMenuOpen(Point),
    ContextMenuClose,
    MouseEnter,
}

} // verus!
