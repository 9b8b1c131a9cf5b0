//! A terminal surface engine: translates keyboard, mouse and scroll events
//! into the byte sequences of a VT100/xterm-compatible control protocol and
//! into local commands for an external terminal-state engine, and renders a
//! styled character grid (backgrounds, decorations, cursor, scrollbar) as a
//! list of plain drawing commands.

pub mod action;
pub mod args;
pub mod color;
pub mod commands;
pub mod config;
pub mod interaction;
pub mod keyboard;
pub mod profile;
pub mod registry;
pub mod render;
pub mod scheme;
pub mod translator;

pub use action::Action;
pub use action::AppTheme;
pub use action::ContextPage;
pub use args::ParsedArgs;
pub use args::parse_args;
pub use color::Rgba;
pub use color::shade;
pub use commands::HostNotice;
pub use commands::Point;
pub use commands::Rect;
pub use commands::SelectionKind;
pub use commands::Side;
pub use commands::Status;
pub use commands::TermCommand;
pub use commands::TerminalScroll;
pub use config::Config;
pub use config::FontStretch;
pub use config::Metrics;
pub use interaction::ClickKind;
pub use interaction::Dragging;
pub use interaction::State;
pub use interaction::accumulate_scroll;
pub use interaction::next_click_kind;
pub use keyboard::Key;
pub use keyboard::KeyBind;
pub use keyboard::Modifiers;
pub use keyboard::NamedKey;
pub use keyboard::calculate_modifier_number;
pub use keyboard::csi;
pub use keyboard::csi2;
pub use keyboard::ss3;
pub use profile::Profile;
pub use profile::ProfileId;
pub use registry::FLAG_DASHED_UNDERLINE;
pub use registry::FLAG_DOTTED_UNDERLINE;
pub use registry::FLAG_DOUBLE_UNDERLINE;
pub use registry::FLAG_STRIKEOUT;
pub use registry::FLAG_UNDERCURL;
pub use registry::FLAG_UNDERLINE;
pub use registry::Metadata;
pub use registry::MetadataRegistry;
pub use render::CursorInfo;
pub use render::CursorShape;
pub use render::DrawCommand;
pub use render::Frame;
pub use render::Glyph;
pub use render::LayoutRun;
pub use render::ScrollbarTheme;
pub use render::render;
pub use scheme::ColorScheme;
pub use scheme::ColorSchemeAnsi;
pub use scheme::ColorSchemeId;
pub use scheme::ColorSchemeKind;
pub use translator::Border;
pub use translator::Button;
pub use translator::Event;
pub use translator::MouseInteraction;
pub use translator::Padding;
pub use translator::Response;
pub use translator::ScrollDelta;
pub use translator::TermInfo;
pub use translator::TerminalBox;
pub use translator::content_height;
pub use translator::handle_event;
pub use translator::terminal_box;
pub use translator::mouse_interaction;
