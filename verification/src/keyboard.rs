//! The keyboard side of the terminal protocol: xterm modifier numbers and the
//! `CSI`/`SS3` escape-sequence encoders for named keys.

use vstd::prelude::*;
use vstd::arithmetic::div_mod::lemma_div_denominator;

use crate::commands::TerminalScroll;

verus! {

/// The keyboard modifier flags that matter to the terminal protocol.
#[derive(Clone, Copy, Debug, PartialEq, Eq, Structural)]
pub struct Modifiers {
    pub shift: bool,
    pub alt: bool,
    pub ctrl: bool,
    pub logo: bool,
}

impl Modifiers {
    /// The modifier state with no key held.
    pub fn empty() -> (r: Modifiers)
        ensures
            r == (Modifiers { shift: false, alt: false, ctrl: false, logo: false }),
    {
        Modifiers { shift: false, alt: false, ctrl: false, logo: false }
    }
}

/// The xterm modifier parameter for a modifier state:
/// `1 + shift*1 + alt*2 + ctrl*4 + logo*8`.
pub open spec fn spec_modifier_number(m: Modifiers) -> int {
    1 + (if m.shift { 1int } else { 0 }) + (if m.alt { 2int } else { 0 })
        + (if m.ctrl { 4int } else { 0 }) + (if m.logo { 8int } else { 0 })
}

/// Computes the xterm modifier parameter sent in `;<mod>` segments of
/// escape sequences.
pub fn calculate_modifier_number(m: &Modifiers) -> (n: u8)
    ensures
        n == spec_modifier_number(*m),
        1 <= n <= 16,
{
    let mut n: u8 = 0;
    if m.shift {
        n += 1;
    }
    if m.alt {
        n += 2;
    }
    if m.ctrl {
        n += 4;
    }
    if m.logo {
        n += 8;
    }
    n + 1
}

/// The ASCII decimal digits of a non-negative number, most significant first.
pub open spec fn dec_digits(n: int) -> Seq<u8>
    decreases n,
{
    if n < 10 {
        seq![(0x30 + n) as u8]
    } else {
        dec_digits(n / 10).push((0x30 + n % 10) as u8)
    }
}

/// Appends the decimal digits of `n` to `v`.
fn push_dec_u8(v: &mut Vec<u8>, n: u8)
    ensures
        final(v)@ == old(v)@ + dec_digits(n as int),
{
    let ghost m = n as int;
    if n >= 100 {
        v.push(0x30 + n / 100);
    }
    if n >= 10 {
        v.push(0x30 + (n / 10) % 10);
    }
    v.push(0x30 + n % 10);
    proof {
        if m < 10 {
            assert(dec_digits(m) == seq![(0x30 + m) as u8]);
        } else if m < 100 {
            assert(dec_digits(m) == dec_digits(m / 10).push((0x30 + m % 10) as u8));
            assert(dec_digits(m / 10) == seq![(0x30 + m / 10) as u8]);
            assert((m / 10) % 10 == m / 10);
        } else {
            lemma_div_denominator(m, 10, 10);
            assert(dec_digits(m) == dec_digits(m / 10).push((0x30 + m % 10) as u8));
            assert(dec_digits(m / 10) == dec_digits(m / 10 / 10).push(
                (0x30 + (m / 10) % 10) as u8,
            ));
            assert(dec_digits(m / 100) == seq![(0x30 + m / 100) as u8]);
        }
        assert(v@ =~= old(v)@ + dec_digits(m));
    }
}

/// The escape byte.
pub const ESC: u8 = 0x1B;

/// `CSI <code> <suffix>`, or `CSI <code> ; <mod> <suffix>` when the modifier
/// number is not 1: the encoding of the tilde-coded named keys (Insert,
/// Delete, PageUp/Down, F5-F12).
pub open spec fn spec_csi(code: int, suffix: u8, modifiers: int) -> Seq<u8> {
    if modifiers == 1 {
        seq![ESC, 0x5Bu8] + dec_digits(code) + seq![suffix]
    } else {
        seq![ESC, 0x5Bu8] + dec_digits(code) + seq![0x3Bu8] + dec_digits(modifiers)
            + seq![suffix]
    }
}

/// Encodes a tilde-coded named key. The `;<mod>` segment is omitted exactly
/// when the modifier number is 1.
pub fn csi(code: u8, suffix: u8, modifiers: u8) -> (r: Option<Vec<u8>>)
    ensures
        r matches Some(b) && b@ == spec_csi(code as int, suffix, modifiers as int),
{
    let mut b: Vec<u8> = Vec::new();
    b.push(ESC);
    b.push(0x5B);
    push_dec_u8(&mut b, code);
    if modifiers != 1 {
        b.push(0x3B);
        push_dec_u8(&mut b, modifiers);
    }
    b.push(suffix);
    proof {
        assert(b@ =~= spec_csi(code as int, suffix, modifiers as int));
    }
    Some(b)
}

/// `CSI <letter>`, or `CSI 1 ; <mod> <letter>` when the modifier number is
/// not 1: the encoding of the letter-coded navigation keys when
/// application-cursor mode is off.
pub open spec fn spec_csi2(code: u8, modifiers: int) -> Seq<u8> {
    if modifiers == 1 {
        seq![ESC, 0x5Bu8, code]
    } else {
        seq![ESC, 0x5Bu8, 0x31u8, 0x3Bu8] + dec_digits(modifiers) + seq![code]
    }
}

/// Encodes a letter-coded navigation key (`CSI` form). The `1;<mod>` segment
/// is omitted exactly when the modifier number is 1.
pub fn csi2(code: u8, modifiers: u8) -> (r: Option<Vec<u8>>)
    ensures
        r matches Some(b) && b@ == spec_csi2(code, modifiers as int),
{
    let mut b: Vec<u8> = Vec::new();
    b.push(ESC);
    b.push(0x5B);
    if modifiers != 1 {
        b.push(0x31);
        b.push(0x3B);
        push_dec_u8(&mut b, modifiers);
    }
    b.push(code);
    proof {
        assert(b@ =~= spec_csi2(code, modifiers as int));
    }
    Some(b)
}

/// `SS3 <letter>`, or `CSI 1 ; <mod> <letter>` when the modifier number is
/// not 1: the encoding of the navigation keys in application-cursor mode and
/// of F1-F4.
pub open spec fn spec_ss3(code: u8, modifiers: int) -> Seq<u8> {
    if modifiers == 1 {
        seq![ESC, 0x4Fu8, code]
    } else {
        seq![ESC, 0x5Bu8, 0x31u8, 0x3Bu8] + dec_digits(modifiers) + seq![code]
    }
}

/// Encodes a navigation key in the `SS3` form, falling back to the `CSI
/// 1;<mod>` form when any modifier is held.
pub fn ss3(code: u8, modifiers: u8) -> (r: Option<Vec<u8>>)
    ensures
        r matches Some(b) && b@ == spec_ss3(code, modifiers as int),
{
    if modifiers == 1 {
        let mut b: Vec<u8> = Vec::new();
        b.push(ESC);
        b.push(0x4F);
        b.push(code);
        proof {
            assert(b@ =~= spec_ss3(code, modifiers as int));
        }
        Some(b)
    } else {
        let mut b: Vec<u8> = Vec::new();
        b.push(ESC);
        b.push(0x5B);
        b.push(0x31);
        b.push(0x3B);
        push_dec_u8(&mut b, modifiers);
        b.push(code);
        proof {
            assert(b@ =~= spec_ss3(code, modifiers as int));
        }
        Some(b)
    }
}


/// The named keys this engine translates; everything else is `Other`.
#[derive(Clone, Copy, Debug, PartialEq, Eq, Structural)]
pub enum NamedKey {
    Insert,
    Delete,
    PageUp,
    PageDown,
    ArrowUp,
    ArrowDown,
    ArrowRight,
    ArrowLeft,
    End,
    Home,
    F1,
    F2,
    F3,
    F4,
    F5,
    F6,
    F7,
    F8,
    F9,
    F10,
    F11,
    F12,
    Backspace,
    Enter,
    Escape,
    Space,
    Tab,
    Other,
}

/// A pressed key: a named key or a character key.
#[derive(Clone, Copy, Debug, PartialEq, Eq, Structural)]
pub enum Key {
    Named(NamedKey),
    Character(char),
}

/// One accelerator binding of the host's key-binding registry: a modifier
/// state together with a key. A pressed key that matches a binding is
/// consumed locally and never forwarded to the pty.
#[derive(Clone, Copy, Debug, PartialEq, Eq, Structural)]
pub struct KeyBind {
    pub modifiers: Modifiers,
    pub key: Key,
}

impl KeyBind {
    /// Whether this binding matches the pressed key with the given modifiers.
    pub fn matches(&self, m: Modifiers, key: &Key) -> (r: bool)
        ensures
            r == (self.modifiers == m && self.key == *key),
    {
        self.modifiers == m && self.key == *key
    }
}

/// Whether any binding in the registry matches the pressed key.
pub fn any_key_bind_matches(binds: &Vec<KeyBind>, m: Modifiers, key: &Key) -> (r: bool)
    ensures
        r == exists|i: int|
            0 <= i < binds@.len() && binds@[i].modifiers == m && binds@[i].key == *key,
{
    let mut idx: usize = 0;
    while idx < binds.len()
        invariant
            0 <= idx <= binds@.len(),
            forall|j: int|
                0 <= j < idx ==> !(binds@[j].modifiers == m && binds@[j].key == *key),
        decreases binds@.len() - idx,
    {
        if binds[idx].matches(m, key) {
            return true;
        }
        idx += 1;
    }
    false
}

/// Whether `c` is a Unicode control character (category Cc): the C0 range,
/// DEL, and the C1 range.
pub open spec fn spec_is_control(c: char) -> bool {
    (c as u32) < 0x20 || (0x7F <= (c as u32) < 0xA0)
}

/// Control-character test, matching the Unicode Cc category.
pub fn is_control_char(c: char) -> (r: bool)
    ensures
        r == spec_is_control(c),
{
    let u = c as u32;
    u < 0x20 || (0x7F <= u && u < 0xA0)
}

/// The UTF-8 encoding of the Unicode scalar value `u`.
pub open spec fn utf8_bytes(u: int) -> Seq<u8> {
    if u < 0x80 {
        seq![u as u8]
    } else if u < 0x800 {
        seq![(0xC0 + u / 64) as u8, (0x80 + u % 64) as u8]
    } else if u < 0x10000 {
        seq![(0xE0 + u / 4096) as u8, (0x80 + (u / 64) % 64) as u8, (0x80 + u % 64) as u8]
    } else {
        seq![
            (0xF0 + u / 262144) as u8,
            (0x80 + (u / 4096) % 64) as u8,
            (0x80 + (u / 64) % 64) as u8,
            (0x80 + u % 64) as u8,
        ]
    }
}

/// Appends the UTF-8 encoding of `c` to `v`.
pub fn push_utf8(v: &mut Vec<u8>, c: char)
    ensures
        final(v)@ == old(v)@ + utf8_bytes(c as int),
{
    let u = c as u32;
    if u < 0x80 {
        v.push(u as u8);
    } else if u < 0x800 {
        v.push(0xC0 + (u / 64) as u8);
        v.push(0x80 + (u % 64) as u8);
    } else if u < 0x10000 {
        v.push(0xE0 + (u / 4096) as u8);
        v.push(0x80 + ((u / 64) % 64) as u8);
        v.push(0x80 + (u % 64) as u8);
    } else {
        v.push(0xF0 + (u / 262144) as u8);
        v.push(0x80 + ((u / 4096) % 64) as u8);
        v.push(0x80 + ((u / 64) % 64) as u8);
        v.push(0x80 + (u % 64) as u8);
    }
    proof {
        assert(v@ =~= old(v)@ + utf8_bytes(c as int));
    }
}

/// The outcome of translating a key event, at the specification level: bytes
/// for the pty, a local scroll, a local selection clear, or nothing.
pub enum SpecKeyAction {
    Bytes(Seq<u8>),
    Scroll(TerminalScroll),
    ClearSelection,
    Nothing,
}

/// The outcome of the named-key escape table: bytes, a local scroll, or a
/// fall-through to the legacy single-byte keys.
#[derive(Clone, Debug, PartialEq, Eq)]
pub enum NamedEscape {
    Bytes(Vec<u8>),
    Scroll(TerminalScroll),
    Unhandled,
}

/// Relates an executable `NamedEscape` to its specification value.
pub open spec fn escape_models(r: NamedEscape, s: SpecKeyAction) -> bool {
    match r {
        NamedEscape::Bytes(b) => s matches SpecKeyAction::Bytes(sb) && b@ == sb,
        NamedEscape::Scroll(x) => s matches SpecKeyAction::Scroll(y) && x == y,
        NamedEscape::Unhandled => s is Nothing,
    }
}

/// The escape-sequence table for named keys.
///
/// Shift+PageUp/PageDown/Home/End are intercepted as local scroll actions.
/// The navigation keys use the `SS3` form in application-cursor mode and the
/// `CSI` letter form otherwise; Insert, Delete, PageUp/Down and F5-F12 use
/// the tilde form; F1-F4 always use the `SS3` form. Keys outside the table
/// fall through to the legacy encoding.
pub open spec fn spec_named_escape(
    named: NamedKey,
    shift: bool,
    is_app_cursor: bool,
    mod_no: int,
) -> SpecKeyAction {
    let arrow = |code: u8|
        if is_app_cursor {
            SpecKeyAction::Bytes(spec_ss3(code, mod_no))
        } else {
            SpecKeyAction::Bytes(spec_csi2(code, mod_no))
        };
    match named {
        NamedKey::Insert => SpecKeyAction::Bytes(spec_csi(2, 0x7E, mod_no)),
        NamedKey::Delete => SpecKeyAction::Bytes(spec_csi(3, 0x7E, mod_no)),
        NamedKey::PageUp => if shift {
            SpecKeyAction::Scroll(TerminalScroll::PageUp)
        } else {
            SpecKeyAction::Bytes(spec_csi(5, 0x7E, mod_no))
        },
        NamedKey::PageDown => if shift {
            SpecKeyAction::Scroll(TerminalScroll::PageDown)
        } else {
            SpecKeyAction::Bytes(spec_csi(6, 0x7E, mod_no))
        },
        NamedKey::ArrowUp => arrow(0x41),
        NamedKey::ArrowDown => arrow(0x42),
        NamedKey::ArrowRight => arrow(0x43),
        NamedKey::ArrowLeft => arrow(0x44),
        NamedKey::End => if shift {
            SpecKeyAction::Scroll(TerminalScroll::Bottom)
        } else {
            arrow(0x46)
        },
        NamedKey::Home => if shift {
            SpecKeyAction::Scroll(TerminalScroll::Top)
        } else {
            arrow(0x48)
        },
        NamedKey::F1 => SpecKeyAction::Bytes(spec_ss3(0x50, mod_no)),
        NamedKey::F2 => SpecKeyAction::Bytes(spec_ss3(0x51, mod_no)),
        NamedKey::F3 => SpecKeyAction::Bytes(spec_ss3(0x52, mod_no)),
        NamedKey::F4 => SpecKeyAction::Bytes(spec_ss3(0x53, mod_no)),
        NamedKey::F5 => SpecKeyAction::Bytes(spec_csi(15, 0x7E, mod_no)),
        NamedKey::F6 => SpecKeyAction::Bytes(spec_csi(17, 0x7E, mod_no)),
        NamedKey::F7 => SpecKeyAction::Bytes(spec_csi(18, 0x7E, mod_no)),
        NamedKey::F8 => SpecKeyAction::Bytes(spec_csi(19, 0x7E, mod_no)),
        NamedKey::F9 => SpecKeyAction::Bytes(spec_csi(20, 0x7E, mod_no)),
        NamedKey::F10 => SpecKeyAction::Bytes(spec_csi(21, 0x7E, mod_no)),
        NamedKey::F11 => SpecKeyAction::Bytes(spec_csi(23, 0x7E, mod_no)),
        NamedKey::F12 => SpecKeyAction::Bytes(spec_csi(24, 0x7E, mod_no)),
        _ => SpecKeyAction::Nothing,
    }
}

/// Encodes a named key through the escape-sequence table.
pub fn named_key_escape(named: NamedKey, shift: bool, is_app_cursor: bool, mod_no: u8) -> (r:
    NamedEscape)
    ensures
        escape_models(r, spec_named_escape(named, shift, is_app_cursor, mod_no as int)),
{
    let code = match named {
        NamedKey::Insert => csi(2, 0x7E, mod_no),
        NamedKey::Delete => csi(3, 0x7E, mod_no),
        NamedKey::PageUp => {
            if shift {
                return NamedEscape::Scroll(TerminalScroll::PageUp);
            } else {
                csi(5, 0x7E, mod_no)
            }
        },
        NamedKey::PageDown => {
            if shift {
                return NamedEscape::Scroll(TerminalScroll::PageDown);
            } else {
                csi(6, 0x7E, mod_no)
            }
        },
        NamedKey::ArrowUp => {
            if is_app_cursor {
                ss3(0x41, mod_no)
            } else {
                csi2(0x41, mod_no)
            }
        },
        NamedKey::ArrowDown => {
            if is_app_cursor {
                ss3(0x42, mod_no)
            } else {
                csi2(0x42, mod_no)
            }
        },
        NamedKey::ArrowRight => {
            if is_app_cursor {
                ss3(0x43, mod_no)
            } else {
                csi2(0x43, mod_no)
            }
        },
        NamedKey::ArrowLeft => {
            if is_app_cursor {
                ss3(0x44, mod_no)
            } else {
                csi2(0x44, mod_no)
            }
        },
        NamedKey::End => {
            if shift {
                return NamedEscape::Scroll(TerminalScroll::Bottom);
            } else if is_app_cursor {
                ss3(0x46, mod_no)
            } else {
                csi2(0x46, mod_no)
            }
        },
        NamedKey::Home => {
            if shift {
                return NamedEscape::Scroll(TerminalScroll::Top);
            } else if is_app_cursor {
                ss3(0x48, mod_no)
            } else {
                csi2(0x48, mod_no)
            }
        },
        NamedKey::F1 => ss3(0x50, mod_no),
        NamedKey::F2 => ss3(0x51, mod_no),
        NamedKey::F3 => ss3(0x52, mod_no),
        NamedKey::F4 => ss3(0x53, mod_no),
        NamedKey::F5 => csi(15, 0x7E, mod_no),
        NamedKey::F6 => csi(17, 0x7E, mod_no),
        NamedKey::F7 => csi(18, 0x7E, mod_no),
        NamedKey::F8 => csi(19, 0x7E, mod_no),
        NamedKey::F9 => csi(20, 0x7E, mod_no),
        NamedKey::F10 => csi(21, 0x7E, mod_no),
        NamedKey::F11 => csi(23, 0x7E, mod_no),
        NamedKey::F12 => csi(24, 0x7E, mod_no),
        _ => None,
    };
    match code {
        Some(b) => NamedEscape::Bytes(b),
        None => NamedEscape::Unhandled,
    }
}

/// `ESC` when Alt is held, else nothing: the legacy Alt prefix.
pub open spec fn alt_prefix(m: Modifiers) -> Seq<u8> {
    if m.alt {
        seq![ESC]
    } else {
        Seq::empty()
    }
}

/// The legacy encoding of Enter, Backspace, Escape, Space and Tab, each
/// optionally prefixed with `ESC` when Alt is held. Backspace sends DEL, or
/// BS with Ctrl; Enter sends CR; Tab sends HT, or `CSI Z` with Shift; Escape
/// clears an active selection locally instead of sending anything.
pub open spec fn spec_legacy_key(named: NamedKey, m: Modifiers, selection_active: bool) ->
    SpecKeyAction {
    match named {
        NamedKey::Backspace => SpecKeyAction::Bytes(
            alt_prefix(m) + seq![if m.ctrl { 0x08u8 } else { 0x7Fu8 }],
        ),
        NamedKey::Enter => SpecKeyAction::Bytes(alt_prefix(m) + seq![0x0Du8]),
        NamedKey::Escape => if selection_active {
            SpecKeyAction::ClearSelection
        } else {
            SpecKeyAction::Bytes(alt_prefix(m) + seq![0x1Bu8])
        },
        NamedKey::Space => SpecKeyAction::Bytes(alt_prefix(m) + seq![0x20u8]),
        NamedKey::Tab => if m.shift {
            SpecKeyAction::Bytes(alt_prefix(m) + seq![0x1Bu8, 0x5Bu8, 0x5Au8])
        } else {
            SpecKeyAction::Bytes(alt_prefix(m) + seq![0x09u8])
        },
        _ => SpecKeyAction::Nothing,
    }
}

/// The outcome of the legacy key table.
#[derive(Clone, Debug, PartialEq, Eq)]
pub enum LegacyAction {
    Bytes(Vec<u8>),
    ClearSelection,
    Unhandled,
}

/// Relates an executable `LegacyAction` to its specification value.
pub open spec fn legacy_models(r: LegacyAction, s: SpecKeyAction) -> bool {
    match r {
        LegacyAction::Bytes(b) => s matches SpecKeyAction::Bytes(sb) && b@ == sb,
        LegacyAction::ClearSelection => s is ClearSelection,
        LegacyAction::Unhandled => s is Nothing,
    }
}

/// Encodes the legacy keys (Enter, Backspace, Escape, Space, Tab).
pub fn legacy_key(named: NamedKey, m: Modifiers, selection_active: bool) -> (r: LegacyAction)
    ensures
        legacy_models(r, spec_legacy_key(named, m, selection_active)),
{
    let mut b: Vec<u8> = Vec::new();
    if m.alt {
        b.push(ESC);
    }
    match named {
        NamedKey::Backspace => {
            if m.ctrl {
                b.push(0x08);
            } else {
                b.push(0x7F);
            }
            proof {
                assert(b@ =~= alt_prefix(m) + seq![if m.ctrl { 0x08u8 } else { 0x7Fu8 }]);
            }
            LegacyAction::Bytes(b)
        },
        NamedKey::Enter => {
            b.push(0x0D);
            proof {
                assert(b@ =~= alt_prefix(m) + seq![0x0Du8]);
            }
            LegacyAction::Bytes(b)
        },
        NamedKey::Escape => {
            if selection_active {
                LegacyAction::ClearSelection
            } else {
                b.push(0x1B);
                proof {
                    assert(b@ =~= alt_prefix(m) + seq![0x1Bu8]);
                }
                LegacyAction::Bytes(b)
            }
        },
        NamedKey::Space => {
            b.push(0x20);
            proof {
                assert(b@ =~= alt_prefix(m) + seq![0x20u8]);
            }
            LegacyAction::Bytes(b)
        },
        NamedKey::Tab => {
            if m.shift {
                b.push(0x1B);
                b.push(0x5B);
                b.push(0x5A);
                proof {
                    assert(b@ =~= alt_prefix(m) + seq![0x1Bu8, 0x5Bu8, 0x5Au8]);
                }
            } else {
                b.push(0x09);
                proof {
                    assert(b@ =~= alt_prefix(m) + seq![0x09u8]);
                }
            }
            LegacyAction::Bytes(b)
        },
        _ => LegacyAction::Unhandled,
    }
}

/// The bytes sent for a character key, or nothing when the combination is
/// suppressed.
///
/// The Logo/Super modifier alone suppresses input; Ctrl+Alt and Alt alone
/// prefix the character with `ESC`; Ctrl alone passes only characters that
/// are already control characters; Ctrl+Shift on the underscore key sends US
/// (0x1F), the xterm convention for Ctrl+Underscore; otherwise non-control
/// characters pass through UTF-8 encoded.
pub open spec fn spec_char_bytes(c: char, key_is_underscore: bool, m: Modifiers) -> Option<
    Seq<u8>,
> {
    if m.logo {
        None
    } else if m.ctrl && m.alt {
        if !spec_is_control(c) || (c as u32) < 32 {
            Some(seq![ESC] + utf8_bytes(c as int))
        } else {
            None
        }
    } else if m.ctrl && !m.shift {
        if spec_is_control(c) {
            Some(utf8_bytes(c as int))
        } else {
            None
        }
    } else if m.ctrl && m.shift {
        if key_is_underscore {
            Some(seq![0x1Fu8])
        } else {
            None
        }
    } else if m.alt {
        if !spec_is_control(c) {
            Some(seq![ESC] + utf8_bytes(c as int))
        } else {
            None
        }
    } else {
        if !spec_is_control(c) {
            Some(utf8_bytes(c as int))
        } else {
            None
        }
    }
}

/// Encodes a character key press.
pub fn encode_character(c: char, key_is_underscore: bool, m: Modifiers) -> (r: Option<Vec<u8>>)
    ensures
        match spec_char_bytes(c, key_is_underscore, m) {
            Some(sb) => r matches Some(b) && b@ == sb,
            None => r is None,
        },
{
    let mut b: Vec<u8> = Vec::new();
    if m.logo {
        None
    } else if m.ctrl && m.alt {
        if !is_control_char(c) || (c as u32) < 32 {
            b.push(ESC);
            push_utf8(&mut b, c);
            proof {
                assert(b@ =~= seq![ESC] + utf8_bytes(c as int));
            }
            Some(b)
        } else {
            None
        }
    } else if m.ctrl && !m.shift {
        if is_control_char(c) {
            push_utf8(&mut b, c);
            Some(b)
        } else {
            None
        }
    } else if m.ctrl && m.shift {
        if key_is_underscore {
            b.push(0x1F);
            proof {
                assert(b@ =~= seq![0x1Fu8]);
            }
            Some(b)
        } else {
            None
        }
    } else if m.alt {
        if !is_control_char(c) {
            b.push(ESC);
            push_utf8(&mut b, c);
            proof {
                assert(b@ =~= seq![ESC] + utf8_bytes(c as int));
            }
            Some(b)
        } else {
            None
        }
    } else {
        if !is_control_char(c) {
            push_utf8(&mut b, c);
            Some(b)
        } else {
            None
        }
    }
}


/// The decimal digits of a non-negative number are ASCII digit bytes.
pub proof fn lemma_dec_digits_are_digits(n: int)
    requires
        0 <= n,
    ensures
        forall|i: int|
            0 <= i < dec_digits(n).len() ==> 0x30 <= #[trigger] dec_digits(n)[i] <= 0x39,
    decreases n,
{
    if n < 10 {
    } else {
        lemma_dec_digits_are_digits(n / 10);
        assert forall|i: int| 0 <= i < dec_digits(n).len() implies 0x30 <= #[trigger] dec_digits(
            n,
        )[i] <= 0x39 by {
            if i < dec_digits(n / 10).len() {
                assert(dec_digits(n)[i] == dec_digits(n / 10)[i]);
            } else {
                assert(dec_digits(n)[i] == (0x30 + n % 10) as u8);
            }
        }
    }
}

/// The modifier segment appears exactly when the modifier number is not 1:
/// with a modifier the sequence holds a `;` right after the code digits, and
/// without one it holds no `;` at all.
pub proof fn lemma_modifier_segment_omission(code: int, suffix: u8, modifiers: int)
    requires
        0 <= code,
        suffix != 0x3B,
    ensures
        modifiers == 1 ==> forall|i: int|
            0 <= i < spec_csi(code, suffix, 1).len() ==> #[trigger] spec_csi(
                code,
                suffix,
                1,
            )[i] != 0x3B,
        modifiers != 1 ==> spec_csi(code, suffix, modifiers)[2 + dec_digits(code).len() as int] == 0x3B,
{
    lemma_dec_digits_are_digits(code);
    if modifiers == 1 {
        let s = spec_csi(code, suffix, 1);
        assert forall|i: int| 0 <= i < s.len() implies #[trigger] s[i] != 0x3B by {
            if i < 2 {
            } else if i < 2 + dec_digits(code).len() {
                assert(s[i] == dec_digits(code)[i - 2]);
            } else {
                assert(s[i] == suffix);
            }
        }
    }
}

/// Encoding a navigation letter differs between the cursor-key modes exactly
/// when no modifier is held: plain presses use `CSI` in normal mode and
/// `SS3` in application-cursor mode, while modified presses fall back to the
/// same `CSI 1;<mod>` form in both modes, consistent with the omission rule.
pub proof fn lemma_arrow_mode_encoding(code: u8, modifiers: int)
    ensures
        spec_csi2(code, 1) != spec_ss3(code, 1),
        modifiers != 1 ==> spec_csi2(code, modifiers) == spec_ss3(code, modifiers),
{
    assert(spec_csi2(code, 1)[1] == 0x5B);
    assert(spec_ss3(code, 1)[1] == 0x4F);
}

} // verus!
