//! The keyboard-event-to-notation encoder.
//!
//! A raw key-down event becomes the editor's textual key notation: the key's
//! representation — a literal character or a named symbolic token — wrapped
//! in angle brackets with modifier prefixes in the fixed order Alt, Control,
//! GUI, Shift. A literal character without Alt, Control or GUI is suppressed
//! entirely: it will arrive again through the composed-text path, and
//! reporting it here too would double the input. The less-than key's token
//! gets the same suppression although it is not a literal; the analogous
//! shifted pairs (a `>` typed as shift-comma) deliberately do not, matching
//! the editor clients this one follows. Right Alt is ignored throughout: on
//! many layouts it composes characters, which the composed-text path already
//! reports.

use vstd::prelude::*;
use crate::text::push_char;

verus! {

/// The modifier keys held during an event, each side reported separately,
/// with the Caps Lock state beside them.
#[derive(Clone, Copy, Debug, PartialEq, Eq, Structural)]
pub struct KeyMods {
    pub lgui: bool,
    pub rgui: bool,
    pub lctrl: bool,
    pub rctrl: bool,
    pub lalt: bool,
    pub ralt: bool,
    pub lshift: bool,
    pub rshift: bool,
    pub caps: bool,
}

impl KeyMods {
    /// No modifier held, Caps Lock off.
    pub fn none() -> (m: KeyMods)
        ensures
            m == (KeyMods {
                lgui: false,
                rgui: false,
                lctrl: false,
                rctrl: false,
                lalt: false,
                ralt: false,
                lshift: false,
                rshift: false,
                caps: false,
            }),
    {
        KeyMods {
            lgui: false,
            rgui: false,
            lctrl: false,
            rctrl: false,
            lalt: false,
            ralt: false,
            lshift: false,
            rshift: false,
            caps: false,
        }
    }
}

/// Either GUI key counts.
pub open spec fn has_gui(m: KeyMods) -> bool {
    m.lgui || m.rgui
}

/// Either Control key counts.
pub open spec fn has_ctrl(m: KeyMods) -> bool {
    m.lctrl || m.rctrl
}

/// Only the left Alt counts; the right one composes characters on many
/// layouts and must not be double-reported.
pub open spec fn has_alt(m: KeyMods) -> bool {
    m.lalt
}

/// A modifier that forces a literal key to be reported.
pub open spec fn has_non_shift_mod(m: KeyMods) -> bool {
    has_gui(m) || has_ctrl(m) || has_alt(m)
}

/// Shift as the editor should see it: Caps Lock inverts the shift sense.
pub open spec fn shift_effective(m: KeyMods) -> bool {
    (m.lshift || m.rshift) != m.caps
}

/// A key's representation before modifiers are applied.
#[derive(Clone, Copy, Debug, PartialEq, Eq)]
pub enum KeyRepr {
    /// A literal single character, wrapped in brackets only when reported.
    Literal(char),
    /// A two-character literal (a keypad key naming two glyphs); the wrap
    /// brackets the first character and the second trails outside, as the
    /// notation's historical layout has it.
    LiteralPair(char, char),
    /// A named token, already bracket-less ("Esc", "CR", "kEnter").
    Symbolic(&'static str),
    /// The less-than key: the "LT" token, but suppressed like a literal.
    LessThan,
}

/// The modifier prefixes, in the fixed order Alt, Control, GUI, Shift.
pub open spec fn spec_prefixes(m: KeyMods) -> Seq<char> {
    (if has_alt(m) {
        "A-"@
    } else {
        Seq::empty()
    }) + (if has_ctrl(m) {
        "C-"@
    } else {
        Seq::empty()
    }) + (if has_gui(m) {
        "D-"@
    } else {
        Seq::empty()
    }) + (if shift_effective(m) {
        "S-"@
    } else {
        Seq::empty()
    })
}

/// The notation for a key representation under the given modifiers, or
/// nothing when the suppression rule swallows the event.
pub open spec fn spec_notation(repr: KeyRepr, m: KeyMods) -> Option<Seq<char>> {
    match repr {
        KeyRepr::Literal(c) => if !has_non_shift_mod(m) {
            None
        } else {
            Some(seq!['<'] + spec_prefixes(m) + seq![c] + seq!['>'])
        },
        KeyRepr::LiteralPair(c0, c1) => if !has_non_shift_mod(m) {
            None
        } else {
            Some(seq!['<'] + spec_prefixes(m) + seq![c0] + seq!['>'] + seq![c1])
        },
        KeyRepr::Symbolic(tok) => Some(seq!['<'] + spec_prefixes(m) + tok@ + seq!['>']),
        KeyRepr::LessThan => if !has_non_shift_mod(m) {
            None
        } else {
            Some(seq!['<'] + spec_prefixes(m) + "LT"@ + seq!['>'])
        },
    }
}

/// Appends the modifier prefixes to a partly built notation string.
fn push_prefixes(out: &mut String, m: KeyMods)
    ensures
        final(out)@ == old(out)@ + spec_prefixes(m),
{
    let ghost base = out@;
    if m.lalt {
        out.append("A-");
    }
    if m.lctrl || m.rctrl {
        out.append("C-");
    }
    if m.lgui || m.rgui {
        out.append("D-");
    }
    if ((m.lshift || m.rshift) && !m.caps) || (!(m.lshift || m.rshift) && m.caps) {
        out.append("S-");
    }
    proof {
        assert(final(out)@ =~= base + spec_prefixes(m));
    }
}

/// Builds the notation for one key representation under the given
/// modifiers, applying the suppression rule.
fn with_mod(repr: KeyRepr, m: KeyMods) -> (r: Option<String>)
    ensures
        match r {
            Some(s) => spec_notation(repr, m) == Some(s@),
            None => spec_notation(repr, m) is None,
        },
{
    let has_non_shift = m.lgui || m.rgui || m.lctrl || m.rctrl || m.lalt;
    match repr {
        KeyRepr::Literal(c) => {
            if !has_non_shift {
                None
            } else {
                let mut out = String::new();
                push_char(&mut out, '<');
                push_prefixes(&mut out, m);
                push_char(&mut out, c);
                push_char(&mut out, '>');
                proof {
                    assert(out@ =~= seq!['<'] + spec_prefixes(m) + seq![c] + seq!['>']);
                }
                Some(out)
            }
        },
        KeyRepr::LiteralPair(c0, c1) => {
            if !has_non_shift {
                None
            } else {
                let mut out = String::new();
                push_char(&mut out, '<');
                push_prefixes(&mut out, m);
                push_char(&mut out, c0);
                push_char(&mut out, '>');
                push_char(&mut out, c1);
                proof {
                    assert(out@ =~= seq!['<'] + spec_prefixes(m) + seq![c0] + seq!['>'] + seq![c1]);
                }
                Some(out)
            }
        },
        KeyRepr::Symbolic(tok) => {
            let mut out = String::new();
            push_char(&mut out, '<');
            push_prefixes(&mut out, m);
            out.append(tok);
            push_char(&mut out, '>');
            proof {
                assert(out@ =~= seq!['<'] + spec_prefixes(m) + tok@ + seq!['>']);
            }
            Some(out)
        },
        KeyRepr::LessThan => {
            if !has_non_shift {
                None
            } else {
                let mut out = String::new();
                push_char(&mut out, '<');
                push_prefixes(&mut out, m);
                out.append("LT");
                push_char(&mut out, '>');
                proof {
                    assert(out@ =~= seq!['<'] + spec_prefixes(m) + "LT"@ + seq!['>']);
                }
                Some(out)
            }
        },
    }
}

/// The raw keys this client maps, named as the windowing layer names them.
/// Anything else is `Other` and yields no notation.
#[derive(Clone, Copy, Debug, PartialEq, Eq, Structural)]
pub enum NvimKeycode {
    A,
    B,
    C,
    D,
    E,
    F,
    G,
    H,
    I,
    J,
    K,
    L,
    M,
    N,
    O,
    P,
    Q,
    R,
    S,
    T,
    U,
    V,
    W,
    X,
    Y,
    Z,
    Num0,
    Num1,
    Num2,
    Num3,
    Num4,
    Num5,
    Num6,
    Num7,
    Num8,
    Num9,
    Ampersand,
    Asterisk,
    At,
    Backquote,
    Backslash,
    Caret,
    Colon,
    Comma,
    Dollar,
    Equals,
    Exclaim,
    Greater,
    Hash,
    KpA,
    KpAmpersand,
    KpB,
    KpC,
    KpColon,
    KpD,
    KpDecimal,
    KpE,
    KpExclam,
    KpF,
    KpGreater,
    KpHash,
    KpLeftBrace,
    KpLeftParen,
    KpPercent,
    KpPeriod,
    KpRightBrace,
    KpRightParen,
    KpVerticalBar,
    LeftBracket,
    LeftParen,
    Minus,
    Percent,
    Period,
    Plus,
    Question,
    Quote,
    Quotedbl,
    RightBracket,
    RightParen,
    Semicolon,
    Slash,
    Underscore,
    KpAt,
    KpDblAmpersand,
    KpDblVerticalBar,
    AcHome,
    Backspace,
    Delete,
    Down,
    End,
    Escape,
    F1,
    F2,
    F3,
    F4,
    F5,
    F6,
    F7,
    F8,
    F9,
    F10,
    F11,
    F12,
    F13,
    F14,
    F15,
    F16,
    F17,
    F18,
    F19,
    F20,
    F21,
    F22,
    F23,
    F24,
    Help,
    Home,
    Insert,
    Kp0,
    Kp1,
    Kp2,
    Kp3,
    Kp4,
    Kp5,
    Kp6,
    Kp7,
    Kp8,
    Kp9,
    Kp00,
    Kp000,
    KpBackspace,
    KpComma,
    KpDivide,
    KpEnter,
    KpEquals,
    KpEqualsAS400,
    KpMinus,
    KpMultiply,
    KpPlus,
    Left,
    PageDown,
    PageUp,
    Return,
    Return2,
    Right,
    Space,
    Tab,
    Undo,
    Up,
    KpLess,
    Less,
    Other,
}

/// The representation of each mapped key.
pub open spec fn spec_key_repr(k: NvimKeycode) -> Option<KeyRepr> {
    match k {
        NvimKeycode::A => Some(KeyRepr::Literal('a')),
        NvimKeycode::B => Some(KeyRepr::Literal('b')),
        NvimKeycode::C => Some(KeyRepr::Literal('c')),
        NvimKeycode::D => Some(KeyRepr::Literal('d')),
        NvimKeycode::E => Some(KeyRepr::Literal('e')),
        NvimKeycode::F => Some(KeyRepr::Literal('f')),
        NvimKeycode::G => Some(KeyRepr::Literal('g')),
        NvimKeycode::H => Some(KeyRepr::Literal('h')),
        NvimKeycode::I => Some(KeyRepr::Literal('i')),
        NvimKeycode::J => Some(KeyRepr::Literal('j')),
        NvimKeycode::K => Some(KeyRepr::Literal('k')),
        NvimKeycode::L => Some(KeyRepr::Literal('l')),
        NvimKeycode::M => Some(KeyRepr::Literal('m')),
        NvimKeycode::N => Some(KeyRepr::Literal('n')),
        NvimKeycode::O => Some(KeyRepr::Literal('o')),
        NvimKeycode::P => Some(KeyRepr::Literal('p')),
        NvimKeycode::Q => Some(KeyRepr::Literal('q')),
        NvimKeycode::R => Some(KeyRepr::Literal('r')),
        NvimKeycode::S => Some(KeyRepr::Literal('s')),
        NvimKeycode::T => Some(KeyRepr::Literal('t')),
        NvimKeycode::U => Some(KeyRepr::Literal('u')),
        NvimKeycode::V => Some(KeyRepr::Literal('v')),
        NvimKeycode::W => Some(KeyRepr::Literal('w')),
        NvimKeycode::X => Some(KeyRepr::Literal('x')),
        NvimKeycode::Y => Some(KeyRepr::Literal('y')),
        NvimKeycode::Z => Some(KeyRepr::Literal('z')),
        NvimKeycode::Num0 => Some(KeyRepr::Literal('0')),
        NvimKeycode::Num1 => Some(KeyRepr::Literal('1')),
        NvimKeycode::Num2 => Some(KeyRepr::Literal('2')),
        NvimKeycode::Num3 => Some(KeyRepr::Literal('3')),
        NvimKeycode::Num4 => Some(KeyRepr::Literal('4')),
        NvimKeycode::Num5 => Some(KeyRepr::Literal('5')),
        NvimKeycode::Num6 => Some(KeyRepr::Literal('6')),
        NvimKeycode::Num7 => Some(KeyRepr::Literal('7')),
        NvimKeycode::Num8 => Some(KeyRepr::Literal('8')),
        NvimKeycode::Num9 => Some(KeyRepr::Literal('9')),
        NvimKeycode::Ampersand => Some(KeyRepr::Literal('&')),
        NvimKeycode::Asterisk => Some(KeyRepr::Literal('*')),
        NvimKeycode::At => Some(KeyRepr::Literal('@')),
        NvimKeycode::Backquote => Some(KeyRepr::Literal('`')),
        NvimKeycode::Backslash => Some(KeyRepr::Literal('\\')),
        NvimKeycode::Caret => Some(KeyRepr::Literal('^')),
        NvimKeycode::Colon => Some(KeyRepr::Literal(':')),
        NvimKeycode::Comma => Some(KeyRepr::Literal(',')),
        NvimKeycode::Dollar => Some(KeyRepr::Literal('$')),
        NvimKeycode::Equals => Some(KeyRepr::Literal('=')),
        NvimKeycode::Exclaim => Some(KeyRepr::Literal('!')),
        NvimKeycode::Greater => Some(KeyRepr::Literal('>')),
        NvimKeycode::Hash => Some(KeyRepr::Literal('#')),
        NvimKeycode::KpA => Some(KeyRepr::Literal('a')),
        NvimKeycode::KpAmpersand => Some(KeyRepr::Literal('&')),
        NvimKeycode::KpB => Some(KeyRepr::Literal('b')),
        NvimKeycode::KpC => Some(KeyRepr::Literal('c')),
        NvimKeycode::KpColon => Some(KeyRepr::Literal(':')),
        NvimKeycode::KpD => Some(KeyRepr::Literal('D')),
        NvimKeycode::KpDecimal => Some(KeyRepr::Literal('.')),
        NvimKeycode::KpE => Some(KeyRepr::Literal('e')),
        NvimKeycode::KpExclam => Some(KeyRepr::Literal('!')),
        NvimKeycode::KpF => Some(KeyRepr::Literal('f')),
        NvimKeycode::KpGreater => Some(KeyRepr::Literal('>')),
        NvimKeycode::KpHash => Some(KeyRepr::Literal('#')),
        NvimKeycode::KpLeftBrace => Some(KeyRepr::Literal('{')),
        NvimKeycode::KpLeftParen => Some(KeyRepr::Literal('(')),
        NvimKeycode::KpPercent => Some(KeyRepr::Literal('%')),
        NvimKeycode::KpPeriod => Some(KeyRepr::Literal('.')),
        NvimKeycode::KpRightBrace => Some(KeyRepr::Literal('}')),
        NvimKeycode::KpRightParen => Some(KeyRepr::Literal(')')),
        NvimKeycode::KpVerticalBar => Some(KeyRepr::Literal('|')),
        NvimKeycode::LeftBracket => Some(KeyRepr::Literal('[')),
        NvimKeycode::LeftParen => Some(KeyRepr::Literal('(')),
        NvimKeycode::Minus => Some(KeyRepr::Literal('-')),
        NvimKeycode::Percent => Some(KeyRepr::Literal('%')),
        NvimKeycode::Period => Some(KeyRepr::Literal('.')),
        NvimKeycode::Plus => Some(KeyRepr::Literal('+')),
        NvimKeycode::Question => Some(KeyRepr::Literal('?')),
        NvimKeycode::Quote => Some(KeyRepr::Literal('\'')),
        NvimKeycode::Quotedbl => Some(KeyRepr::Literal('"')),
        NvimKeycode::RightBracket => Some(KeyRepr::Literal(']')),
        NvimKeycode::RightParen => Some(KeyRepr::Literal(')')),
        NvimKeycode::Semicolon => Some(KeyRepr::Literal(';')),
        NvimKeycode::Slash => Some(KeyRepr::Literal('/')),
        NvimKeycode::Underscore => Some(KeyRepr::Literal('_')),
        NvimKeycode::KpAt => Some(KeyRepr::LiteralPair('a', 't')),
        NvimKeycode::KpDblAmpersand => Some(KeyRepr::LiteralPair('&', '&')),
        NvimKeycode::KpDblVerticalBar => Some(KeyRepr::LiteralPair('|', '|')),
        NvimKeycode::AcHome => Some(KeyRepr::Symbolic("kHome")),
        NvimKeycode::Backspace => Some(KeyRepr::Symbolic("BS")),
        NvimKeycode::Delete => Some(KeyRepr::Symbolic("Del")),
        NvimKeycode::Down => Some(KeyRepr::Symbolic("Down")),
        NvimKeycode::End => Some(KeyRepr::Symbolic("End")),
        NvimKeycode::Escape => Some(KeyRepr::Symbolic("Esc")),
        NvimKeycode::F1 => Some(KeyRepr::Symbolic("F1")),
        NvimKeycode::F2 => Some(KeyRepr::Symbolic("F2")),
        NvimKeycode::F3 => Some(KeyRepr::Symbolic("F3")),
        NvimKeycode::F4 => Some(KeyRepr::Symbolic("F4")),
        NvimKeycode::F5 => Some(KeyRepr::Symbolic("F5")),
        NvimKeycode::F6 => Some(KeyRepr::Symbolic("F6")),
        NvimKeycode::F7 => Some(KeyRepr::Symbolic("F7")),
        NvimKeycode::F8 => Some(KeyRepr::Symbolic("F8")),
        NvimKeycode::F9 => Some(KeyRepr::Symbolic("F9")),
        NvimKeycode::F10 => Some(KeyRepr::Symbolic("10")),
        NvimKeycode::F11 => Some(KeyRepr::Symbolic("11")),
        NvimKeycode::F12 => Some(KeyRepr::Symbolic("12")),
        NvimKeycode::F13 => Some(KeyRepr::Symbolic("13")),
        NvimKeycode::F14 => Some(KeyRepr::Symbolic("14")),
        NvimKeycode::F15 => Some(KeyRepr::Symbolic("15")),
        NvimKeycode::F16 => Some(KeyRepr::Symbolic("16")),
        NvimKeycode::F17 => Some(KeyRepr::Symbolic("17")),
        NvimKeycode::F18 => Some(KeyRepr::Symbolic("18")),
        NvimKeycode::F19 => Some(KeyRepr::Symbolic("19")),
        NvimKeycode::F20 => Some(KeyRepr::Symbolic("20")),
        NvimKeycode::F21 => Some(KeyRepr::Symbolic("21")),
        NvimKeycode::F22 => Some(KeyRepr::Symbolic("22")),
        NvimKeycode::F23 => Some(KeyRepr::Symbolic("23")),
        NvimKeycode::F24 => Some(KeyRepr::Symbolic("24")),
        NvimKeycode::Help => Some(KeyRepr::Symbolic("Help")),
        NvimKeycode::Home => Some(KeyRepr::Symbolic("Home")),
        NvimKeycode::Insert => Some(KeyRepr::Symbolic("Insert")),
        NvimKeycode::Kp0 => Some(KeyRepr::Symbolic("k0")),
        NvimKeycode::Kp1 => Some(KeyRepr::Symbolic("k1")),
        NvimKeycode::Kp2 => Some(KeyRepr::Symbolic("k2")),
        NvimKeycode::Kp3 => Some(KeyRepr::Symbolic("k3")),
        NvimKeycode::Kp4 => Some(KeyRepr::Symbolic("k4")),
        NvimKeycode::Kp5 => Some(KeyRepr::Symbolic("k5")),
        NvimKeycode::Kp6 => Some(KeyRepr::Symbolic("k6")),
        NvimKeycode::Kp7 => Some(KeyRepr::Symbolic("k7")),
        NvimKeycode::Kp8 => Some(KeyRepr::Symbolic("k8")),
        NvimKeycode::Kp9 => Some(KeyRepr::Symbolic("k9")),
        NvimKeycode::Kp00 => Some(KeyRepr::Symbolic("k00")),
        NvimKeycode::Kp000 => Some(KeyRepr::Symbolic("k000")),
        NvimKeycode::KpBackspace => Some(KeyRepr::Symbolic("BS")),
        NvimKeycode::KpComma => Some(KeyRepr::Symbolic("kComma")),
        NvimKeycode::KpDivide => Some(KeyRepr::Symbolic("kDivide")),
        NvimKeycode::KpEnter => Some(KeyRepr::Symbolic("kEnter")),
        NvimKeycode::KpEquals => Some(KeyRepr::Symbolic("kEquals")),
        NvimKeycode::KpEqualsAS400 => Some(KeyRepr::Symbolic("kEquals")),
        NvimKeycode::KpMinus => Some(KeyRepr::Symbolic("kMinus")),
        NvimKeycode::KpMultiply => Some(KeyRepr::Symbolic("kMultiply")),
        NvimKeycode::KpPlus => Some(KeyRepr::Symbolic("kPlus")),
        NvimKeycode::Left => Some(KeyRepr::Symbolic("Left")),
        NvimKeycode::PageDown => Some(KeyRepr::Symbolic("PageDown")),
        NvimKeycode::PageUp => Some(KeyRepr::Symbolic("PageUp")),
        NvimKeycode::Return => Some(KeyRepr::Symbolic("CR")),
        NvimKeycode::Return2 => Some(KeyRepr::Symbolic("CR")),
        NvimKeycode::Right => Some(KeyRepr::Symbolic("Right")),
        NvimKeycode::Space => Some(KeyRepr::Symbolic("Space")),
        NvimKeycode::Tab => Some(KeyRepr::Symbolic("Tab")),
        NvimKeycode::Undo => Some(KeyRepr::Symbolic("Undo")),
        NvimKeycode::Up => Some(KeyRepr::Symbolic("Up")),
        NvimKeycode::KpLess => Some(KeyRepr::LessThan),
        NvimKeycode::Less => Some(KeyRepr::LessThan),
        NvimKeycode::Other => None,
    }
}

/// The representation of each mapped key; see [`spec_key_repr`].
pub fn key_repr(k: NvimKeycode) -> (r: Option<KeyRepr>)
    ensures
        r == spec_key_repr(k),
{
    match k {
        NvimKeycode::A => Some(KeyRepr::Literal('a')),
        NvimKeycode::B => Some(KeyRepr::Literal('b')),
        NvimKeycode::C => Some(KeyRepr::Literal('c')),
        NvimKeycode::D => Some(KeyRepr::Literal('d')),
        NvimKeycode::E => Some(KeyRepr::Literal('e')),
        NvimKeycode::F => Some(KeyRepr::Literal('f')),
        NvimKeycode::G => Some(KeyRepr::Literal('g')),
        NvimKeycode::H => Some(KeyRepr::Literal('h')),
        NvimKeycode::I => Some(KeyRepr::Literal('i')),
        NvimKeycode::J => Some(KeyRepr::Literal('j')),
        NvimKeycode::K => Some(KeyRepr::Literal('k')),
        NvimKeycode::L => Some(KeyRepr::Literal('l')),
        NvimKeycode::M => Some(KeyRepr::Literal('m')),
        NvimKeycode::N => Some(KeyRepr::Literal('n')),
        NvimKeycode::O => Some(KeyRepr::Literal('o')),
        NvimKeycode::P => Some(KeyRepr::Literal('p')),
        NvimKeycode::Q => Some(KeyRepr::Literal('q')),
        NvimKeycode::R => Some(KeyRepr::Literal('r')),
        NvimKeycode::S => Some(KeyRepr::Literal('s')),
        NvimKeycode::T => Some(KeyRepr::Literal('t')),
        NvimKeycode::U => Some(KeyRepr::Literal('u')),
        NvimKeycode::V => Some(KeyRepr::Literal('v')),
        NvimKeycode::W => Some(KeyRepr::Literal('w')),
        NvimKeycode::X => Some(KeyRepr::Literal('x')),
        NvimKeycode::Y => Some(KeyRepr::Literal('y')),
        NvimKeycode::Z => Some(KeyRepr::Literal('z')),
        NvimKeycode::Num0 => Some(KeyRepr::Literal('0')),
        NvimKeycode::Num1 => Some(KeyRepr::Literal('1')),
        NvimKeycode::Num2 => Some(KeyRepr::Literal('2')),
        NvimKeycode::Num3 => Some(KeyRepr::Literal('3')),
        NvimKeycode::Num4 => Some(KeyRepr::Literal('4')),
        NvimKeycode::Num5 => Some(KeyRepr::Literal('5')),
        NvimKeycode::Num6 => Some(KeyRepr::Literal('6')),
        NvimKeycode::Num7 => Some(KeyRepr::Literal('7')),
        NvimKeycode::Num8 => Some(KeyRepr::Literal('8')),
        NvimKeycode::Num9 => Some(KeyRepr::Literal('9')),
        NvimKeycode::Ampersand => Some(KeyRepr::Literal('&')),
        NvimKeycode::Asterisk => Some(KeyRepr::Literal('*')),
        NvimKeycode::At => Some(KeyRepr::Literal('@')),
        NvimKeycode::Backquote => Some(KeyRepr::Literal('`')),
        NvimKeycode::Backslash => Some(KeyRepr::Literal('\\')),
        NvimKeycode::Caret => Some(KeyRepr::Literal('^')),
        NvimKeycode::Colon => Some(KeyRepr::Literal(':')),
        NvimKeycode::Comma => Some(KeyRepr::Literal(',')),
        NvimKeycode::Dollar => Some(KeyRepr::Literal('$')),
        NvimKeycode::Equals => Some(KeyRepr::Literal('=')),
        NvimKeycode::Exclaim => Some(KeyRepr::Literal('!')),
        NvimKeycode::Greater => Some(KeyRepr::Literal('>')),
        NvimKeycode::Hash => Some(KeyRepr::Literal('#')),
        NvimKeycode::KpA => Some(KeyRepr::Literal('a')),
        NvimKeycode::KpAmpersand => Some(KeyRepr::Literal('&')),
        NvimKeycode::KpB => Some(KeyRepr::Literal('b')),
        NvimKeycode::KpC => Some(KeyRepr::Literal('c')),
        NvimKeycode::KpColon => Some(KeyRepr::Literal(':')),
        NvimKeycode::KpD => Some(KeyRepr::Literal('D')),
        NvimKeycode::KpDecimal => Some(KeyRepr::Literal('.')),
        NvimKeycode::KpE => Some(KeyRepr::Literal('e')),
        NvimKeycode::KpExclam => Some(KeyRepr::Literal('!')),
        NvimKeycode::KpF => Some(KeyRepr::Literal('f')),
        NvimKeycode::KpGreater => Some(KeyRepr::Literal('>')),
        NvimKeycode::KpHash => Some(KeyRepr::Literal('#')),
        NvimKeycode::KpLeftBrace => Some(KeyRepr::Literal('{')),
        NvimKeycode::KpLeftParen => Some(KeyRepr::Literal('(')),
        NvimKeycode::KpPercent => Some(KeyRepr::Literal('%')),
        NvimKeycode::KpPeriod => Some(KeyRepr::Literal('.')),
        NvimKeycode::KpRightBrace => Some(KeyRepr::Literal('}')),
        NvimKeycode::KpRightParen => Some(KeyRepr::Literal(')')),
        NvimKeycode::KpVerticalBar => Some(KeyRepr::Literal('|')),
        NvimKeycode::LeftBracket => Some(KeyRepr::Literal('[')),
        NvimKeycode::LeftParen => Some(KeyRepr::Literal('(')),
        NvimKeycode::Minus => Some(KeyRepr::Literal('-')),
        NvimKeycode::Percent => Some(KeyRepr::Literal('%')),
        NvimKeycode::Period => Some(KeyRepr::Literal('.')),
        NvimKeycode::Plus => Some(KeyRepr::Literal('+')),
        NvimKeycode::Question => Some(KeyRepr::Literal('?')),
        NvimKeycode::Quote => Some(KeyRepr::Literal('\'')),
        NvimKeycode::Quotedbl => Some(KeyRepr::Literal('"')),
        NvimKeycode::RightBracket => Some(KeyRepr::Literal(']')),
        NvimKeycode::RightParen => Some(KeyRepr::Literal(')')),
        NvimKeycode::Semicolon => Some(KeyRepr::Literal(';')),
        NvimKeycode::Slash => Some(KeyRepr::Literal('/')),
        NvimKeycode::Underscore => Some(KeyRepr::Literal('_')),
        NvimKeycode::KpAt => Some(KeyRepr::LiteralPair('a', 't')),
        NvimKeycode::KpDblAmpersand => Some(KeyRepr::LiteralPair('&', '&')),
        NvimKeycode::KpDblVerticalBar => Some(KeyRepr::LiteralPair('|', '|')),
        NvimKeycode::AcHome => Some(KeyRepr::Symbolic("kHome")),
        NvimKeycode::Backspace => Some(KeyRepr::Symbolic("BS")),
        NvimKeycode::Delete => Some(KeyRepr::Symbolic("Del")),
        NvimKeycode::Down => Some(KeyRepr::Symbolic("Down")),
        NvimKeycode::End => Some(KeyRepr::Symbolic("End")),
        NvimKeycode::Escape => Some(KeyRepr::Symbolic("Esc")),
        NvimKeycode::F1 => Some(KeyRepr::Symbolic("F1")),
        NvimKeycode::F2 => Some(KeyRepr::Symbolic("F2")),
        NvimKeycode::F3 => Some(KeyRepr::Symbolic("F3")),
        NvimKeycode::F4 => Some(KeyRepr::Symbolic("F4")),
        NvimKeycode::F5 => Some(KeyRepr::Symbolic("F5")),
        NvimKeycode::F6 => Some(KeyRepr::Symbolic("F6")),
        NvimKeycode::F7 => Some(KeyRepr::Symbolic("F7")),
        NvimKeycode::F8 => Some(KeyRepr::Symbolic("F8")),
        NvimKeycode::F9 => Some(KeyRepr::Symbolic("F9")),
        NvimKeycode::F10 => Some(KeyRepr::Symbolic("10")),
        NvimKeycode::F11 => Some(KeyRepr::Symbolic("11")),
        NvimKeycode::F12 => Some(KeyRepr::Symbolic("12")),
        NvimKeycode::F13 => Some(KeyRepr::Symbolic("13")),
        NvimKeycode::F14 => Some(KeyRepr::Symbolic("14")),
        NvimKeycode::F15 => Some(KeyRepr::Symbolic("15")),
        NvimKeycode::F16 => Some(KeyRepr::Symbolic("16")),
        NvimKeycode::F17 => Some(KeyRepr::Symbolic("17")),
        NvimKeycode::F18 => Some(KeyRepr::Symbolic("18")),
        NvimKeycode::F19 => Some(KeyRepr::Symbolic("19")),
        NvimKeycode::F20 => Some(KeyRepr::Symbolic("20")),
        NvimKeycode::F21 => Some(KeyRepr::Symbolic("21")),
        NvimKeycode::F22 => Some(KeyRepr::Symbolic("22")),
        NvimKeycode::F23 => Some(KeyRepr::Symbolic("23")),
        NvimKeycode::F24 => Some(KeyRepr::Symbolic("24")),
        NvimKeycode::Help => Some(KeyRepr::Symbolic("Help")),
        NvimKeycode::Home => Some(KeyRepr::Symbolic("Home")),
        NvimKeycode::Insert => Some(KeyRepr::Symbolic("Insert")),
        NvimKeycode::Kp0 => Some(KeyRepr::Symbolic("k0")),
        NvimKeycode::Kp1 => Some(KeyRepr::Symbolic("k1")),
        NvimKeycode::Kp2 => Some(KeyRepr::Symbolic("k2")),
        NvimKeycode::Kp3 => Some(KeyRepr::Symbolic("k3")),
        NvimKeycode::Kp4 => Some(KeyRepr::Symbolic("k4")),
        NvimKeycode::Kp5 => Some(KeyRepr::Symbolic("k5")),
        NvimKeycode::Kp6 => Some(KeyRepr::Symbolic("k6")),
        NvimKeycode::Kp7 => Some(KeyRepr::Symbolic("k7")),
        NvimKeycode::Kp8 => Some(KeyRepr::Symbolic("k8")),
        NvimKeycode::Kp9 => Some(KeyRepr::Symbolic("k9")),
        NvimKeycode::Kp00 => Some(KeyRepr::Symbolic("k00")),
        NvimKeycode::Kp000 => Some(KeyRepr::Symbolic("k000")),
        NvimKeycode::KpBackspace => Some(KeyRepr::Symbolic("BS")),
        NvimKeycode::KpComma => Some(KeyRepr::Symbolic("kComma")),
        NvimKeycode::KpDivide => Some(KeyRepr::Symbolic("kDivide")),
        NvimKeycode::KpEnter => Some(KeyRepr::Symbolic("kEnter")),
        NvimKeycode::KpEquals => Some(KeyRepr::Symbolic("kEquals")),
        NvimKeycode::KpEqualsAS400 => Some(KeyRepr::Symbolic("kEquals")),
        NvimKeycode::KpMinus => Some(KeyRepr::Symbolic("kMinus")),
        NvimKeycode::KpMultiply => Some(KeyRepr::Symbolic("kMultiply")),
        NvimKeycode::KpPlus => Some(KeyRepr::Symbolic("kPlus")),
        NvimKeycode::Left => Some(KeyRepr::Symbolic("Left")),
        NvimKeycode::PageDown => Some(KeyRepr::Symbolic("PageDown")),
        NvimKeycode::PageUp => Some(KeyRepr::Symbolic("PageUp")),
        NvimKeycode::Return => Some(KeyRepr::Symbolic("CR")),
        NvimKeycode::Return2 => Some(KeyRepr::Symbolic("CR")),
        NvimKeycode::Right => Some(KeyRepr::Symbolic("Right")),
        NvimKeycode::Space => Some(KeyRepr::Symbolic("Space")),
        NvimKeycode::Tab => Some(KeyRepr::Symbolic("Tab")),
        NvimKeycode::Undo => Some(KeyRepr::Symbolic("Undo")),
        NvimKeycode::Up => Some(KeyRepr::Symbolic("Up")),
        NvimKeycode::KpLess => Some(KeyRepr::LessThan),
        NvimKeycode::Less => Some(KeyRepr::LessThan),
        NvimKeycode::Other => None,
    }
}

/// The notation a raw key-down event produces, if any: the key's
/// representation under [`spec_notation`]'s wrapping and suppression rules.
pub open spec fn spec_event_notation(k: NvimKeycode, m: KeyMods) -> Option<Seq<char>> {
    match spec_key_repr(k) {
        Some(repr) => spec_notation(repr, m),
        None => None,
    }
}

/// Encodes one raw key-down event into the editor's key notation.
/// Unmappable keys and suppressed literals yield nothing, never an error.
pub fn nvim_event_representation(key: NvimKeycode, mods: KeyMods) -> (r: Option<String>)
    ensures
        match r {
            Some(s) => spec_event_notation(key, mods) == Some(s@),
            None => spec_event_notation(key, mods) is None,
        },
{
    match key_repr(key) {
        Some(repr) => with_mod(repr, mods),
        None => None,
    }
}

/// The mandatory symbolic token for a composed-text character, where one
/// exists: `<` collides with the notation's own bracket syntax and space has
/// a non-literal name.
pub fn nvim_char_representation(c: char) -> (r: Option<&'static str>)
    ensures
        c == '<' ==> (r matches Some(t) && t@ == "<LT>"@),
        c == ' ' ==> (r matches Some(t) && t@ == "<Space>"@),
        c != '<' && c != ' ' ==> r is None,
{
    match c {
        '<' => Some("<LT>"),
        ' ' => Some("<Space>"),
        _ => None,
    }
}

/// What one composed-text character contributes to the input string: spaces
/// are dropped (the raw-keydown path owns them, since only it can tell a
/// shifted space apart), `<` must use its token, everything else passes
/// through verbatim.
pub open spec fn spec_char_input(c: char) -> Seq<char> {
    if c == ' ' {
        Seq::empty()
    } else if c == '<' {
        "<LT>"@
    } else {
        seq![c]
    }
}

/// The input string a whole composed-text event contributes.
pub open spec fn spec_text_input(s: Seq<char>) -> Seq<char>
    decreases s.len(),
{
    if s.len() == 0 {
        Seq::empty()
    } else {
        spec_text_input(s.drop_last()) + spec_char_input(s.last())
    }
}

/// Encodes a composed-text event's characters into the editor's input
/// string. This path never fails; it only drops what it must.
pub fn nvim_text_input_representation(text: &Vec<char>) -> (r: String)
    ensures
        r@ == spec_text_input(text@),
{
    let mut out = String::new();
    let n = text.len();
    let mut k: usize = 0;
    proof {
        assert(text@.take(0) =~= Seq::<char>::empty());
    }
    while k < n
        invariant
            k <= n,
            n == text@.len(),
            out@ == spec_text_input(text@.take(k as int)),
        decreases n - k,
    {
        let c = text[k];
        if c != ' ' {
            match nvim_char_representation(c) {
                Some(tok) => out.append(tok),
                None => push_char(&mut out, c),
            }
        }
        proof {
            assert(text@.take(k as int + 1).drop_last() =~= text@.take(k as int));
            assert(text@.take(k as int + 1).last() == text@[k as int]);
            assert(out@ =~= spec_text_input(text@.take(k as int + 1)));
        }
        k = k + 1;
    }
    proof {
        assert(text@.take(n as int) =~= text@);
    }
    out
}

} // verus!
