//! Highlight attributes: the id-addressed bundles of colors and style flags
//! that cells reference.
//!
//! Id 0 is the default attribute; it also carries the process-wide default
//! foreground/background/special colors, and a cell whose attribute omits a
//! color inherits the default's. A redraw stream defines attributes through
//! partial updates that merge into whatever the table already holds.

use vstd::prelude::*;
use crate::color::Color;
use crate::color::spec_color;

verus! {

/// One highlight attribute: optional colors (absent means inherit the
/// default) and boolean style flags.
#[derive(Clone, Copy, Debug, PartialEq, Eq)]
pub struct NvimHighlightAttribute {
    pub background: Option<Color>,
    pub foreground: Option<Color>,
    pub special: Option<Color>,
    pub blend: u8,
    pub bold: bool,
    pub italic: bool,
    pub reverse: bool,
    pub strikethrough: bool,
    pub undercurl: bool,
    pub underline: bool,
}

/// The attribute with nothing set: every color inherited, every flag off.
pub open spec fn spec_default_attr() -> NvimHighlightAttribute {
    NvimHighlightAttribute {
        background: None,
        foreground: None,
        special: None,
        blend: 0,
        bold: false,
        italic: false,
        reverse: false,
        strikethrough: false,
        undercurl: false,
        underline: false,
    }
}

impl NvimHighlightAttribute {
    pub fn new() -> (a: NvimHighlightAttribute)
        ensures
            a == spec_default_attr(),
    {
        NvimHighlightAttribute {
            background: None,
            foreground: None,
            special: None,
            blend: 0,
            bold: false,
            italic: false,
            reverse: false,
            strikethrough: false,
            undercurl: false,
            underline: false,
        }
    }

    /// The foreground and background a cell under this attribute is drawn
    /// with: each falls back to the given default, and the reverse flag
    /// swaps the two. Absent when either color resolves to nothing; the
    /// caller treats that as the fault it is.
    pub fn resolve_colors(&self, default_fg: Option<Color>, default_bg: Option<Color>) -> (r:
        Option<(Color, Color)>)
        ensures
            r == spec_resolve_colors(*self, default_fg, default_bg),
    {
        let fg = match self.foreground {
            Some(c) => Some(c),
            None => default_fg,
        };
        let bg = match self.background {
            Some(c) => Some(c),
            None => default_bg,
        };
        match (fg, bg) {
            (Some(f), Some(b)) => if self.reverse {
                Some((b, f))
            } else {
                Some((f, b))
            },
            _ => None,
        }
    }

    /// The color a block cursor over a cell with this attribute is filled
    /// with: the attribute's foreground, else the given default.
    pub fn cursor_color(&self, default_fg: Option<Color>) -> (r: Option<Color>)
        ensures
            r == spec_cursor_color(*self, default_fg),
    {
        match self.foreground {
            Some(c) => Some(c),
            None => default_fg,
        }
    }
}

/// See [`NvimHighlightAttribute::resolve_colors`].
pub open spec fn spec_resolve_colors(
    a: NvimHighlightAttribute,
    default_fg: Option<Color>,
    default_bg: Option<Color>,
) -> Option<(Color, Color)> {
    let fg = if a.foreground is Some {
        a.foreground
    } else {
        default_fg
    };
    let bg = if a.background is Some {
        a.background
    } else {
        default_bg
    };
    match (fg, bg) {
        (Some(f), Some(b)) => if a.reverse {
            Some((b, f))
        } else {
            Some((f, b))
        },
        _ => None,
    }
}

/// See [`NvimHighlightAttribute::cursor_color`].
pub open spec fn spec_cursor_color(
    a: NvimHighlightAttribute,
    default_fg: Option<Color>,
) -> Option<Color> {
    if a.foreground is Some {
        a.foreground
    } else {
        default_fg
    }
}

/// One key of an attribute-definition map, already decoded to the value the
/// protocol carries for it. Keys this client does not recognize arrive as
/// `Unknown` and change nothing.
#[derive(Clone, Copy, Debug, PartialEq, Eq)]
pub enum HlUpdate {
    Foreground(Option<u64>),
    Background(Option<u64>),
    Special(Option<u64>),
    Blend(u64),
    Reverse(bool),
    Italic(bool),
    Bold(bool),
    Strikethrough(bool),
    Underline(bool),
    Undercurl(bool),
    Unknown,
}

/// The effect of one definition key on an attribute.
pub open spec fn spec_apply_hl_update(
    a: NvimHighlightAttribute,
    u: HlUpdate,
) -> NvimHighlightAttribute {
    match u {
        HlUpdate::Foreground(c) => NvimHighlightAttribute {
            foreground: spec_opt_color(c),
            ..a
        },
        HlUpdate::Background(c) => NvimHighlightAttribute {
            background: spec_opt_color(c),
            ..a
        },
        HlUpdate::Special(c) => NvimHighlightAttribute { special: spec_opt_color(c), ..a },
        HlUpdate::Blend(v) => NvimHighlightAttribute { blend: v as u8, ..a },
        HlUpdate::Reverse(b) => NvimHighlightAttribute { reverse: b, ..a },
        HlUpdate::Italic(b) => NvimHighlightAttribute { italic: b, ..a },
        HlUpdate::Bold(b) => NvimHighlightAttribute { bold: b, ..a },
        HlUpdate::Strikethrough(b) => NvimHighlightAttribute { strikethrough: b, ..a },
        HlUpdate::Underline(b) => NvimHighlightAttribute { underline: b, ..a },
        HlUpdate::Undercurl(b) => NvimHighlightAttribute { undercurl: b, ..a },
        HlUpdate::Unknown => a,
    }
}

/// A packed color value decoded, where one was given.
pub open spec fn spec_opt_color(c: Option<u64>) -> Option<Color> {
    match c {
        Some(v) => Some(spec_color(v)),
        None => None,
    }
}

/// The effect of a whole definition map, applied key by key in order.
pub open spec fn spec_apply_hl_updates(
    a: NvimHighlightAttribute,
    us: Seq<HlUpdate>,
) -> NvimHighlightAttribute
    decreases us.len(),
{
    if us.len() == 0 {
        a
    } else {
        spec_apply_hl_update(spec_apply_hl_updates(a, us.drop_last()), us.last())
    }
}

/// Merges one definition map into an attribute, key by key in order.
pub fn apply_hl_updates(a: NvimHighlightAttribute, updates: &Vec<HlUpdate>) -> (r:
    NvimHighlightAttribute)
    ensures
        r == spec_apply_hl_updates(a, updates@),
{
    let mut cur = a;
    let n = updates.len();
    let mut k: usize = 0;
    proof {
        assert(updates@.take(0) =~= Seq::<HlUpdate>::empty());
    }
    while k < n
        invariant
            k <= n,
            n == updates@.len(),
            cur == spec_apply_hl_updates(a, updates@.take(k as int)),
        decreases n - k,
    {
        let u = updates[k];
        cur = apply_hl_update(cur, u);
        proof {
            assert(updates@.take(k as int + 1).drop_last() =~= updates@.take(k as int));
            assert(updates@.take(k as int + 1).last() == updates@[k as int]);
        }
        k = k + 1;
    }
    proof {
        assert(updates@.take(n as int) =~= updates@);
    }
    cur
}

/// Applies one definition key.
fn apply_hl_update(a: NvimHighlightAttribute, u: HlUpdate) -> (r: NvimHighlightAttribute)
    ensures
        r == spec_apply_hl_update(a, u),
{
    match u {
        HlUpdate::Foreground(c) => NvimHighlightAttribute {
            foreground: opt_color(c),
            ..a
        },
        HlUpdate::Background(c) => NvimHighlightAttribute {
            background: opt_color(c),
            ..a
        },
        HlUpdate::Special(c) => NvimHighlightAttribute { special: opt_color(c), ..a },
        HlUpdate::Blend(v) => NvimHighlightAttribute {
            blend: #[verifier::truncate] (v as u8),
            ..a
        },
        HlUpdate::Reverse(b) => NvimHighlightAttribute { reverse: b, ..a },
        HlUpdate::Italic(b) => NvimHighlightAttribute { italic: b, ..a },
        HlUpdate::Bold(b) => NvimHighlightAttribute { bold: b, ..a },
        HlUpdate::Strikethrough(b) => NvimHighlightAttribute { strikethrough: b, ..a },
        HlUpdate::Underline(b) => NvimHighlightAttribute { underline: b, ..a },
        HlUpdate::Undercurl(b) => NvimHighlightAttribute { undercurl: b, ..a },
        HlUpdate::Unknown => a,
    }
}

/// Decodes a packed color value, where one was given.
pub(crate) fn opt_color(c: Option<u64>) -> (r: Option<Color>)
    ensures
        r == spec_opt_color(c),
{
    match c {
        Some(v) => Some(crate::color::color_from_rgb_value(v)),
        None => None,
    }
}

} // verus!
