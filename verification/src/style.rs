//! Styled text for the screen: the interface roles a theme colours, pieces of text with
//! their roles, and the small builders (padding, widths, numbers) the screens share.

use vstd::prelude::*;
use crate::layout::{display_width, text_width};
use crate::text::{chars_of, push_char};
use crate::theme::{Color, Theme};

verus! {

/// The interface roles that colour text, or a colour given directly.
#[derive(Clone, Copy, Debug, PartialEq, Eq, Structural)]
pub enum Role {
    Accent,
    Background,
    BackgroundDark,
    BackgroundDeep,
    Border,
    CursorBg,
    Features,
    Heading,
    Key,
    PickerAccent,
    PickerBorder,
    PickerDirectory,
    PickerLoading,
    PickerMatched,
    PickerRecent,
    Selection,
    Text,
    TextBright,
    TextDim,
    TextMuted,
    /// A colour that does not come from the theme's roles (such as a tag's colour).
    Fixed(Color),
}

/// The colour a theme gives a role.
pub open spec fn spec_role_color(theme: Theme, role: Role) -> Color {
    match role {
        Role::Accent => theme.accent,
        Role::Background => theme.background,
        Role::BackgroundDark => theme.background_dark,
        Role::BackgroundDeep => theme.background_deep,
        Role::Border => theme.border,
        Role::CursorBg => theme.cursor_bg,
        Role::Features => theme.labels.features,
        Role::Heading => theme.heading,
        Role::Key => theme.key,
        Role::PickerAccent => theme.picker_accent,
        Role::PickerBorder => theme.picker_border,
        Role::PickerDirectory => theme.picker_directory,
        Role::PickerLoading => theme.picker_loading,
        Role::PickerMatched => theme.picker_matched,
        Role::PickerRecent => theme.picker_recent,
        Role::Selection => theme.selection,
        Role::Text => theme.text,
        Role::TextBright => theme.text_bright,
        Role::TextDim => theme.text_dim,
        Role::TextMuted => theme.text_muted,
        Role::Fixed(c) => c,
    }
}

/// The colour `theme` gives `role`.
pub fn role_color(theme: &Theme, role: Role) -> (c: Color)
    ensures
        c == spec_role_color(*theme, role),
{
    match role {
        Role::Accent => theme.accent,
        Role::Background => theme.background,
        Role::BackgroundDark => theme.background_dark,
        Role::BackgroundDeep => theme.background_deep,
        Role::Border => theme.border,
        Role::CursorBg => theme.cursor_bg,
        Role::Features => theme.labels.features,
        Role::Heading => theme.heading,
        Role::Key => theme.key,
        Role::PickerAccent => theme.picker_accent,
        Role::PickerBorder => theme.picker_border,
        Role::PickerDirectory => theme.picker_directory,
        Role::PickerLoading => theme.picker_loading,
        Role::PickerMatched => theme.picker_matched,
        Role::PickerRecent => theme.picker_recent,
        Role::Selection => theme.selection,
        Role::Text => theme.text,
        Role::TextBright => theme.text_bright,
        Role::TextDim => theme.text_dim,
        Role::TextMuted => theme.text_muted,
        Role::Fixed(c) => c,
    }
}

/// A piece of a line: its text, foreground and background roles, and whether it is bold.
pub struct Piece {
    pub text: String,
    pub fg: Option<Role>,
    pub bg: Option<Role>,
    pub bold: bool,
}

/// What a piece shows: its characters, foreground, background and boldness.
pub type PieceView = (Seq<char>, Option<Role>, Option<Role>, bool);

impl View for Piece {
    type V = PieceView;

    open spec fn view(&self) -> PieceView {
        (self.text@, self.fg, self.bg, self.bold)
    }
}

pub open spec fn pieces_view(v: Seq<Piece>) -> Seq<PieceView> {
    v.map_values(|p: Piece| p@)
}

pub open spec fn spaces(n: int) -> Seq<char> {
    Seq::new(n as nat, |i: int| ' ')
}

pub open spec fn rules(n: int) -> Seq<char> {
    Seq::new(n as nat, |i: int| '─')
}

/// `n` copies of `c`.
pub(crate) fn repeat_char(c: char, n: usize) -> (s: String)
    ensures
        s@ == Seq::new(n as nat, |i: int| c),
{
    let mut s = String::new();
    let mut i: usize = 0;
    while i < n
        invariant
            i <= n,
            s@ == Seq::new(i as nat, |k: int| c),
        decreases n - i,
    {
        push_char(&mut s, c);
        assert(s@ =~= Seq::new((i + 1) as nat, |k: int| c));
        i += 1;
    }
    s
}

/// `text` with `before` spaces in front and `after` spaces behind.
pub(crate) fn padded(before: usize, text: &str, after: usize) -> (r: String)
    ensures
        r@ == Seq::new(before as nat, |i: int| ' ') + text@ + Seq::new(after as nat, |i: int| ' '),
{
    let mut out = repeat_char(' ', before);
    let c = chars_of(text);
    let ghost start = out@;
    let mut i: usize = 0;
    while i < c.len()
        invariant
            i <= c.len(),
            out@ == start + c@.take(i as int),
        decreases c.len() - i,
    {
        push_char(&mut out, c[i]);
        assert(c@.take(i + 1) =~= c@.take(i as int).push(c@[i as int]));
        i += 1;
    }
    assert(c@.take(c.len() as int) =~= c@);
    let mut j: usize = 0;
    let ghost mid = out@;
    while j < after
        invariant
            j <= after,
            out@ == mid + Seq::new(j as nat, |k: int| ' '),
        decreases after - j,
    {
        push_char(&mut out, ' ');
        assert(mid + Seq::new((j + 1) as nat, |k: int| ' ') =~= (mid + Seq::new(j as nat, |k: int| ' ')).push(' '));
        j += 1;
    }
    out
}

/// `a + b`, or the largest `usize` when that does not fit.
pub open spec fn sat_add(a: int, b: int) -> int {
    if a + b > usize::MAX {
        usize::MAX as int
    } else {
        a + b
    }
}

pub(crate) fn sat_add_usize(a: usize, b: usize) -> (r: usize)
    ensures
        r == sat_add(a as int, b as int),
{
    a.saturating_add(b)
}

/// The columns the pieces take, adding up to at most the largest `usize`.
pub open spec fn used_width(p: Seq<PieceView>) -> int
    decreases p.len(),
{
    if p.len() == 0 {
        0
    } else {
        sat_add(used_width(p.drop_last()), display_width(p.last().0) as int)
    }
}

/// Columns taken by `s`.
pub(crate) fn width_of(s: &str) -> (w: usize)
    ensures
        w == display_width(s@),
{
    text_width(s)
}

/// Appends a piece and adds its columns to `used`.
pub(crate) fn push_piece(
    out: &mut Vec<Piece>,
    used: &mut usize,
    text: String,
    fg: Option<Role>,
    bg: Option<Role>,
    bold: bool,
)
    requires
        *old(used) == used_width(pieces_view(old(out)@)),
    ensures
        pieces_view(final(out)@) == pieces_view(old(out)@).push((text@, fg, bg, bold)),
        *final(used) == used_width(pieces_view(final(out)@)),
{
    let w = width_of(text.as_str());
    let ghost before = pieces_view(out@);
    out.push(Piece { text, fg, bg, bold });
    assert(pieces_view(out@) =~= before.push(out@.last()@));
    assert(pieces_view(out@).drop_last() =~= before);
    *used = sat_add_usize(*used, w);
}

/// Appends a piece.
pub(crate) fn push_plain(out: &mut Vec<Piece>, text: String, fg: Option<Role>, bg: Option<Role>, bold: bool)
    ensures
        pieces_view(final(out)@) == pieces_view(old(out)@).push((text@, fg, bg, bold)),
{
    let ghost before = pieces_view(out@);
    out.push(Piece { text, fg, bg, bold });
    assert(pieces_view(out@) =~= before.push(out@.last()@));
}

/// The decimal digit `d` (taken below ten).
pub open spec fn digit_char(d: int) -> char {
    if d == 0 {
        '0'
    } else if d == 1 {
        '1'
    } else if d == 2 {
        '2'
    } else if d == 3 {
        '3'
    } else if d == 4 {
        '4'
    } else if d == 5 {
        '5'
    } else if d == 6 {
        '6'
    } else if d == 7 {
        '7'
    } else if d == 8 {
        '8'
    } else {
        '9'
    }
}

/// `n` written in decimal, without leading zeros.
pub open spec fn decimal(n: nat) -> Seq<char>
    decreases n,
{
    if n < 10 {
        seq![digit_char(n as int)]
    } else {
        decimal(n / 10).push(digit_char((n % 10) as int))
    }
}

fn digit(d: usize) -> (c: char)
    requires
        d < 10,
    ensures
        c == digit_char(d as int),
{
    if d == 0 {
        '0'
    } else if d == 1 {
        '1'
    } else if d == 2 {
        '2'
    } else if d == 3 {
        '3'
    } else if d == 4 {
        '4'
    } else if d == 5 {
        '5'
    } else if d == 6 {
        '6'
    } else if d == 7 {
        '7'
    } else if d == 8 {
        '8'
    } else {
        '9'
    }
}

/// Appends `n` in decimal to `out`.
pub(crate) fn push_decimal(out: &mut String, n: usize)
    ensures
        final(out)@ == old(out)@ + decimal(n as nat),
    decreases n,
{
    if n >= 10 {
        push_decimal(out, n / 10);
        let ghost mid = out@;
        push_char(out, digit(n % 10));
        assert(mid.push(digit_char((n % 10) as int)) =~= old(out)@ + decimal(n as nat));
    } else {
        let ghost start = out@;
        push_char(out, digit(n));
        assert(start.push(digit_char(n as int)) =~= old(out)@ + decimal(n as nat));
    }
}

/// The decimal text of `n`.
pub fn decimal_text(n: usize) -> (s: String)
    ensures
        s@ == decimal(n as nat),
{
    let mut s = String::new();
    push_decimal(&mut s, n);
    assert(s@ =~= decimal(n as nat));
    s
}

/// Appends the characters of `text` to `out`.
pub(crate) fn push_str(out: &mut String, text: &str)
    ensures
        final(out)@ == old(out)@ + text@,
{
    let c = chars_of(text);
    let ghost start = out@;
    let mut i: usize = 0;
    while i < c.len()
        invariant
            i <= c.len(),
            c@ == text@,
            out@ == start + c@.take(i as int),
        decreases c.len() - i,
    {
        push_char(out, c[i]);
        assert(c@.take(i + 1) =~= c@.take(i as int).push(c@[i as int]));
        i += 1;
    }
    assert(c@.take(c.len() as int) =~= c@);
}

} // verus!
