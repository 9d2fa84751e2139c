//! ANSI terminal control sequences for styles, produced by `termion`.
use vstd::prelude::*;
use crate::mimi::style::{Color, Modifier, Style};
use crate::mimi::text::push_str;
use crate::text::decimal;

verus! {

/// `ESC [`, the start of every control sequence.
pub open spec fn csi() -> Seq<char> {
    seq!['\u{1b}', '[']
}

/// The sequence that selects palette color `index` for the text:
/// `ESC [ 38 ; 5 ; index m`.
pub open spec fn fg_sequence(index: u8) -> Seq<char> {
    csi() + seq!['3', '8', ';', '5', ';'] + decimal(index as nat) + seq!['m']
}

/// The sequence that selects palette color `index` for the background:
/// `ESC [ 48 ; 5 ; index m`.
pub open spec fn bg_sequence(index: u8) -> Seq<char> {
    csi() + seq!['4', '8', ';', '5', ';'] + decimal(index as nat) + seq!['m']
}

/// `ESC [ 39 m`: the terminal's default text color.
pub open spec fn fg_default_sequence() -> Seq<char> {
    csi() + seq!['3', '9', 'm']
}

/// `ESC [ 49 m`: the terminal's default background color.
pub open spec fn bg_default_sequence() -> Seq<char> {
    csi() + seq!['4', '9', 'm']
}

/// `ESC [ 1 m`, `ESC [ 4 m` and `ESC [ 7 m`: bold, underlined and inverted text.
pub open spec fn modifier_sequence(m: Modifier) -> Seq<char> {
    match m {
        Modifier::Bold => csi() + seq!['1', 'm'],
        Modifier::Underline => csi() + seq!['4', 'm'],
        Modifier::Reverse => csi() + seq!['7', 'm'],
    }
}

/// `ESC [ m`: resets all attributes.
pub open spec fn reset_sequence() -> Seq<char> {
    csi() + seq!['m']
}

/// Calls `termion::color::AnsiValue::fg_string`, which writes
/// `ESC [ 38 ; 5 ; index m` with `index` in decimal.
#[verifier::external_body]
fn termion_fg(index: u8) -> (s: String)
    ensures
        s@ == fg_sequence(index),
{
    termion::color::AnsiValue(index).fg_string()
}

/// Calls `termion::color::AnsiValue::bg_string`, which writes
/// `ESC [ 48 ; 5 ; index m` with `index` in decimal.
#[verifier::external_body]
fn termion_bg(index: u8) -> (s: String)
    ensures
        s@ == bg_sequence(index),
{
    termion::color::AnsiValue(index).bg_string()
}

/// Calls `termion::color::Reset::fg_str`, the constant `ESC [ 39 m`.
#[verifier::external_body]
fn termion_fg_default() -> (s: String)
    ensures
        s@ == fg_default_sequence(),
{
    termion::color::Reset.fg_str().to_string()
}

/// Calls `termion::color::Reset::bg_str`, the constant `ESC [ 49 m`.
#[verifier::external_body]
fn termion_bg_default() -> (s: String)
    ensures
        s@ == bg_default_sequence(),
{
    termion::color::Reset.bg_str().to_string()
}

/// Formats `termion::style::Bold`, which writes `ESC [ 1 m`.
#[verifier::external_body]
fn termion_bold() -> (s: String)
    ensures
        s@ == modifier_sequence(Modifier::Bold),
{
    format!("{}", termion::style::Bold)
}

/// Formats `termion::style::Underline`, which writes `ESC [ 4 m`.
#[verifier::external_body]
fn termion_underline() -> (s: String)
    ensures
        s@ == modifier_sequence(Modifier::Underline),
{
    format!("{}", termion::style::Underline)
}

/// Formats `termion::style::Invert`, which writes `ESC [ 7 m`.
#[verifier::external_body]
fn termion_invert() -> (s: String)
    ensures
        s@ == modifier_sequence(Modifier::Reverse),
{
    format!("{}", termion::style::Invert)
}

/// Formats `termion::style::Reset`, which writes `ESC [ m`.
#[verifier::external_body]
fn termion_reset() -> (s: String)
    ensures
        s@ == reset_sequence(),
{
    format!("{}", termion::style::Reset)
}

/// The palette index that the terminal gives each named color; `None` for
/// the terminal's default color.
pub open spec fn palette_index(c: Color) -> Option<u8> {
    match c {
        Color::Reset => None,
        Color::Black => Some(0),
        Color::Red => Some(1),
        Color::Green => Some(2),
        Color::Yellow => Some(3),
        Color::Blue => Some(4),
        Color::Magenta => Some(5),
        Color::Cyan => Some(6),
        Color::White => Some(7),
        Color::LightBlack => Some(8),
        Color::LightRed => Some(9),
        Color::LightGreen => Some(10),
        Color::LightYellow => Some(11),
        Color::LightBlue => Some(12),
        Color::LightMagenta => Some(13),
        Color::LightCyan => Some(14),
        Color::LightWhite => Some(15),
    }
}

fn palette_index_exec(c: Color) -> (r: Option<u8>)
    ensures
        r == palette_index(c),
{
    match c {
        Color::Reset => None,
        Color::Black => Some(0),
        Color::Red => Some(1),
        Color::Green => Some(2),
        Color::Yellow => Some(3),
        Color::Blue => Some(4),
        Color::Magenta => Some(5),
        Color::Cyan => Some(6),
        Color::White => Some(7),
        Color::LightBlack => Some(8),
        Color::LightRed => Some(9),
        Color::LightGreen => Some(10),
        Color::LightYellow => Some(11),
        Color::LightBlue => Some(12),
        Color::LightMagenta => Some(13),
        Color::LightCyan => Some(14),
        Color::LightWhite => Some(15),
    }
}

/// The sequence that sets `c` as the text color.
pub open spec fn fg_color_sequence(c: Color) -> Seq<char> {
    match palette_index(c) {
        Some(i) => fg_sequence(i),
        None => fg_default_sequence(),
    }
}

/// The sequence that sets `c` as the background color.
pub open spec fn bg_color_sequence(c: Color) -> Seq<char> {
    match palette_index(c) {
        Some(i) => bg_sequence(i),
        None => bg_default_sequence(),
    }
}

/// The control sequence for a style: foreground color, background color,
/// then bold, underline and reverse, each only where the style has it.
pub open spec fn style_sequence(st: Style) -> Seq<char> {
    (match st.foreground {
        Some(c) => fg_color_sequence(c),
        None => Seq::empty(),
    }) + (match st.background {
        Some(c) => bg_color_sequence(c),
        None => Seq::empty(),
    }) + (if st.modifiers.bold {
        modifier_sequence(Modifier::Bold)
    } else {
        Seq::empty()
    }) + (if st.modifiers.underline {
        modifier_sequence(Modifier::Underline)
    } else {
        Seq::empty()
    }) + (if st.modifiers.reverse {
        modifier_sequence(Modifier::Reverse)
    } else {
        Seq::empty()
    })
}

fn fg_color(c: Color) -> (s: String)
    ensures
        s@ == fg_color_sequence(c),
{
    match palette_index_exec(c) {
        Some(i) => termion_fg(i),
        None => termion_fg_default(),
    }
}

fn bg_color(c: Color) -> (s: String)
    ensures
        s@ == bg_color_sequence(c),
{
    match palette_index_exec(c) {
        Some(i) => termion_bg(i),
        None => termion_bg_default(),
    }
}

/// The sequence that resets all attributes, as a `String`.
pub fn reset() -> (s: String)
    ensures
        s@ == reset_sequence(),
{
    termion_reset()
}

impl Style {
    /// An ANSI control code sequence that will cause text to be formatted in
    /// the given style. This assumes that the old state has no foreground
    /// color, no background color, etc.
    pub fn ansi(&self) -> (s: String)
        ensures
            s@ == style_sequence(*self),
    {
        let mut s = String::new();
        match self.foreground {
            Some(c) => push_str(&mut s, &fg_color(c)),
            None => {},
        }
        match self.background {
            Some(c) => push_str(&mut s, &bg_color(c)),
            None => {},
        }
        if self.modifiers.bold {
            push_str(&mut s, &termion_bold());
        }
        if self.modifiers.underline {
            push_str(&mut s, &termion_underline());
        }
        if self.modifiers.reverse {
            push_str(&mut s, &termion_invert());
        }
        assert(s@ =~= style_sequence(*self));
        s
    }
}

/// The standard terminal palette: the eight colors black, red, green,
/// yellow, blue, magenta, cyan and white are numbers 0 to 7, their light
/// forms 8 to 15, and only the terminal's default color has no number.
/// So blue text, for one, is `ESC [ 38 ; 5 ; 4 m`.
pub proof fn lemma_standard_palette()
    ensures
        palette_index(Color::Reset) is None,
        palette_index(Color::Black) == Some(0u8),
        palette_index(Color::Red) == Some(1u8),
        palette_index(Color::Green) == Some(2u8),
        palette_index(Color::Yellow) == Some(3u8),
        palette_index(Color::Blue) == Some(4u8),
        palette_index(Color::Magenta) == Some(5u8),
        palette_index(Color::Cyan) == Some(6u8),
        palette_index(Color::White) == Some(7u8),
        palette_index(Color::LightBlack) == Some(8u8),
        palette_index(Color::LightRed) == Some(9u8),
        palette_index(Color::LightGreen) == Some(10u8),
        palette_index(Color::LightYellow) == Some(11u8),
        palette_index(Color::LightBlue) == Some(12u8),
        palette_index(Color::LightMagenta) == Some(13u8),
        palette_index(Color::LightCyan) == Some(14u8),
        palette_index(Color::LightWhite) == Some(15u8),
        forall|a: Color, b: Color| #![trigger palette_index(a), palette_index(b)]
            palette_index(a) == palette_index(b) ==> a == b,
        fg_color_sequence(Color::Blue) == seq!['\u{1b}', '[', '3', '8', ';', '5', ';', '4', 'm'],
        bg_color_sequence(Color::Blue) == seq!['\u{1b}', '[', '4', '8', ';', '5', ';', '4', 'm'],
        fg_color_sequence(Color::LightBlue) == seq!['\u{1b}', '[', '3', '8', ';', '5', ';', '1', '2', 'm'],
        fg_color_sequence(Color::Reset) == seq!['\u{1b}', '[', '3', '9', 'm'],
{
    assert(decimal(4) == seq!['4']);
    assert(decimal(1) == seq!['1']);
    assert(decimal(12) == decimal(1).push('2'));
    assert(fg_color_sequence(Color::Blue) =~= seq!['\u{1b}', '[', '3', '8', ';', '5', ';', '4', 'm']);
    assert(bg_color_sequence(Color::Blue) =~= seq!['\u{1b}', '[', '4', '8', ';', '5', ';', '4', 'm']);
    assert(fg_color_sequence(Color::LightBlue) =~= seq!['\u{1b}', '[', '3', '8', ';', '5', ';', '1', '2', 'm']);
    assert(fg_color_sequence(Color::Reset) =~= seq!['\u{1b}', '[', '3', '9', 'm']);
}

} // verus!
