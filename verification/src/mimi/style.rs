//! Colors, modifiers (bold/underline/reverse) and their combination.
use vstd::prelude::*;

verus! {

/// Any formatting information that isn't foreground or background color.
#[derive(Copy, Clone, Debug, PartialEq, Eq, Hash, Structural)]
pub enum Modifier {
    Bold,
    Underline,
    Reverse,
}

/// Foreground or background color. Colors are written in `snake_case`, so
/// `light_red` becomes `LightRed`, etc.
#[derive(Copy, Clone, Debug, PartialEq, Eq, Hash, Structural)]
pub enum Color {
    /// The terminal's default foreground/background color.
    Reset,
    Black,
    White,
    Red,
    Green,
    Yellow,
    Blue,
    Magenta,
    Cyan,
    LightBlack,
    LightWhite,
    LightRed,
    LightGreen,
    LightYellow,
    LightBlue,
    LightMagenta,
    LightCyan,
}

/// A set of modifiers. Each modifier is either present or absent, so the set
/// is stored as one flag per modifier.
#[derive(Copy, Clone, Debug, PartialEq, Eq, Hash, Structural)]
pub struct ModifierSet {
    pub bold: bool,
    pub underline: bool,
    pub reverse: bool,
}

impl View for ModifierSet {
    type V = Set<Modifier>;

    open spec fn view(&self) -> Set<Modifier> {
        Set::new(|m: Modifier| self.spec_contains(m))
    }
}

impl ModifierSet {
    pub open spec fn spec_contains(self, m: Modifier) -> bool {
        match m {
            Modifier::Bold => self.bold,
            Modifier::Underline => self.underline,
            Modifier::Reverse => self.reverse,
        }
    }

    /// The empty set.
    pub fn new() -> (s: ModifierSet)
        ensures
            s@ == Set::<Modifier>::empty(),
            s == (ModifierSet { bold: false, underline: false, reverse: false }),
    {
        let s = ModifierSet { bold: false, underline: false, reverse: false };
        assert(s@ =~= Set::<Modifier>::empty());
        s
    }

    /// Whether `m` is in the set.
    pub fn contains(&self, m: Modifier) -> (b: bool)
        ensures
            b == self@.contains(m),
    {
        match m {
            Modifier::Bold => self.bold,
            Modifier::Underline => self.underline,
            Modifier::Reverse => self.reverse,
        }
    }

    /// Adds `m` to the set. Returns whether it was absent before.
    pub fn insert(&mut self, m: Modifier) -> (added: bool)
        ensures
            final(self)@ == old(self)@.insert(m),
            added == !old(self)@.contains(m),
    {
        let added = !self.contains(m);
        match m {
            Modifier::Bold => self.bold = true,
            Modifier::Underline => self.underline = true,
            Modifier::Reverse => self.reverse = true,
        }
        assert(self@ =~= old(self)@.insert(m));
        added
    }

    /// The union of the two sets.
    pub fn union(&self, other: &ModifierSet) -> (s: ModifierSet)
        ensures
            s@ == self@.union(other@),
            s == (ModifierSet {
                bold: self.bold || other.bold,
                underline: self.underline || other.underline,
                reverse: self.reverse || other.reverse,
            }),
    {
        let s = ModifierSet {
            bold: self.bold || other.bold,
            underline: self.underline || other.underline,
            reverse: self.reverse || other.reverse,
        };
        assert(s@ =~= self@.union(other@));
        s
    }
}


/// Describes the foreground color, background color, and any additional
/// modifications (reverse, bold, etc).
#[derive(Copy, Clone, Debug, PartialEq, Eq, Hash, Structural)]
pub struct Style {
    /// The color used to render the text. If `None`, uses whatever the
    /// terminal's default color is.
    pub foreground: Option<Color>,
    /// The color used to render the background. If `None`, uses whatever the
    /// terminal's default color is.
    pub background: Option<Color>,
    /// Any extra formatting information, such as bold/underline.
    pub modifiers: ModifierSet,
}

/// The style with no colors and no modifiers.
pub open spec fn plain_style() -> Style {
    Style {
        foreground: None,
        background: None,
        modifiers: ModifierSet { bold: false, underline: false, reverse: false },
    }
}

/// `b`'s value where it has one, else `a`'s.
pub open spec fn override_with<T>(a: Option<T>, b: Option<T>) -> Option<T> {
    match b {
        Some(x) => Some(x),
        None => a,
    }
}

/// The style that `a.combine(&b)` returns: `b`'s colors override `a`'s where
/// `b` has them, and the modifiers are the union of both.
pub open spec fn combined(a: Style, b: Style) -> Style {
    Style {
        foreground: override_with(a.foreground, b.foreground),
        background: override_with(a.background, b.background),
        modifiers: ModifierSet {
            bold: a.modifiers.bold || b.modifiers.bold,
            underline: a.modifiers.underline || b.modifiers.underline,
            reverse: a.modifiers.reverse || b.modifiers.reverse,
        },
    }
}

impl Default for Style {
    fn default() -> (s: Style)
        ensures
            s == plain_style(),
    {
        Style { foreground: None, background: None, modifiers: ModifierSet::new() }
    }
}

impl Style {
    /// Combines the two styles. If `other` has a foreground color specified,
    /// the combined style uses that color; else, `self`'s color is used. The
    /// same logic applies to background colors. The modifier sets are unioned.
    pub fn combine(&self, other: &Style) -> (c: Style)
        ensures
            c == combined(*self, *other),
            c.modifiers@ == self.modifiers@.union(other.modifiers@),
    {
        let foreground = match other.foreground {
            Some(color) => Some(color),
            None => self.foreground,
        };
        let background = match other.background {
            Some(color) => Some(color),
            None => self.background,
        };
        Style { foreground, background, modifiers: self.modifiers.union(&other.modifiers) }
    }
}

/// `combine` is associative: `a.combine(b.combine(c)) == a.combine(b).combine(c)`.
pub proof fn lemma_combine_associative(a: Style, b: Style, c: Style)
    ensures
        combined(a, combined(b, c)) == combined(combined(a, b), c),
{
}

/// The default style is a two-sided identity of `combine`:
/// `a.combine(default) == default.combine(a) == a`.
pub proof fn lemma_combine_identity(a: Style)
    ensures
        combined(a, plain_style()) == a,
        combined(plain_style(), a) == a,
{
}

/// Combining styles where each sets only what the other leaves unset gives
/// the same result in either order.
pub proof fn lemma_combine_commutes_on_disjoint_colors(a: Style, b: Style)
    requires
        a.foreground is None || b.foreground is None,
        a.background is None || b.background is None,
    ensures
        combined(a, b) == combined(b, a),
{
}

/// Combining a style with itself changes nothing: in particular two
/// `reverse` styles do not cancel each other out.
pub proof fn lemma_combine_idempotent(a: Style)
    ensures
        combined(a, a) == a,
{
}

/// A modifier set on either side is set in the combination; no modifier
/// ever switches another off.
pub proof fn lemma_modifiers_accumulate(a: Style, b: Style, m: Modifier)
    ensures
        a.modifiers@.contains(m) || b.modifiers@.contains(m) ==> combined(a, b).modifiers@.contains(m),
{
}

} // verus!
