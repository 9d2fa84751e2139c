//! Parsing a format string into the tree of nodes that formatting works on.
//!
//! The syntax:
//! - `$name` or `${name}` is a variable; names are made of ASCII letters,
//!   digits and `_`.
//! - `%[attr, attr, ...]{...}` is a styled section; an attribute is a color
//!   (`red`, `light_blue`, `reset`, ...), a background color (`bg_` and a
//!   color) or a modifier (`bold`, `underline`, `reverse`). Spaces and tabs
//!   may stand around attributes. Styled sections nest.
//! - The characters `\ $ { } %` are special; a backslash before one of them
//!   makes it literal text. Every other character is literal text.
use vstd::prelude::*;
use vstd::string::StrSliceExecFns;
use crate::mimi::style::{Color, Modifier, ModifierSet, Style, plain_style};
use crate::mimi::text::{push_char, str_chars};

verus! {

/// A node in the parse tree.
#[derive(Debug, PartialEq, Eq)]
pub enum Node {
    /// A textual literal.
    Literal(String),
    /// A variable whose name is given by the string.
    Variable(String),
    /// A section whose text is formatted with `style` (combined with the
    /// styles of the sections around it).
    Formatted { style: Style, children: Vec<Node> },
}

/// The mathematical value of a [`Node`]: strings are taken by their characters.
pub enum SpecNode {
    Literal(Seq<char>),
    Variable(Seq<char>),
    Formatted(Style, Seq<SpecNode>),
}

/// The value of a node.
pub open spec fn node_view(n: Node) -> SpecNode
    decreases n,
{
    match n {
        Node::Literal(s) => SpecNode::Literal(s@),
        Node::Variable(s) => SpecNode::Variable(s@),
        Node::Formatted { style, children } => SpecNode::Formatted(style, nodes_view(children@)),
    }
}

/// The values of a sequence of nodes.
pub open spec fn nodes_view(s: Seq<Node>) -> Seq<SpecNode>
    decreases s,
{
    if s.len() == 0 {
        Seq::empty()
    } else {
        seq![node_view(s[0])] + nodes_view(s.drop_first())
    }
}

impl View for Node {
    type V = SpecNode;

    open spec fn view(&self) -> SpecNode {
        node_view(*self)
    }
}

pub proof fn lemma_nodes_view_len(s: Seq<Node>)
    ensures
        nodes_view(s).len() == s.len(),
    decreases s.len(),
{
    if s.len() > 0 {
        lemma_nodes_view_len(s.drop_first());
    }
}

pub proof fn lemma_nodes_view_index(s: Seq<Node>, i: int)
    requires
        0 <= i < s.len(),
    ensures
        nodes_view(s)[i] == node_view(s[i]),
    decreases s.len(),
{
    lemma_nodes_view_len(s.drop_first());
    if i > 0 {
        lemma_nodes_view_index(s.drop_first(), i - 1);
    }
}

pub proof fn lemma_nodes_view_push(s: Seq<Node>, n: Node)
    ensures
        nodes_view(s.push(n)) == nodes_view(s).push(node_view(n)),
    decreases s.len(),
{
    if s.len() == 0 {
        assert(s.push(n).drop_first() =~= Seq::<Node>::empty());
        assert(s.push(n)[0] == n);
        assert(nodes_view(Seq::<Node>::empty()) == Seq::<SpecNode>::empty());
        assert(nodes_view(s) == Seq::<SpecNode>::empty());
        assert(nodes_view(s.push(n)) =~= seq![node_view(n)]);
    } else {
        assert(s.push(n).drop_first() =~= s.drop_first().push(n));
        lemma_nodes_view_push(s.drop_first(), n);
        assert(s.push(n)[0] == s[0]);
        assert(nodes_view(s.push(n)) =~= nodes_view(s).push(node_view(n)));
    }
}

/// An error while parsing a format string: the position (counted in
/// characters) at which the input stopped making sense.
#[derive(Copy, Clone, Debug, PartialEq, Eq)]
pub struct ParseError {
    pub position: usize,
}

// ---------------------------------------------------------------------------
// The grammar, as spec functions. Each takes the input and a position and
// gives what is found there and the position just past it, or the position
// of the error.

/// Characters that have a meaning of their own and must be escaped with a
/// backslash to stand for themselves.
pub open spec fn is_special(c: char) -> bool {
    c == '\\' || c == '$' || c == '{' || c == '}' || c == '%'
}

/// Characters that can appear in a variable name.
pub open spec fn is_ident_char(c: char) -> bool {
    ('a' <= c && c <= 'z') || ('A' <= c && c <= 'Z') || ('0' <= c && c <= '9') || c == '_'
}

/// Characters that make up an attribute name.
pub open spec fn is_word_char(c: char) -> bool {
    ('a' <= c && c <= 'z') || c == '_'
}

/// Whitespace allowed around attributes.
pub open spec fn is_space(c: char) -> bool {
    c == ' ' || c == '\t'
}

/// End of the run of identifier characters that starts at `i`.
pub open spec fn ident_end(s: Seq<char>, i: int) -> int
    decreases s.len() - i,
{
    if 0 <= i < s.len() && is_ident_char(s[i]) {
        ident_end(s, i + 1)
    } else {
        i
    }
}

/// End of the run of attribute-name characters that starts at `i`.
pub open spec fn word_end(s: Seq<char>, i: int) -> int
    decreases s.len() - i,
{
    if 0 <= i < s.len() && is_word_char(s[i]) {
        word_end(s, i + 1)
    } else {
        i
    }
}

/// The first position at or after `i` that is not a space.
pub open spec fn skip_spaces(s: Seq<char>, i: int) -> int
    decreases s.len() - i,
{
    if 0 <= i < s.len() && is_space(s[i]) {
        skip_spaces(s, i + 1)
    } else {
        i
    }
}

pub proof fn lemma_ident_end(s: Seq<char>, i: int)
    requires
        0 <= i <= s.len(),
    ensures
        i <= ident_end(s, i) <= s.len(),
        forall|k: int| i <= k < ident_end(s, i) ==> is_ident_char(#[trigger] s[k]),
        ident_end(s, i) < s.len() ==> !is_ident_char(s[ident_end(s, i)]),
    decreases s.len() - i,
{
    if i < s.len() && is_ident_char(s[i]) {
        lemma_ident_end(s, i + 1);
    }
}

pub proof fn lemma_word_end(s: Seq<char>, i: int)
    requires
        0 <= i <= s.len(),
    ensures
        i <= word_end(s, i) <= s.len(),
    decreases s.len() - i,
{
    if i < s.len() && is_word_char(s[i]) {
        lemma_word_end(s, i + 1);
    }
}

pub proof fn lemma_skip_spaces(s: Seq<char>, i: int)
    requires
        0 <= i <= s.len(),
    ensures
        i <= skip_spaces(s, i) <= s.len(),
    decreases s.len() - i,
{
    if i < s.len() && is_space(s[i]) {
        lemma_skip_spaces(s, i + 1);
    }
}

/// Literal text starting at `i`: a maximal run of ordinary characters and
/// escapes (a backslash followed by a special character). A backslash that
/// is not followed by a special character is an error.
pub open spec fn spec_literal(s: Seq<char>, i: int) -> Result<(Seq<char>, int), int>
    decreases s.len() - i,
{
    if i < 0 || i >= s.len() {
        Ok((Seq::empty(), i))
    } else if s[i] == '\\' {
        if i + 1 < s.len() && is_special(s[i + 1]) {
            match spec_literal(s, i + 2) {
                Ok((t, j)) => Ok((seq![s[i + 1]] + t, j)),
                Err(e) => Err(e),
            }
        } else {
            Err(i)
        }
    } else if is_special(s[i]) {
        Ok((Seq::empty(), i))
    } else {
        match spec_literal(s, i + 1) {
            Ok((t, j)) => Ok((seq![s[i]] + t, j)),
            Err(e) => Err(e),
        }
    }
}

pub proof fn lemma_literal_progress(s: Seq<char>, i: int)
    requires
        0 <= i,
    ensures
        spec_literal(s, i) matches Ok((t, j)) ==> i <= j && (t.len() == 0 <==> j == i),
    decreases s.len() - i,
{
    if i < s.len() {
        if s[i] == '\\' {
            if i + 1 < s.len() && is_special(s[i + 1]) {
                lemma_literal_progress(s, i + 2);
            }
        } else if !is_special(s[i]) {
            lemma_literal_progress(s, i + 1);
        }
    }
}

/// A variable starting at `i`, where `s[i]` is `$`: either `${name}` or
/// `$name` with the longest name possible. The name must not be empty.
pub open spec fn spec_variable(s: Seq<char>, i: int) -> Result<(Seq<char>, int), int> {
    if i + 1 < s.len() && s[i + 1] == '{' {
        let e = ident_end(s, i + 2);
        if e > i + 2 && e < s.len() && s[e] == '}' {
            Ok((s.subrange(i + 2, e), e + 1))
        } else {
            Err(e)
        }
    } else {
        let e = ident_end(s, i + 1);
        if e > i + 1 {
            Ok((s.subrange(i + 1, e), e))
        } else {
            Err(i + 1)
        }
    }
}

/// One attribute of a style section.
#[derive(Copy, Clone, Debug, PartialEq, Eq)]
pub enum Attribute {
    Foreground(Color),
    Background(Color),
    Modifier(Modifier),
}

/// The color with the given name, if any.
pub open spec fn color_named(w: Seq<char>) -> Option<Color> {
    if w == "reset"@ {
        Some(Color::Reset)
    } else if w == "black"@ {
        Some(Color::Black)
    } else if w == "white"@ {
        Some(Color::White)
    } else if w == "red"@ {
        Some(Color::Red)
    } else if w == "green"@ {
        Some(Color::Green)
    } else if w == "yellow"@ {
        Some(Color::Yellow)
    } else if w == "blue"@ {
        Some(Color::Blue)
    } else if w == "magenta"@ {
        Some(Color::Magenta)
    } else if w == "cyan"@ {
        Some(Color::Cyan)
    } else if w == "light_black"@ {
        Some(Color::LightBlack)
    } else if w == "light_white"@ {
        Some(Color::LightWhite)
    } else if w == "light_red"@ {
        Some(Color::LightRed)
    } else if w == "light_green"@ {
        Some(Color::LightGreen)
    } else if w == "light_yellow"@ {
        Some(Color::LightYellow)
    } else if w == "light_blue"@ {
        Some(Color::LightBlue)
    } else if w == "light_magenta"@ {
        Some(Color::LightMagenta)
    } else if w == "light_cyan"@ {
        Some(Color::LightCyan)
    } else {
        None
    }
}

/// The modifier with the given name, if any.
pub open spec fn modifier_named(w: Seq<char>) -> Option<Modifier> {
    if w == "bold"@ {
        Some(Modifier::Bold)
    } else if w == "underline"@ {
        Some(Modifier::Underline)
    } else if w == "reverse"@ {
        Some(Modifier::Reverse)
    } else {
        None
    }
}

/// The attribute with the given name: a color, `bg_` followed by a color, or
/// a modifier.
pub open spec fn attribute_named(w: Seq<char>) -> Option<Attribute> {
    match color_named(w) {
        Some(c) => Some(Attribute::Foreground(c)),
        None => if w.len() >= 3 && w.subrange(0, 3) == "bg_"@ {
            match color_named(w.subrange(3, w.len() as int)) {
                Some(c) => Some(Attribute::Background(c)),
                None => None,
            }
        } else {
            match modifier_named(w) {
                Some(m) => Some(Attribute::Modifier(m)),
                None => None,
            }
        },
    }
}

/// `st` with the attribute applied: a later color replaces an earlier one,
/// and a modifier is added to the set.
pub open spec fn with_attribute(st: Style, a: Attribute) -> Style {
    match a {
        Attribute::Foreground(c) => Style { foreground: Some(c), ..st },
        Attribute::Background(c) => Style { background: Some(c), ..st },
        Attribute::Modifier(m) => Style {
            modifiers: match m {
                Modifier::Bold => ModifierSet { bold: true, ..st.modifiers },
                Modifier::Underline => ModifierSet { underline: true, ..st.modifiers },
                Modifier::Reverse => ModifierSet { reverse: true, ..st.modifiers },
            },
            ..st
        },
    }
}

/// The comma-separated attribute list of a style section, starting at `i`
/// and ending with `]`; the attributes are applied to `acc` in order.
pub open spec fn spec_attributes(s: Seq<char>, i: int, acc: Style) -> Result<(Style, int), int>
    decreases s.len() - i,
{
    if i < 0 || i > s.len() {
        Err(i)
    } else {
        let a = skip_spaces(s, i);
        let e = word_end(s, a);
        match attribute_named(s.subrange(a, e)) {
            None => Err(a),
            Some(attr) => {
                let st = with_attribute(acc, attr);
                let b = skip_spaces(s, e);
                proof {
                    lemma_skip_spaces(s, i);
                    lemma_word_end(s, a);
                    lemma_skip_spaces(s, e);
                }
                if b < s.len() && s[b] == ',' {
                    spec_attributes(s, b + 1, st)
                } else if b < s.len() && s[b] == ']' {
                    Ok((st, b + 1))
                } else {
                    Err(b)
                }
            },
        }
    }
}

pub proof fn lemma_attributes_advance(s: Seq<char>, i: int, acc: Style)
    ensures
        spec_attributes(s, i, acc) matches Ok((_, p)) ==> i < p <= s.len(),
        spec_attributes(s, i, acc) matches Err(e) ==> 0 <= i ==> i <= e,
    decreases s.len() - i,
{
    if 0 <= i <= s.len() {
        let a = skip_spaces(s, i);
        let e = word_end(s, a);
        lemma_skip_spaces(s, i);
        lemma_word_end(s, a);
        lemma_skip_spaces(s, e);
        if let Some(attr) = attribute_named(s.subrange(a, e)) {
            let b = skip_spaces(s, e);
            if b < s.len() && s[b] == ',' {
                lemma_attributes_advance(s, b + 1, with_attribute(acc, attr));
            }
        }
    }
}

/// The header `%[...]` of a style section starting at `i` (where `s[i]` is
/// `%`): the style and the position just past `]`.
pub open spec fn spec_style_header(s: Seq<char>, i: int) -> Result<(Style, int), int> {
    if i + 1 < s.len() && s[i + 1] == '[' {
        spec_attributes(s, i + 2, plain_style())
    } else {
        Err(i + 1)
    }
}

/// A sequence of items starting at `i`, up to the end of the input or an
/// unescaped `}`. Returns the nodes and the position where it stopped.
pub open spec fn spec_items(s: Seq<char>, i: int) -> Result<(Seq<SpecNode>, int), int>
    decreases s.len() - i, 1int,
{
    if i < 0 || i >= s.len() || s[i] == '}' {
        Ok((Seq::empty(), i))
    } else {
        match spec_item(s, i) {
            Err(e) => Err(e),
            Ok((n, j)) => if i < j <= s.len() {
                match spec_items(s, j) {
                    Ok((ns, k)) => Ok((seq![n] + ns, k)),
                    Err(e) => Err(e),
                }
            } else {
                Err(i)
            },
        }
    }
}

/// One item starting at `i`: a variable, a style section or literal text.
pub open spec fn spec_item(s: Seq<char>, i: int) -> Result<(SpecNode, int), int>
    decreases s.len() - i, 0int,
{
    if i < 0 || i >= s.len() {
        Err(i)
    } else if s[i] == '$' {
        match spec_variable(s, i) {
            Ok((name, j)) => Ok((SpecNode::Variable(name), j)),
            Err(e) => Err(e),
        }
    } else if s[i] == '%' {
        match spec_style_header(s, i) {
            Err(e) => Err(e),
            Ok((st, p)) => {
                proof {
                    lemma_attributes_advance(s, i + 2, plain_style());
                }
                if p < s.len() && s[p] == '{' {
                    match spec_items(s, p + 1) {
                        Ok((children, k)) => if 0 <= k < s.len() && s[k] == '}' {
                            Ok((SpecNode::Formatted(st, children), k + 1))
                        } else {
                            Err(k)
                        },
                        Err(e) => Err(e),
                    }
                } else {
                    Err(p)
                }
            },
        }
    } else if s[i] == '{' || s[i] == '}' {
        Err(i)
    } else {
        match spec_literal(s, i) {
            Ok((t, j)) => if t.len() > 0 {
                Ok((SpecNode::Literal(t), j))
            } else {
                Err(i)
            },
            Err(e) => Err(e),
        }
    }
}

/// A whole format string: the items must reach the end of the input. The
/// result is a section with the default style around the items.
pub open spec fn spec_parse(s: Seq<char>) -> Result<SpecNode, int> {
    match spec_items(s, 0) {
        Ok((ns, k)) => if k == s.len() {
            Ok(SpecNode::Formatted(plain_style(), ns))
        } else {
            Err(k)
        },
        Err(e) => Err(e),
    }
}


// ---------------------------------------------------------------------------
// Agreement between what a parsing function returns and the grammar.

pub open spec fn literal_agrees(
    r: Result<(String, usize), usize>,
    sp: Result<(Seq<char>, int), int>,
) -> bool {
    match (r, sp) {
        (Ok((t, k)), Ok((u, j))) => t@ == u && k == j,
        (Err(e), Err(f)) => e == f,
        _ => false,
    }
}

pub open spec fn style_agrees(r: Result<(Style, usize), usize>, sp: Result<(Style, int), int>) -> bool {
    match (r, sp) {
        (Ok((t, k)), Ok((u, j))) => t == u && k == j,
        (Err(e), Err(f)) => e == f,
        _ => false,
    }
}

pub open spec fn item_agrees(r: Result<(Node, usize), usize>, sp: Result<(SpecNode, int), int>) -> bool {
    match (r, sp) {
        (Ok((n, k)), Ok((m, j))) => node_view(n) == m && k == j,
        (Err(e), Err(f)) => e == f,
        _ => false,
    }
}

pub open spec fn items_agree(
    r: Result<(Vec<Node>, usize), usize>,
    sp: Result<(Seq<SpecNode>, int), int>,
) -> bool {
    match (r, sp) {
        (Ok((v, k)), Ok((ns, j))) => nodes_view(v@) == ns && k == j,
        (Err(e), Err(f)) => e == f,
        _ => false,
    }
}

/// `r` with `pre` put in front of the text it found.
pub open spec fn prefix_literal(pre: Seq<char>, r: Result<(Seq<char>, int), int>) -> Result<
    (Seq<char>, int),
    int,
> {
    match r {
        Ok((t, j)) => Ok((pre + t, j)),
        Err(e) => Err(e),
    }
}

/// `r` with `pre` put in front of the nodes it found.
pub open spec fn prefix_items(pre: Seq<SpecNode>, r: Result<(Seq<SpecNode>, int), int>) -> Result<
    (Seq<SpecNode>, int),
    int,
> {
    match r {
        Ok((ns, j)) => Ok((pre + ns, j)),
        Err(e) => Err(e),
    }
}

// ---------------------------------------------------------------------------
// The parser.

fn is_special_char(c: char) -> (b: bool)
    ensures
        b == is_special(c),
{
    c == '\\' || c == '$' || c == '{' || c == '}' || c == '%'
}

fn is_ident_char_exec(c: char) -> (b: bool)
    ensures
        b == is_ident_char(c),
{
    ('a' <= c && c <= 'z') || ('A' <= c && c <= 'Z') || ('0' <= c && c <= '9') || c == '_'
}

fn is_word_char_exec(c: char) -> (b: bool)
    ensures
        b == is_word_char(c),
{
    ('a' <= c && c <= 'z') || c == '_'
}

fn ident_end_exec(s: &Vec<char>, i: usize) -> (e: usize)
    requires
        i <= s.len(),
    ensures
        e == ident_end(s@, i as int),
        i <= e <= s.len(),
{
    let mut k = i;
    while k < s.len() && is_ident_char_exec(s[k])
        invariant
            i <= k <= s.len(),
            ident_end(s@, k as int) == ident_end(s@, i as int),
        decreases s.len() - k,
    {
        k = k + 1;
    }
    k
}

fn word_end_exec(s: &Vec<char>, i: usize) -> (e: usize)
    requires
        i <= s.len(),
    ensures
        e == word_end(s@, i as int),
        i <= e <= s.len(),
{
    let mut k = i;
    while k < s.len() && is_word_char_exec(s[k])
        invariant
            i <= k <= s.len(),
            word_end(s@, k as int) == word_end(s@, i as int),
        decreases s.len() - k,
    {
        k = k + 1;
    }
    k
}

fn skip_spaces_exec(s: &Vec<char>, i: usize) -> (e: usize)
    requires
        i <= s.len(),
    ensures
        e == skip_spaces(s@, i as int),
        i <= e <= s.len(),
{
    let mut k = i;
    while k < s.len() && (s[k] == ' ' || s[k] == '\t')
        invariant
            i <= k <= s.len(),
            skip_spaces(s@, k as int) == skip_spaces(s@, i as int),
        decreases s.len() - k,
    {
        k = k + 1;
    }
    k
}

/// The characters `s[a..b]` as a `String`.
fn string_of(s: &Vec<char>, a: usize, b: usize) -> (t: String)
    requires
        a <= b <= s.len(),
    ensures
        t@ == s@.subrange(a as int, b as int),
{
    let mut t = String::new();
    let mut k = a;
    while k < b
        invariant
            a <= k <= b <= s.len(),
            t@ == s@.subrange(a as int, k as int),
        decreases b - k,
    {
        push_char(&mut t, s[k]);
        k = k + 1;
        assert(t@ =~= s@.subrange(a as int, k as int));
    }
    t
}

/// Whether `s[a..b]` spells `w`.
fn spells(s: &Vec<char>, a: usize, b: usize, w: &str) -> (r: bool)
    requires
        a <= b <= s.len(),
    ensures
        r == (s@.subrange(a as int, b as int) == w@),
{
    let n = w.unicode_len();
    if b - a != n {
        return false;
    }
    let mut k: usize = 0;
    while k < n
        invariant
            n == w@.len(),
            b - a == n,
            a <= b <= s.len(),
            0 <= k <= n,
            forall|j: int| 0 <= j < k ==> s@[a + j] == w@[j],
        decreases n - k,
    {
        if s[a + k] != w.get_char(k) {
            assert(s@.subrange(a as int, b as int)[k as int] != w@[k as int]);
            return false;
        }
        k = k + 1;
    }
    assert(s@.subrange(a as int, b as int) =~= w@);
    true
}

fn parse_color(s: &Vec<char>, a: usize, b: usize) -> (r: Option<Color>)
    requires
        a <= b <= s.len(),
    ensures
        r == color_named(s@.subrange(a as int, b as int)),
{
    if spells(s, a, b, "reset") {
        Some(Color::Reset)
    } else if spells(s, a, b, "black") {
        Some(Color::Black)
    } else if spells(s, a, b, "white") {
        Some(Color::White)
    } else if spells(s, a, b, "red") {
        Some(Color::Red)
    } else if spells(s, a, b, "green") {
        Some(Color::Green)
    } else if spells(s, a, b, "yellow") {
        Some(Color::Yellow)
    } else if spells(s, a, b, "blue") {
        Some(Color::Blue)
    } else if spells(s, a, b, "magenta") {
        Some(Color::Magenta)
    } else if spells(s, a, b, "cyan") {
        Some(Color::Cyan)
    } else if spells(s, a, b, "light_black") {
        Some(Color::LightBlack)
    } else if spells(s, a, b, "light_white") {
        Some(Color::LightWhite)
    } else if spells(s, a, b, "light_red") {
        Some(Color::LightRed)
    } else if spells(s, a, b, "light_green") {
        Some(Color::LightGreen)
    } else if spells(s, a, b, "light_yellow") {
        Some(Color::LightYellow)
    } else if spells(s, a, b, "light_blue") {
        Some(Color::LightBlue)
    } else if spells(s, a, b, "light_magenta") {
        Some(Color::LightMagenta)
    } else if spells(s, a, b, "light_cyan") {
        Some(Color::LightCyan)
    } else {
        None
    }
}

fn parse_modifier(s: &Vec<char>, a: usize, b: usize) -> (r: Option<Modifier>)
    requires
        a <= b <= s.len(),
    ensures
        r == modifier_named(s@.subrange(a as int, b as int)),
{
    if spells(s, a, b, "bold") {
        Some(Modifier::Bold)
    } else if spells(s, a, b, "underline") {
        Some(Modifier::Underline)
    } else if spells(s, a, b, "reverse") {
        Some(Modifier::Reverse)
    } else {
        None
    }
}

fn attribute_named_at(s: &Vec<char>, a: usize, b: usize) -> (r: Option<Attribute>)
    requires
        a <= b <= s.len(),
    ensures
        r == attribute_named(s@.subrange(a as int, b as int)),
{
    let ghost w = s@.subrange(a as int, b as int);
    match parse_color(s, a, b) {
        Some(c) => Some(Attribute::Foreground(c)),
        None => {
            if b - a >= 3 && spells(s, a, a + 3, "bg_") {
                assert(w.subrange(0, 3) =~= s@.subrange(a as int, a + 3));
                assert(w.subrange(3, w.len() as int) =~= s@.subrange(a + 3, b as int));
                match parse_color(s, a + 3, b) {
                    Some(c) => Some(Attribute::Background(c)),
                    None => None,
                }
            } else {
                proof {
                    if w.len() >= 3 {
                        assert(w.subrange(0, 3) =~= s@.subrange(a as int, a + 3));
                    }
                }
                match parse_modifier(s, a, b) {
                    Some(m) => Some(Attribute::Modifier(m)),
                    None => None,
                }
            }
        },
    }
}

fn apply_attribute(st: Style, a: Attribute) -> (r: Style)
    ensures
        r == with_attribute(st, a),
{
    let mut r = st;
    match a {
        Attribute::Foreground(c) => r.foreground = Some(c),
        Attribute::Background(c) => r.background = Some(c),
        Attribute::Modifier(Modifier::Bold) => r.modifiers.bold = true,
        Attribute::Modifier(Modifier::Underline) => r.modifiers.underline = true,
        Attribute::Modifier(Modifier::Reverse) => r.modifiers.reverse = true,
    }
    r
}

fn build_style(s: &Vec<char>, i: usize) -> (r: Result<(Style, usize), usize>)
    requires
        i <= s.len(),
    ensures
        style_agrees(r, spec_attributes(s@, i as int, plain_style())),
{
    let mut acc = Style::default();
    let mut k = i;
    loop
        invariant
            i <= k <= s.len(),
            spec_attributes(s@, k as int, acc) == spec_attributes(s@, i as int, plain_style()),
        decreases s.len() - k,
    {
        let a = skip_spaces_exec(s, k);
        let e = word_end_exec(s, a);
        match attribute_named_at(s, a, e) {
            None => {
                return Err(a);
            },
            Some(attr) => {
                acc = apply_attribute(acc, attr);
                let b = skip_spaces_exec(s, e);
                if b < s.len() && s[b] == ',' {
                    k = b + 1;
                } else if b < s.len() && s[b] == ']' {
                    return Ok((acc, b + 1));
                } else {
                    return Err(b);
                }
            },
        }
    }
}

fn unescape_literal(s: &Vec<char>, i: usize) -> (r: Result<(String, usize), usize>)
    requires
        i <= s.len(),
    ensures
        literal_agrees(r, spec_literal(s@, i as int)),
        r matches Ok((_, j)) ==> i <= j <= s.len(),
{
    let mut text = String::new();
    let mut k = i;
    loop
        invariant
            i <= k <= s.len(),
            prefix_literal(text@, spec_literal(s@, k as int)) == spec_literal(s@, i as int),
        decreases s.len() - k,
    {
        if k >= s.len() {
            assert(text@ + Seq::<char>::empty() =~= text@);
            return Ok((text, k));
        }
        let c = s[k];
        if c == '\\' {
            if k + 1 < s.len() && is_special_char(s[k + 1]) {
                let ghost before = text@;
                push_char(&mut text, s[k + 1]);
                proof {
                    match spec_literal(s@, k + 2) {
                        Ok((t, j)) => {
                            assert(before + (seq![s@[k + 1]] + t) =~= text@ + t);
                        },
                        Err(_) => {},
                    }
                }
                k = k + 2;
            } else {
                return Err(k);
            }
        } else if is_special_char(c) {
            assert(text@ + Seq::<char>::empty() =~= text@);
            return Ok((text, k));
        } else {
            let ghost before = text@;
            push_char(&mut text, c);
            proof {
                match spec_literal(s@, k + 1) {
                    Ok((t, j)) => {
                        assert(before + (seq![c] + t) =~= text@ + t);
                    },
                    Err(_) => {},
                }
            }
            k = k + 1;
        }
    }
}

fn parse_variable(s: &Vec<char>, i: usize) -> (r: Result<(String, usize), usize>)
    requires
        i < s.len(),
        s@[i as int] == '$',
    ensures
        literal_agrees(r, spec_variable(s@, i as int)),
        r matches Ok((_, j)) ==> i < j <= s.len(),
{
    if i + 1 < s.len() && s[i + 1] == '{' {
        let e = ident_end_exec(s, i + 2);
        if e > i + 2 && e < s.len() && s[e] == '}' {
            Ok((string_of(s, i + 2, e), e + 1))
        } else {
            Err(e)
        }
    } else {
        let e = ident_end_exec(s, i + 1);
        if e > i + 1 {
            Ok((string_of(s, i + 1, e), e))
        } else {
            Err(i + 1)
        }
    }
}

fn build_nodes(s: &Vec<char>, i: usize) -> (r: Result<(Vec<Node>, usize), usize>)
    requires
        i <= s.len(),
    ensures
        items_agree(r, spec_items(s@, i as int)),
        r matches Ok((_, k)) ==> i <= k <= s.len(),
    decreases s.len() - i, 1int,
{
    let mut v: Vec<Node> = Vec::new();
    let mut k = i;
    loop
        invariant
            i <= k <= s.len(),
            prefix_items(nodes_view(v@), spec_items(s@, k as int)) == spec_items(s@, i as int),
        decreases s.len() - k,
    {
        if k >= s.len() || s[k] == '}' {
            assert(nodes_view(v@) + Seq::<SpecNode>::empty() =~= nodes_view(v@));
            return Ok((v, k));
        }
        match parse_item(s, k) {
            Err(e) => {
                return Err(e);
            },
            Ok((n, j)) => {
                let ghost before = v@;
                proof {
                    lemma_nodes_view_push(v@, n);
                    match spec_items(s@, j as int) {
                        Ok((ns, _)) => {
                            assert(nodes_view(before) + (seq![node_view(n)] + ns) =~= nodes_view(
                                before,
                            ).push(node_view(n)) + ns);
                        },
                        Err(_) => {},
                    }
                }
                v.push(n);
                k = j;
            },
        }
    }
}

fn parse_item(s: &Vec<char>, i: usize) -> (r: Result<(Node, usize), usize>)
    requires
        i < s.len(),
        s@[i as int] != '}',
    ensures
        item_agrees(r, spec_item(s@, i as int)),
        r matches Ok((_, j)) ==> i < j <= s.len(),
    decreases s.len() - i, 0int,
{
    let c = s[i];
    if c == '$' {
        match parse_variable(s, i) {
            Ok((name, j)) => Ok((Node::Variable(name), j)),
            Err(e) => Err(e),
        }
    } else if c == '%' {
        if !(i + 1 < s.len() && s[i + 1] == '[') {
            return Err(i + 1);
        }
        proof {
            lemma_attributes_advance(s@, i + 2, plain_style());
        }
        match build_style(s, i + 2) {
            Err(e) => Err(e),
            Ok((style, p)) => {
                if p < s.len() && s[p] == '{' {
                    match build_nodes(s, p + 1) {
                        Err(e) => Err(e),
                        Ok((children, k)) => {
                            if k < s.len() && s[k] == '}' {
                                Ok((Node::Formatted { style, children }, k + 1))
                            } else {
                                Err(k)
                            }
                        },
                    }
                } else {
                    Err(p)
                }
            },
        }
    } else if c == '{' {
        Err(i)
    } else {
        match unescape_literal(s, i) {
            Err(e) => Err(e),
            Ok((text, j)) => {
                proof {
                    lemma_literal_progress(s@, i as int);
                }
                if j > i {
                    Ok((Node::Literal(text), j))
                } else {
                    Err(i)
                }
            },
        }
    }
}

/// Parses the format string into the tree that formatting works on.
///
/// On success, the root is a `Node::Formatted` whose style is the default
/// style, and its value is what the grammar gives; on failure, the error
/// holds the position that the grammar reports.
pub fn parse(input: &str) -> (r: Result<Node, ParseError>)
    ensures
        match spec_parse(input@) {
            Ok(n) => r matches Ok(node) && node@ == n,
            Err(e) => r matches Err(err) && err.position == e,
        },
        r matches Ok(node) ==> node matches Node::Formatted { style, .. } && style == plain_style(),
{
    let chars = str_chars(input);
    match build_nodes(&chars, 0) {
        Err(e) => Err(ParseError { position: e }),
        Ok((children, k)) => {
            if k == chars.len() {
                Ok(Node::Formatted { style: Style::default(), children })
            } else {
                Err(ParseError { position: k })
            }
        },
    }
}

/// The color names of the format language: each names the color it
/// spells (`light_` for the light forms), `bg_` before a color name makes it
/// the background, and `bold`, `underline` and `reverse` are the modifiers.
pub proof fn lemma_color_names()
    ensures
        color_named(seq!['r', 'e', 's', 'e', 't']) == Some(Color::Reset),
        color_named(seq!['b', 'l', 'a', 'c', 'k']) == Some(Color::Black),
        color_named(seq!['w', 'h', 'i', 't', 'e']) == Some(Color::White),
        color_named(seq!['r', 'e', 'd']) == Some(Color::Red),
        color_named(seq!['g', 'r', 'e', 'e', 'n']) == Some(Color::Green),
        color_named(seq!['y', 'e', 'l', 'l', 'o', 'w']) == Some(Color::Yellow),
        color_named(seq!['b', 'l', 'u', 'e']) == Some(Color::Blue),
        color_named(seq!['m', 'a', 'g', 'e', 'n', 't', 'a']) == Some(Color::Magenta),
        color_named(seq!['c', 'y', 'a', 'n']) == Some(Color::Cyan),
        color_named(seq!['l', 'i', 'g', 'h', 't', '_', 'b', 'l', 'a', 'c', 'k']) == Some(Color::LightBlack),
        color_named(seq!['l', 'i', 'g', 'h', 't', '_', 'w', 'h', 'i', 't', 'e']) == Some(Color::LightWhite),
        color_named(seq!['l', 'i', 'g', 'h', 't', '_', 'r', 'e', 'd']) == Some(Color::LightRed),
        color_named(seq!['l', 'i', 'g', 'h', 't', '_', 'g', 'r', 'e', 'e', 'n']) == Some(Color::LightGreen),
        color_named(seq!['l', 'i', 'g', 'h', 't', '_', 'y', 'e', 'l', 'l', 'o', 'w']) == Some(Color::LightYellow),
        color_named(seq!['l', 'i', 'g', 'h', 't', '_', 'b', 'l', 'u', 'e']) == Some(Color::LightBlue),
        color_named(seq!['l', 'i', 'g', 'h', 't', '_', 'm', 'a', 'g', 'e', 'n', 't', 'a']) == Some(Color::LightMagenta),
        color_named(seq!['l', 'i', 'g', 'h', 't', '_', 'c', 'y', 'a', 'n']) == Some(Color::LightCyan),
        attribute_named(seq!['m', 'a', 'g', 'e', 'n', 't', 'a']) == Some(Attribute::Foreground(Color::Magenta)),
        attribute_named(seq!['b', 'g', '_', 'm', 'a', 'g', 'e', 'n', 't', 'a']) == Some(Attribute::Background(Color::Magenta)),
        attribute_named(seq!['b', 'o', 'l', 'd']) == Some(Attribute::Modifier(Modifier::Bold)),
        attribute_named(seq!['u', 'n', 'd', 'e', 'r', 'l', 'i', 'n', 'e']) == Some(Attribute::Modifier(Modifier::Underline)),
        attribute_named(seq!['r', 'e', 'v', 'e', 'r', 's', 'e']) == Some(Attribute::Modifier(Modifier::Reverse)),
{
    reveal_strlit("reset");
    reveal_strlit("black");
    reveal_strlit("white");
    reveal_strlit("red");
    reveal_strlit("green");
    reveal_strlit("yellow");
    reveal_strlit("blue");
    reveal_strlit("magenta");
    reveal_strlit("cyan");
    reveal_strlit("light_black");
    reveal_strlit("light_white");
    reveal_strlit("light_red");
    reveal_strlit("light_green");
    reveal_strlit("light_yellow");
    reveal_strlit("light_blue");
    reveal_strlit("light_magenta");
    reveal_strlit("light_cyan");
    reveal_strlit("bg_");
    reveal_strlit("bold");
    reveal_strlit("underline");
    reveal_strlit("reverse");
    assert(seq!['r', 'e', 's', 'e', 't'] =~= "reset"@);
    assert(seq!['b', 'l', 'a', 'c', 'k'] =~= "black"@);
    assert(seq!['w', 'h', 'i', 't', 'e'] =~= "white"@);
    assert(seq!['r', 'e', 'd'] =~= "red"@);
    assert(seq!['g', 'r', 'e', 'e', 'n'] =~= "green"@);
    assert(seq!['y', 'e', 'l', 'l', 'o', 'w'] =~= "yellow"@);
    assert(seq!['b', 'l', 'u', 'e'] =~= "blue"@);
    assert(seq!['m', 'a', 'g', 'e', 'n', 't', 'a'] =~= "magenta"@);
    assert(seq!['c', 'y', 'a', 'n'] =~= "cyan"@);
    assert(seq!['l', 'i', 'g', 'h', 't', '_', 'b', 'l', 'a', 'c', 'k'] =~= "light_black"@);
    assert(seq!['l', 'i', 'g', 'h', 't', '_', 'w', 'h', 'i', 't', 'e'] =~= "light_white"@);
    assert(seq!['l', 'i', 'g', 'h', 't', '_', 'r', 'e', 'd'] =~= "light_red"@);
    assert(seq!['l', 'i', 'g', 'h', 't', '_', 'g', 'r', 'e', 'e', 'n'] =~= "light_green"@);
    assert(seq!['l', 'i', 'g', 'h', 't', '_', 'y', 'e', 'l', 'l', 'o', 'w'] =~= "light_yellow"@);
    assert(seq!['l', 'i', 'g', 'h', 't', '_', 'b', 'l', 'u', 'e'] =~= "light_blue"@);
    assert(seq!['l', 'i', 'g', 'h', 't', '_', 'm', 'a', 'g', 'e', 'n', 't', 'a'] =~= "light_magenta"@);
    assert(seq!['l', 'i', 'g', 'h', 't', '_', 'c', 'y', 'a', 'n'] =~= "light_cyan"@);
    let bg = seq!['b', 'g', '_', 'm', 'a', 'g', 'e', 'n', 't', 'a'];
    assert(bg.subrange(0, 3) =~= "bg_"@);
    assert(bg.subrange(3, bg.len() as int) =~= "magenta"@);
    let bold = seq!['b', 'o', 'l', 'd'];
    assert(bold =~= "bold"@);
    assert(bold[1] != "blue"@[1] && bold[0] != "cyan"@[0]);
    assert(color_named(bold) is None);
    assert(bold.subrange(0, 3)[1] != "bg_"@[1]);
    let underline = seq!['u', 'n', 'd', 'e', 'r', 'l', 'i', 'n', 'e'];
    assert(underline =~= "underline"@);
    assert(underline[0] != "light_red"@[0]);
    assert(color_named(underline) is None);
    assert(underline.subrange(0, 3)[0] != "bg_"@[0]);
    let reverse = seq!['r', 'e', 'v', 'e', 'r', 's', 'e'];
    assert(reverse =~= "reverse"@);
    assert(reverse[0] != "magenta"@[0]);
    assert(reverse != "bold"@ && reverse != "underline"@);
    assert(color_named(reverse) is None);
    assert(reverse.subrange(0, 3)[0] != "bg_"@[0]);
}

} // verus!
