//! Formatting: interpolating values into a parsed format string.
use vstd::prelude::*;
use crate::mimi::ansi::{reset, style_sequence, reset_sequence};
use crate::mimi::parse::{
    Node, SpecNode, ParseError, node_view, nodes_view, spec_parse, parse, lemma_nodes_view_index,
    lemma_nodes_view_len,
};
use crate::mimi::style::{Style, combined, plain_style};
use crate::mimi::text::push_str;

verus! {

/// The names of the variables in a node, recursively.
pub open spec fn node_keys(n: SpecNode) -> Set<Seq<char>>
    decreases n,
{
    match n {
        SpecNode::Literal(_) => Set::empty(),
        SpecNode::Variable(k) => set![k],
        SpecNode::Formatted(_, children) => seq_keys(children),
    }
}

/// The names of the variables in a sequence of nodes.
pub open spec fn seq_keys(s: Seq<SpecNode>) -> Set<Seq<char>>
    decreases s,
{
    if s.len() == 0 {
        Set::empty()
    } else {
        node_keys(s[0]).union(seq_keys(s.drop_first()))
    }
}

/// The characters of each string.
pub open spec fn strings_view(v: Seq<String>) -> Seq<Seq<char>> {
    v.map_values(|s: String| s@)
}

/// Key/value pairs taken by their characters.
pub open spec fn pairs_view(v: Seq<(String, String)>) -> Seq<(Seq<char>, Seq<char>)> {
    v.map_values(|p: (String, String)| (p.0@, p.1@))
}

/// Spans taken by their characters.
pub open spec fn spans_view(v: Seq<(String, Style)>) -> Seq<(Seq<char>, Style)> {
    v.map_values(|p: (String, Style)| (p.0@, p.1))
}

/// Whether some pair has the given key.
pub open spec fn has_key(values: Seq<(Seq<char>, Seq<char>)>, key: Seq<char>) -> bool {
    exists|i: int| 0 <= i < values.len() && #[trigger] values[i].0 == key
}

/// The value of the first pair at or after `i` whose key is `key`.
pub open spec fn lookup_from(values: Seq<(Seq<char>, Seq<char>)>, key: Seq<char>, i: int) -> Seq<
    char,
>
    decreases values.len() - i,
{
    if i < 0 || i >= values.len() {
        Seq::empty()
    } else if values[i].0 == key {
        values[i].1
    } else {
        lookup_from(values, key, i + 1)
    }
}

/// The value of the first pair whose key is `key`.
pub open spec fn lookup(values: Seq<(Seq<char>, Seq<char>)>, key: Seq<char>) -> Seq<char> {
    lookup_from(values, key, 0)
}

/// The (text, style) pairs of the leaves under `n`, in order: literals as
/// they are, variables replaced by their values, each with the combination
/// of `base` and the styles of the sections around it.
pub open spec fn node_spans(n: SpecNode, values: Seq<(Seq<char>, Seq<char>)>, base: Style) -> Seq<
    (Seq<char>, Style),
>
    decreases n,
{
    match n {
        SpecNode::Literal(t) => seq![(t, base)],
        SpecNode::Variable(k) => seq![(lookup(values, k), base)],
        SpecNode::Formatted(st, children) => seq_spans(children, values, combined(base, st)),
    }
}

/// The spans of a sequence of nodes, one after the other.
pub open spec fn seq_spans(s: Seq<SpecNode>, values: Seq<(Seq<char>, Seq<char>)>, base: Style) -> Seq<
    (Seq<char>, Style),
>
    decreases s,
{
    if s.len() == 0 {
        Seq::empty()
    } else {
        node_spans(s[0], values, base) + seq_spans(s.drop_first(), values, base)
    }
}

/// The text written for the spans: for each, the style's control sequence,
/// the text, and a reset.
pub open spec fn ansi_text(sp: Seq<(Seq<char>, Style)>) -> Seq<char>
    decreases sp.len(),
{
    if sp.len() == 0 {
        Seq::empty()
    } else {
        ansi_text(sp.drop_last()) + style_sequence(sp.last().1) + sp.last().0 + reset_sequence()
    }
}

/// An error that occurred while parsing a format string.
#[derive(Copy, Clone, Debug, PartialEq, Eq)]
pub struct ParseFormatterError(pub ParseError);

impl ParseFormatterError {
    /// A short description of the error.
    pub fn description(&self) -> (s: &'static str)
        ensures
            s@ == "format string error"@,
    {
        "format string error"
    }

    /// Where the format string stops making sense, in characters.
    pub fn position(&self) -> (p: usize)
        ensures
            p == self.0.position,
    {
        self.0.position
    }
}

/// A `Formatter` takes a bunch of key/value pairs and interpolates them into a
/// format string.
#[derive(Debug)]
pub struct Formatter {
    root: Node,
    keys: Vec<String>,
}

fn add_key(acc: &mut Vec<String>, k: &String)
    requires
        strings_view(old(acc)@).no_duplicates(),
    ensures
        strings_view(final(acc)@).no_duplicates(),
        strings_view(final(acc)@).to_set() == strings_view(old(acc)@).to_set().insert(k@),
{
    let mut i: usize = 0;
    while i < acc.len()
        invariant
            0 <= i <= acc.len(),
            acc@ == old(acc)@,
            strings_view(acc@).no_duplicates(),
            forall|j: int| 0 <= j < i ==> acc@[j]@ != k@,
        decreases acc.len() - i,
    {
        if acc[i] == *k {
            assert(strings_view(acc@)[i as int] == k@);
            assert(strings_view(acc@).to_set() =~= strings_view(acc@).to_set().insert(k@));
            return;
        }
        i = i + 1;
    }
    let ghost before = strings_view(acc@);
    acc.push(k.clone());
    assert(strings_view(acc@) =~= before.push(k@));
    assert(!before.contains(k@));
    assert forall|y: Seq<char>| strings_view(acc@).to_set().contains(y) <==> before.to_set().insert(
        k@,
    ).contains(y) by {
        if strings_view(acc@).contains(y) {
            let j = choose|j: int| 0 <= j < strings_view(acc@).len() && strings_view(acc@)[j] == y;
            if j < before.len() {
                assert(before[j] == y);
            }
        }
        if before.contains(y) {
            let j = choose|j: int| 0 <= j < before.len() && before[j] == y;
            assert(strings_view(acc@)[j] == y);
        }
        if y == k@ {
            assert(strings_view(acc@)[before.len() as int] == y);
        }
    }
    assert(strings_view(acc@).to_set() =~= before.to_set().insert(k@));
}

fn collect_keys(node: &Node, acc: &mut Vec<String>)
    requires
        strings_view(old(acc)@).no_duplicates(),
    ensures
        strings_view(final(acc)@).no_duplicates(),
        strings_view(final(acc)@).to_set() == strings_view(old(acc)@).to_set().union(
            node_keys(node_view(*node)),
        ),
    decreases *node, 0int,
{
    match node {
        Node::Literal(_) => {
            assert(strings_view(acc@).to_set() =~= strings_view(acc@).to_set().union(Set::empty()));
        },
        Node::Variable(k) => {
            add_key(acc, k);
            assert(strings_view(acc@).to_set() =~= strings_view(old(acc)@).to_set().union(set![k@]));
        },
        Node::Formatted { children, .. } => {
            proof {
                lemma_nodes_view_len(children@);
                assert(nodes_view(children@).subrange(0, children.len() as int) =~= nodes_view(
                    children@,
                ));
            }
            collect_keys_children(children, 0, acc);
        },
    }
}

fn collect_keys_children(children: &Vec<Node>, start: usize, acc: &mut Vec<String>)
    requires
        start <= children.len(),
        strings_view(old(acc)@).no_duplicates(),
    ensures
        strings_view(final(acc)@).no_duplicates(),
        strings_view(final(acc)@).to_set() == strings_view(old(acc)@).to_set().union(
            seq_keys(nodes_view(children@).subrange(start as int, children.len() as int)),
        ),
    decreases *children, children.len() - start,
{
    proof {
        lemma_nodes_view_len(children@);
    }
    let ghost rest = nodes_view(children@).subrange(start as int, children.len() as int);
    if start == children.len() {
        assert(rest.len() == 0);
        assert(strings_view(acc@).to_set() =~= strings_view(acc@).to_set().union(Set::empty()));
        return;
    }
    proof {
        lemma_nodes_view_index(children@, start as int);
        assert(rest[0] == node_view(children@[start as int]));
        assert(rest.drop_first() =~= nodes_view(children@).subrange(
            start + 1,
            children.len() as int,
        ));
    }
    let ghost set0 = strings_view(acc@).to_set();
    collect_keys(&children[start], acc);
    collect_keys_children(children, start + 1, acc);
    assert(strings_view(acc@).to_set() =~= set0.union(seq_keys(rest)));
}

fn lookup_value(values: &[(String, String)], key: &String) -> (v: String)
    requires
        has_key(pairs_view(values@), key@),
    ensures
        v@ == lookup(pairs_view(values@), key@),
{
    let ghost pv = pairs_view(values@);
    let mut i: usize = 0;
    while i < values.len()
        invariant
            0 <= i <= values.len(),
            pv == pairs_view(values@),
            pv.len() == values.len(),
            lookup_from(pv, key@, i as int) == lookup(pv, key@),
            forall|j: int| 0 <= j < i ==> pv[j].0 != key@,
            has_key(pv, key@),
        decreases values.len() - i,
    {
        if values[i].0 == *key {
            assert(pv[i as int].0 == key@);
            return values[i].1.clone();
        }
        i = i + 1;
    }
    proof {
        let j = choose|j: int| 0 <= j < pv.len() && #[trigger] pv[j].0 == key@;
        assert(pv[j].0 != key@);
    }
    String::new()
}

fn spans_of(
    node: &Node,
    values: &[(String, String)],
    base: Style,
    out: &mut Vec<(String, Style)>,
)
    requires
        forall|k: Seq<char>| #[trigger]
            node_keys(node_view(*node)).contains(k) ==> has_key(pairs_view(values@), k),
    ensures
        spans_view(final(out)@) == spans_view(old(out)@) + node_spans(
            node_view(*node),
            pairs_view(values@),
            base,
        ),
    decreases *node, 0int,
{
    match node {
        Node::Literal(t) => {
            let ghost before = out@;
            out.push((t.clone(), base));
            assert(spans_view(out@) =~= spans_view(before) + seq![(t@, base)]);
        },
        Node::Variable(k) => {
            assert(node_keys(node_view(*node)).contains(k@));
            let v = lookup_value(values, k);
            let ghost before = out@;
            out.push((v, base));
            assert(spans_view(out@) =~= spans_view(before) + seq![
                (lookup(pairs_view(values@), k@), base),
            ]);
        },
        Node::Formatted { style, children } => {
            proof {
                lemma_nodes_view_len(children@);
                assert(nodes_view(children@).subrange(0, children.len() as int) =~= nodes_view(
                    children@,
                ));
            }
            assert(node_keys(node_view(*node)) == seq_keys(nodes_view(children@)));
            let combined_style = base.combine(style);
            spans_of_children(children, 0, values, combined_style, out);
        },
    }
}

fn spans_of_children(
    children: &Vec<Node>,
    start: usize,
    values: &[(String, String)],
    base: Style,
    out: &mut Vec<(String, Style)>,
)
    requires
        start <= children.len(),
        forall|k: Seq<char>| #[trigger]
            seq_keys(nodes_view(children@).subrange(start as int, children.len() as int)).contains(
                k,
            ) ==> has_key(pairs_view(values@), k),
    ensures
        spans_view(final(out)@) == spans_view(old(out)@) + seq_spans(
            nodes_view(children@).subrange(start as int, children.len() as int),
            pairs_view(values@),
            base,
        ),
    decreases *children, children.len() - start,
{
    proof {
        lemma_nodes_view_len(children@);
    }
    let ghost rest = nodes_view(children@).subrange(start as int, children.len() as int);
    if start == children.len() {
        assert(rest.len() == 0);
        assert(spans_view(out@) + Seq::<(Seq<char>, Style)>::empty() =~= spans_view(out@));
        return;
    }
    proof {
        lemma_nodes_view_index(children@, start as int);
        assert(rest[0] == node_view(children@[start as int]));
        assert(rest.drop_first() =~= nodes_view(children@).subrange(
            start + 1,
            children.len() as int,
        ));
    }
    assert(seq_keys(rest) == node_keys(rest[0]).union(seq_keys(rest.drop_first())));
    assert forall|k: Seq<char>| #[trigger]
        node_keys(node_view(children@[start as int])).contains(k) implies has_key(
        pairs_view(values@),
        k,
    ) by {
        assert(seq_keys(rest).contains(k));
    }
    assert forall|k: Seq<char>| #[trigger]
        seq_keys(nodes_view(children@).subrange(start + 1, children.len() as int)).contains(
            k,
        ) implies has_key(pairs_view(values@), k) by {
        assert(seq_keys(rest).contains(k));
    }
    let ghost out0 = spans_view(out@);
    spans_of(&children[start], values, base, out);
    spans_of_children(children, start + 1, values, base, out);
    assert(spans_view(out@) =~= out0 + seq_spans(rest, pairs_view(values@), base));
}

impl Formatter {
    #[verifier::type_invariant]
    spec fn keys_match_tree(self) -> bool {
        &&& strings_view(self.keys@).no_duplicates()
        &&& strings_view(self.keys@).to_set() == node_keys(node_view(self.root))
    }

    /// The parsed format string.
    pub closed spec fn tree(self) -> SpecNode {
        node_view(self.root)
    }

    /// Parses a format string.
    pub fn new(s: &str) -> (r: Result<Formatter, ParseFormatterError>)
        ensures
            match spec_parse(s@) {
                Ok(n) => r matches Ok(f) && f.tree() == n,
                Err(e) => r matches Err(err) && err.0.position == e,
            },
    {
        match parse(s) {
            Ok(root) => {
                let mut keys: Vec<String> = Vec::new();
                assert(strings_view(keys@).to_set() =~= Set::empty());
                collect_keys(&root, &mut keys);
                assert(strings_view(keys@).to_set() =~= node_keys(node_view(root)));
                Ok(Formatter { root, keys })
            },
            Err(e) => Err(ParseFormatterError(e)),
        }
    }

    /// The names of all the variables in the format string, each once.
    pub fn keys(&self) -> (k: &Vec<String>)
        ensures
            strings_view(k@).no_duplicates(),
            strings_view(k@).to_set() == node_keys(self.tree()),
    {
        proof {
            use_type_invariant(self);
        }
        &self.keys
    }

    /// The text of each leaf node with variables substituted by looking up
    /// in `values`, each with its style. Combined with a function that can
    /// take a `String` and a `Style` and format them, this gives you the
    /// ability to work with arbitrary output formats. Every variable of the
    /// format string must have a value.
    ///
    /// We do *not* guarantee that the representation is minimal (in that
    /// it's possible for there to be adjacent pairs with identical styles).
    pub fn spans(&self, values: &[(String, String)]) -> (r: Vec<(String, Style)>)
        requires
            forall|k: Seq<char>| #[trigger]
                node_keys(self.tree()).contains(k) ==> has_key(pairs_view(values@), k),
        ensures
            spans_view(r@) == node_spans(self.tree(), pairs_view(values@), plain_style()),
    {
        let mut out: Vec<(String, Style)> = Vec::new();
        spans_of(&self.root, values, Style::default(), &mut out);
        assert(spans_view(out@) =~= node_spans(self.tree(), pairs_view(values@), plain_style()));
        out
    }

    /// Formats the given values using ANSI terminal codes: each span is
    /// written as its style's control sequence, its text and a reset.
    pub fn ansi(&self, values: &[(String, String)]) -> (s: String)
        requires
            forall|k: Seq<char>| #[trigger]
                node_keys(self.tree()).contains(k) ==> has_key(pairs_view(values@), k),
        ensures
            s@ == ansi_text(node_spans(self.tree(), pairs_view(values@), plain_style())),
    {
        let spans = self.spans(values);
        let mut s = String::new();
        let mut i: usize = 0;
        while i < spans.len()
            invariant
                0 <= i <= spans.len(),
                s@ == ansi_text(spans_view(spans@).take(i as int)),
            decreases spans.len() - i,
        {
            let ghost before = spans_view(spans@).take(i as int);
            push_str(&mut s, &spans[i].1.ansi());
            push_str(&mut s, &spans[i].0);
            push_str(&mut s, &reset());
            proof {
                let now = spans_view(spans@).take(i + 1);
                assert(now.drop_last() =~= before);
                assert(now.last() == (spans@[i as int].0@, spans@[i as int].1));
            }
            i = i + 1;
        }
        assert(spans_view(spans@).take(spans.len() as int) =~= spans_view(spans@));
        s
    }
}

impl std::str::FromStr for Formatter {
    type Err = ParseFormatterError;

    /// Parses a format string, as [`Formatter::new`] does.
    fn from_str(s: &str) -> (r: Result<Formatter, ParseFormatterError>)
        ensures
            match spec_parse(s@) {
                Ok(n) => r matches Ok(f) && f.tree() == n,
                Err(e) => r matches Err(err) && err.0.position == e,
            },
    {
        Formatter::new(s)
    }
}

} // verus!
