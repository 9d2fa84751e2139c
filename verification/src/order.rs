//! Orders used for sorting: the order of strings (by characters, which is
//! the order of their UTF-8 bytes), optional strings (absent first), and a
//! stable insertion sort over any strict weak order.
use vstd::prelude::*;
use crate::mimi::text::str_chars;

verus! {

/// `a` comes strictly before `b` in lexicographic order of characters.
pub open spec fn chars_lt(a: Seq<char>, b: Seq<char>) -> bool
    decreases a.len(),
{
    if a.len() == 0 {
        b.len() > 0
    } else if b.len() == 0 {
        false
    } else if a[0] != b[0] {
        a[0] < b[0]
    } else {
        chars_lt(a.drop_first(), b.drop_first())
    }
}

/// Optional strings ordered with the absent value first, as the derived
/// order of `Option<String>` (and of an enum whose first variant stands for
/// "unknown") does.
pub open spec fn name_lt(a: Option<Seq<char>>, b: Option<Seq<char>>) -> bool {
    match (a, b) {
        (None, Some(_)) => true,
        (Some(x), Some(y)) => chars_lt(x, y),
        _ => false,
    }
}

pub proof fn lemma_chars_lt_irreflexive(a: Seq<char>)
    ensures
        !chars_lt(a, a),
    decreases a.len(),
{
    if a.len() > 0 {
        lemma_chars_lt_irreflexive(a.drop_first());
    }
}

pub proof fn lemma_chars_lt_transitive(a: Seq<char>, b: Seq<char>, c: Seq<char>)
    requires
        chars_lt(a, b),
        chars_lt(b, c),
    ensures
        chars_lt(a, c),
    decreases a.len(),
{
    if a.len() > 0 && b.len() > 0 && c.len() > 0 {
        if a[0] == b[0] && b[0] == c[0] {
            lemma_chars_lt_transitive(a.drop_first(), b.drop_first(), c.drop_first());
        }
    }
}

pub proof fn lemma_chars_lt_total(a: Seq<char>, b: Seq<char>)
    ensures
        a == b || chars_lt(a, b) || chars_lt(b, a),
    decreases a.len(),
{
    if a.len() > 0 && b.len() > 0 {
        if a[0] == b[0] {
            lemma_chars_lt_total(a.drop_first(), b.drop_first());
            if a.drop_first() == b.drop_first() {
                assert(a =~= seq![a[0]] + a.drop_first());
                assert(b =~= seq![b[0]] + b.drop_first());
            }
        }
    } else if a.len() == 0 && b.len() == 0 {
        assert(a =~= b);
    }
}

/// `a` and `b` agree before position `i`, where `a` has the smaller
/// character.
pub open spec fn smaller_at(a: Seq<char>, b: Seq<char>, i: int) -> bool {
    &&& 0 <= i < a.len()
    &&& i < b.len()
    &&& a.subrange(0, i) == b.subrange(0, i)
    &&& a[i] < b[i]
}

/// The standard order of strings: `a` is a proper prefix of `b`, or at the
/// first position where they differ `a` has the smaller character.
pub open spec fn lex_before(a: Seq<char>, b: Seq<char>) -> bool {
    ||| a.len() < b.len() && a == b.subrange(0, a.len() as int)
    ||| exists|i: int| #[trigger] smaller_at(a, b, i)
}

/// The order of names is the standard order of strings, as `String`
/// compares them.
pub proof fn lemma_chars_lt_lexicographic(a: Seq<char>, b: Seq<char>)
    ensures
        chars_lt(a, b) <==> lex_before(a, b),
    decreases a.len(),
{
    if a.len() == 0 {
        assert(a =~= b.subrange(0, 0));
    } else if b.len() == 0 {
    } else if a[0] != b[0] {
        if a.len() < b.len() && a == b.subrange(0, a.len() as int) {
            assert(a[0] == b.subrange(0, a.len() as int)[0]);
        }
        if exists|i: int| #[trigger] smaller_at(a, b, i) {
            let i = choose|i: int| #[trigger] smaller_at(a, b, i);
            if i > 0 {
                assert(a.subrange(0, i)[0] == b.subrange(0, i)[0]);
            }
        }
        if a[0] < b[0] {
            assert(a.subrange(0, 0) =~= b.subrange(0, 0));
            assert(smaller_at(a, b, 0));
        }
    } else {
        let (a1, b1) = (a.drop_first(), b.drop_first());
        lemma_chars_lt_lexicographic(a1, b1);
        // a proper prefix
        if a.len() < b.len() && a == b.subrange(0, a.len() as int) {
            assert(a1 =~= b1.subrange(0, a1.len() as int)) by {
                assert forall|k: int| 0 <= k < a1.len() implies a1[k] == b1.subrange(0, a1.len() as int)[k] by {
                    assert(a[k + 1] == b.subrange(0, a.len() as int)[k + 1]);
                }
            }
        }
        if a1.len() < b1.len() && a1 == b1.subrange(0, a1.len() as int) {
            assert(a =~= b.subrange(0, a.len() as int)) by {
                assert forall|k: int| 0 <= k < a.len() implies a[k] == b.subrange(0, a.len() as int)[k] by {
                    if k > 0 {
                        assert(a1[k - 1] == b1.subrange(0, a1.len() as int)[k - 1]);
                    }
                }
            }
        }
        // a first difference
        if exists|i: int| #[trigger] smaller_at(a, b, i) {
            let i = choose|i: int| #[trigger] smaller_at(a, b, i);
            assert(i > 0);
            assert(a1.subrange(0, i - 1) =~= b1.subrange(0, i - 1)) by {
                assert forall|k: int| 0 <= k < i - 1 implies #[trigger] a1.subrange(0, i - 1)[k] == b1.subrange(0, i - 1)[k] by {
                    assert(a.subrange(0, i)[k + 1] == b.subrange(0, i)[k + 1]);
                }
            }
            assert(smaller_at(a1, b1, i - 1));
        }
        if exists|i: int| #[trigger] smaller_at(a1, b1, i) {
            let i = choose|i: int| #[trigger] smaller_at(a1, b1, i);
            assert(a.subrange(0, i + 1) =~= b.subrange(0, i + 1)) by {
                assert forall|k: int| 0 <= k < i + 1 implies #[trigger] a.subrange(0, i + 1)[k] == b.subrange(0, i + 1)[k] by {
                    if k > 0 {
                        assert(a1.subrange(0, i)[k - 1] == b1.subrange(0, i)[k - 1]);
                    }
                }
            }
            assert(smaller_at(a, b, i + 1));
        }
    }
}

/// A name comes before every longer name that it begins.
pub proof fn lemma_chars_lt_prefix(a: Seq<char>, b: Seq<char>)
    requires
        b.len() > 0,
    ensures
        chars_lt(a, a + b),
{
    lemma_chars_lt_lexicographic(a, a + b);
    assert(a =~= (a + b).subrange(0, a.len() as int));
}

pub proof fn lemma_name_lt_order(a: Option<Seq<char>>, b: Option<Seq<char>>, c: Option<Seq<char>>)
    ensures
        !name_lt(a, a),
        name_lt(a, b) && name_lt(b, c) ==> name_lt(a, c),
        a == b || name_lt(a, b) || name_lt(b, a),
{
    if let Some(x) = a {
        lemma_chars_lt_irreflexive(x);
        if let Some(y) = b {
            lemma_chars_lt_total(x, y);
            if let Some(z) = c {
                if chars_lt(x, y) && chars_lt(y, z) {
                    lemma_chars_lt_transitive(x, y, z);
                }
            }
        }
    }
}

/// Whether `a` comes strictly before `b`.
pub fn chars_less(a: &Vec<char>, b: &Vec<char>) -> (r: bool)
    ensures
        r == chars_lt(a@, b@),
{
    let mut i: usize = 0;
    assert(a@.skip(0) =~= a@ && b@.skip(0) =~= b@);
    while i < a.len() && i < b.len() && a[i] == b[i]
        invariant
            0 <= i <= a.len(),
            i <= b.len(),
            forall|k: int| 0 <= k < i ==> a@[k] == b@[k],
            chars_lt(a@, b@) == chars_lt(a@.skip(i as int), b@.skip(i as int)),
        decreases a.len() - i,
    {
        proof {
            let sa = a@.skip(i as int);
            let sb = b@.skip(i as int);
            assert(sa.drop_first() =~= a@.skip(i + 1));
            assert(sb.drop_first() =~= b@.skip(i + 1));
        }
        i = i + 1;
    }
    proof {
        let sa = a@.skip(i as int);
        let sb = b@.skip(i as int);
        if i < a.len() && i < b.len() {
            assert(sa[0] == a@[i as int]);
            assert(sb[0] == b@[i as int]);
        }
    }
    if i == a.len() {
        i < b.len()
    } else if i == b.len() {
        false
    } else {
        a[i] < b[i]
    }
}

/// Whether the optional string `a` comes strictly before `b` (absent first).
pub fn name_less(a: &Option<String>, b: &Option<String>) -> (r: bool)
    ensures
        r == name_lt(option_chars(*a), option_chars(*b)),
{
    match (a, b) {
        (None, Some(_)) => true,
        (Some(x), Some(y)) => chars_less(&str_chars(x.as_str()), &str_chars(y.as_str())),
        _ => false,
    }
}

/// The characters of an optional string.
pub open spec fn option_chars(o: Option<String>) -> Option<Seq<char>> {
    match o {
        Some(s) => Some(s@),
        None => None,
    }
}

/// `i` goes before `j` when sorting stably by `lt`: its key is smaller, or
/// the keys are equivalent and `i` came first.
pub open spec fn stable_before(lt: spec_fn(int, int) -> bool, i: int, j: int) -> bool {
    lt(i, j) || (!lt(j, i) && i < j)
}

/// `lt` is a strict weak order on `0..n`: irreflexive, transitive, and
/// whenever `x < y` every `z` is above `x` or below `y`.
pub open spec fn strict_weak_order(lt: spec_fn(int, int) -> bool, n: int) -> bool {
    &&& forall|x: int| 0 <= x < n ==> !#[trigger] lt(x, x)
    &&& forall|x: int, y: int, z: int|
        0 <= x < n && 0 <= y < n && 0 <= z < n && #[trigger] lt(x, y) && #[trigger] lt(y, z)
            ==> lt(x, z)
    &&& forall|x: int, y: int, z: int|
        0 <= x < n && 0 <= y < n && 0 <= z < n && #[trigger] lt(x, y) ==> lt(x, z) || #[trigger] lt(
            z,
            y,
        )
}

/// `p` lists each of `0..n` once.
pub open spec fn is_permutation_of_range(p: Seq<usize>, n: int) -> bool {
    &&& p.len() == n
    &&& p.no_duplicates()
    &&& forall|k: int| 0 <= k < p.len() ==> p[k] < n
}

/// `p` is in stable sorted order for `lt`.
pub open spec fn stably_sorted(lt: spec_fn(int, int) -> bool, p: Seq<usize>) -> bool {
    forall|a: int, b: int|
        0 <= a < b < p.len() ==> stable_before(lt, #[trigger] p[a] as int, #[trigger] p[b] as int)
}

/// The positions `0..n` in the order of a stable sort by `lt`, where `less`
/// computes `lt`.
pub fn stable_sort_indices<F: Fn(usize, usize) -> bool>(
    n: usize,
    less: F,
    Ghost(lt): Ghost<spec_fn(int, int) -> bool>,
) -> (p: Vec<usize>)
    requires
        forall|i: usize, j: usize| i < n && j < n ==> #[trigger] less.requires((i, j)),
        forall|i: usize, j: usize, r: bool| #[trigger] less.ensures((i, j), r) ==> r == lt(i as int, j as int),
        strict_weak_order(lt, n as int),
    ensures
        is_permutation_of_range(p@, n as int),
        stably_sorted(lt, p@),
{
    let mut p: Vec<usize> = Vec::new();
    let mut i: usize = 0;
    while i < n
        invariant
            0 <= i <= n,
            is_permutation_of_range(p@, i as int),
            stably_sorted(lt, p@),
            forall|i: usize, j: usize| i < n && j < n ==> #[trigger] less.requires((i, j)),
            forall|i: usize, j: usize, r: bool| #[trigger] less.ensures((i, j), r) ==> r == lt(i as int, j as int),
            strict_weak_order(lt, n as int),
        decreases n - i,
    {
        // The first position whose element `i` must precede.
        let mut pos: usize = 0;
        while pos < p.len() && !less(i, p[pos])
            invariant
                0 <= pos <= p.len(),
                p.len() == i,
                i < n,
                is_permutation_of_range(p@, i as int),
                forall|k: int| 0 <= k < pos ==> !lt(i as int, #[trigger] p@[k] as int),
                forall|i: usize, j: usize| i < n && j < n ==> #[trigger] less.requires((i, j)),
                forall|i: usize, j: usize, r: bool| #[trigger] less.ensures((i, j), r) ==> r == lt(i as int, j as int),
            decreases p.len() - pos,
        {
            pos = pos + 1;
        }
        let ghost old_p = p@;
        proof {
            if pos < p.len() {
                assert(lt(i as int, p@[pos as int] as int));
            }
        }
        p.insert(pos, i);
        proof {
            assert(p@ =~= old_p.insert(pos as int, i));
            assert forall|k: int| 0 <= k < p@.len() implies p@[k] < i + 1 by {
                if k < pos {
                    assert(p@[k] == old_p[k]);
                } else if k > pos {
                    assert(p@[k] == old_p[k - 1]);
                }
            }
            assert forall|a: int, b: int| 0 <= a < b < p@.len() implies p@[a] != p@[b] by {
                if a < pos && b < pos {
                    assert(p@[a] == old_p[a] && p@[b] == old_p[b]);
                } else if a < pos && b > pos {
                    assert(p@[a] == old_p[a] && p@[b] == old_p[b - 1]);
                } else if a > pos && b > pos {
                    assert(p@[a] == old_p[a - 1] && p@[b] == old_p[b - 1]);
                } else if a == pos {
                    assert(p@[b] == old_p[b - 1]);
                } else {
                    assert(p@[a] == old_p[a]);
                }
            }
            assert(p@.no_duplicates());
            assert forall|a: int, b: int| 0 <= a < b < p@.len() implies stable_before(
                lt,
                #[trigger] p@[a] as int,
                #[trigger] p@[b] as int,
            ) by {
                if a < pos && b < pos {
                    assert(p@[a] == old_p[a] && p@[b] == old_p[b]);
                } else if a < pos && b > pos {
                    assert(p@[a] == old_p[a] && p@[b] == old_p[b - 1]);
                } else if a > pos && b > pos {
                    assert(p@[a] == old_p[a - 1] && p@[b] == old_p[b - 1]);
                } else if a == pos {
                    // `i` precedes everything after it.
                    let x = old_p[b - 1] as int;
                    assert(p@[b] == old_p[b - 1]);
                    assert(x < i);
                    let first = old_p[pos as int] as int;
                    assert(lt(i as int, first));
                    if b - 1 > pos {
                        assert(stable_before(lt, old_p[pos as int] as int, old_p[b - 1] as int));
                        if !lt(i as int, x) {
                            assert(lt(i as int, x) || lt(x, first));
                        }
                    }
                } else {
                    // Everything before `i` stays before it.
                    assert(p@[a] == old_p[a]);
                    assert(!lt(i as int, old_p[a] as int));
                    assert((old_p[a] as int) < i);
                }
            }
        }
        i = i + 1;
    }
    p
}


/// Name order on a sequence of names, as an order on positions.
pub open spec fn names_order(keys: Seq<Option<Seq<char>>>) -> spec_fn(int, int) -> bool {
    |i: int, j: int| name_lt(keys[i], keys[j])
}

pub proof fn lemma_names_order_strict_weak(keys: Seq<Option<Seq<char>>>)
    ensures
        strict_weak_order(names_order(keys), keys.len() as int),
{
    let lt = names_order(keys);
    assert forall|x: int| 0 <= x < keys.len() implies !#[trigger] lt(x, x) by {
        lemma_name_lt_order(keys[x], keys[x], keys[x]);
    }
    assert forall|x: int, y: int, z: int|
        0 <= x < keys.len() && 0 <= y < keys.len() && 0 <= z < keys.len() && #[trigger] lt(x, y)
            && #[trigger] lt(y, z) implies lt(x, z) by {
        lemma_name_lt_order(keys[x], keys[y], keys[z]);
    }
    assert forall|x: int, y: int, z: int|
        0 <= x < keys.len() && 0 <= y < keys.len() && 0 <= z < keys.len() && #[trigger] lt(x, y)
            implies lt(x, z) || #[trigger] lt(z, y) by {
        lemma_name_lt_order(keys[x], keys[z], keys[y]);
        lemma_name_lt_order(keys[z], keys[x], keys[y]);
    }
}

/// In a stable sort by name where names are distinct, the names come out
/// strictly increasing.
pub proof fn lemma_sorted_names_increase(keys: Seq<Option<Seq<char>>>, p: Seq<usize>)
    requires
        stably_sorted(names_order(keys), p),
        forall|k: int| 0 <= k < p.len() ==> p[k] < keys.len(),
        forall|i: int, j: int| 0 <= i < j < keys.len() ==> keys[i] != keys[j],
        p.no_duplicates(),
    ensures
        forall|a: int, b: int| 0 <= a < b < p.len() ==> name_lt(keys[#[trigger] p[a] as int], keys[#[trigger] p[b] as int]),
{
    assert forall|a: int, b: int| 0 <= a < b < p.len() implies name_lt(keys[#[trigger] p[a] as int], keys[#[trigger] p[b] as int]) by {
        assert(stable_before(names_order(keys), p[a] as int, p[b] as int));
        lemma_name_lt_order(keys[p[a] as int], keys[p[b] as int], keys[p[b] as int]);
    }
}

} // verus!
