//! Values for a format given on the command line as `key=value`.
use vstd::prelude::*;
use crate::mimi::text::str_chars;

verus! {

/// The position of the first `=` in `s`, if any.
pub open spec fn first_equals(s: Seq<char>, i: int) -> bool {
    &&& 0 <= i < s.len()
    &&& s[i] == '='
    &&& forall|k: int| 0 <= k < i ==> s[k] != '='
}

fn chars_string(v: &Vec<char>, from: usize, to: usize) -> (s: String)
    requires
        from <= to <= v@.len(),
    ensures
        s@ == v@.subrange(from as int, to as int),
{
    let mut s = String::new();
    let mut i = from;
    while i < to
        invariant
            from <= i <= to,
            to <= v@.len(),
            s@ == v@.subrange(from as int, i as int),
        decreases to - i,
    {
        crate::mimi::text::push_char(&mut s, v[i]);
        i = i + 1;
        assert(s@ =~= v@.subrange(from as int, i as int));
    }
    s
}

/// Splits `key=value` at the first `=`; `None` without one.
pub fn split_assignment(arg: &str) -> (r: Option<(String, String)>)
    ensures
        match r {
            Some((k, v)) => exists|i: int| #[trigger] first_equals(arg@, i) && k@ == arg@.subrange(0, i)
                && v@ == arg@.subrange(i + 1, arg@.len() as int),
            None => forall|i: int| 0 <= i < arg@.len() ==> arg@[i] != '=',
        },
{
    let chars = str_chars(arg);
    let mut i: usize = 0;
    while i < chars.len()
        invariant
            0 <= i <= chars.len(),
            chars@ == arg@,
            forall|k: int| 0 <= k < i ==> chars@[k] != '=',
        decreases chars.len() - i,
    {
        if chars[i] == '=' {
            let key = chars_string(&chars, 0, i);
            let value = chars_string(&chars, i + 1, chars.len());
            assert(first_equals(arg@, i as int));
            return Some((key, value));
        }
        i = i + 1;
    }
    None
}

} // verus!
