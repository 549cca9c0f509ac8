//! String building through std calls that vstd leaves unspecified.

use vstd::prelude::*;
use vstd::std_specs::iter::IteratorSpec;

verus! {

/// Relies on `String::push_str`: `t` is appended to `s`.
#[verifier::external_body]
pub(crate) fn push_str(s: &mut String, t: &str)
    ensures
        final(s)@ == old(s)@ + t@,
{
    s.push_str(t);
}

/// Relies on `String::push`: `c` is appended to `s`.
#[verifier::external_body]
pub(crate) fn push_char(s: &mut String, c: char)
    ensures
        final(s)@ == old(s)@.push(c),
{
    s.push(c);
}

/// Relies on `str::split_once`: the text before the first `c` and the text
/// after it, or nothing where `s` holds no `c`.
#[verifier::external_body]
pub(crate) fn split_once(s: &str, c: char) -> (r: Option<(&str, &str)>)
    ensures
        split_first(s@, c) == match r {
            Some((a, b)) => (a@, Some(b@)),
            None => (s@, None::<Seq<char>>),
        },
{
    s.split_once(c)
}

/// The text of `s` before the first `c`, and the text after it if there is
/// a `c`.
pub open spec fn split_first(s: Seq<char>, c: char) -> (Seq<char>, Option<Seq<char>>)
    decreases s.len(),
{
    if s.len() == 0 {
        (seq![], None)
    } else if s[0] == c {
        (seq![], Some(s.subrange(1, s.len() as int)))
    } else {
        let (a, rest) = split_first(s.subrange(1, s.len() as int), c);
        (seq![s[0]] + a, rest)
    }
}

/// Text without `c` is not split.
pub proof fn lemma_split_first_absent(s: Seq<char>, c: char)
    requires
        !s.contains(c),
    ensures
        split_first(s, c) == (s, None::<Seq<char>>),
    decreases s.len(),
{
    if s.len() > 0 {
        let t = s.subrange(1, s.len() as int);
        assert(!s.contains(c) ==> !t.contains(c)) by {
            if t.contains(c) {
                let i = choose|i: int| 0 <= i < t.len() && t[i] == c;
                assert(s[i + 1] == c);
            }
        }
        assert(s[0] != c) by {
            if s[0] == c {
                assert(s.contains(c));
            }
        }
        lemma_split_first_absent(t, c);
        assert(seq![s[0]] + t =~= s);
    }
}

/// Text is split at the first `c`.
pub proof fn lemma_split_first_at(a: Seq<char>, b: Seq<char>, c: char)
    requires
        !a.contains(c),
    ensures
        split_first(a + seq![c] + b, c) == (a, Some(b)),
    decreases a.len(),
{
    let s = a + seq![c] + b;
    if a.len() == 0 {
        assert(s.subrange(1, s.len() as int) =~= b);
    } else {
        let t = a.subrange(1, a.len() as int);
        assert(!t.contains(c)) by {
            if t.contains(c) {
                let i = choose|i: int| 0 <= i < t.len() && t[i] == c;
                assert(a[i + 1] == c);
            }
        }
        assert(a[0] != c) by {
            if a[0] == c {
                assert(a.contains(c));
            }
        }
        lemma_split_first_at(t, b, c);
        assert(s.subrange(1, s.len() as int) =~= t + seq![c] + b);
        assert(seq![a[0]] + t =~= a);
    }
}

/// The characters of `s`.
pub(crate) fn chars_of(s: &str) -> (r: Vec<char>)
    ensures
        r@ == s@,
{
    broadcast use vstd::string::group_string_axioms;

    let mut it = s.chars();
    let mut out: Vec<char> = Vec::new();
    loop
        invariant
            out@ + it.remaining() == s@,
            it.decrease() is Some,
        ensures
            out@ == s@,
        decreases it.decrease()->0,
    {
        match it.next() {
            Some(c) => {
                out.push(c);
                assert(out@ + it.remaining() =~= s@);
            },
            None => {
                assert(out@ =~= s@);
                break ;
            },
        }
    }
    out
}

} // verus!
