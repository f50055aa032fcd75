use vstd::prelude::*;
use vstd::std_specs::iter::IteratorSpec;

verus! {

/// The characters with the Unicode `White_Space` property, which is what
/// `char::is_whitespace` and `str::trim` go by.
pub open spec fn is_ws(c: char) -> bool {
    ||| ('\u{9}' <= c && c <= '\u{d}')
    ||| c == ' '
    ||| c == '\u{85}'
    ||| c == '\u{a0}'
    ||| c == '\u{1680}'
    ||| ('\u{2000}' <= c && c <= '\u{200a}')
    ||| c == '\u{2028}'
    ||| c == '\u{2029}'
    ||| c == '\u{202f}'
    ||| c == '\u{205f}'
    ||| c == '\u{3000}'
}

/// `t` without its trailing whitespace.
pub open spec fn trim_end(t: Seq<char>) -> Seq<char>
    decreases t.len(),
{
    if t.len() > 0 && is_ws(t.last()) {
        trim_end(t.drop_last())
    } else {
        t
    }
}

/// `t` without its leading whitespace.
pub open spec fn trim_start(t: Seq<char>) -> Seq<char>
    decreases t.len(),
{
    if t.len() > 0 && is_ws(t[0]) {
        trim_start(t.subrange(1, t.len() as int))
    } else {
        t
    }
}

/// `t` without leading and trailing whitespace.
pub open spec fn trim(t: Seq<char>) -> Seq<char> {
    trim_start(trim_end(t))
}

pub fn is_ws_char(c: char) -> (r: bool)
    ensures
        r == is_ws(c),
{
    ('\u{9}' <= c && c <= '\u{d}') || c == ' ' || c == '\u{85}' || c == '\u{a0}' || c == '\u{1680}'
        || ('\u{2000}' <= c && c <= '\u{200a}') || c == '\u{2028}' || c == '\u{2029}' || c
        == '\u{202f}' || c == '\u{205f}' || c == '\u{3000}'
}

/// Index `k` such that `s[a..k]` is `s[a..e]` with its trailing whitespace removed.
pub fn trim_end_index(s: &Vec<char>, a: usize, e: usize) -> (k: usize)
    requires
        a <= e <= s@.len(),
    ensures
        a <= k <= e,
        s@.subrange(a as int, k as int) == trim_end(s@.subrange(a as int, e as int)),
{
    let mut k: usize = e;
    while k > a && is_ws_char(s[k - 1])
        invariant
            a <= k <= e <= s@.len(),
            trim_end(s@.subrange(a as int, k as int)) == trim_end(s@.subrange(a as int, e as int)),
        decreases k,
    {
        assert(s@.subrange(a as int, k as int).drop_last() =~= s@.subrange(a as int, k - 1));
        k = k - 1;
    }
    k
}

/// Index `b` such that `s[b..k]` is `s[a..k]` with its leading whitespace removed.
pub fn trim_start_index(s: &Vec<char>, a: usize, k: usize) -> (b: usize)
    requires
        a <= k <= s@.len(),
    ensures
        a <= b <= k,
        s@.subrange(b as int, k as int) == trim_start(s@.subrange(a as int, k as int)),
{
    let mut b: usize = a;
    while b < k && is_ws_char(s[b])
        invariant
            a <= b <= k <= s@.len(),
            trim_start(s@.subrange(b as int, k as int)) == trim_start(s@.subrange(a as int, k as int)),
        decreases k - b,
    {
        assert(s@.subrange(b as int, k as int).subrange(1, k - b) =~= s@.subrange(b + 1, k as int));
        b = b + 1;
    }
    b
}

/// The characters of `s`, in order.
pub(crate) fn chars_of(s: &str) -> (r: Vec<char>)
    ensures
        r@ == s@,
{
    broadcast use vstd::string::axiom_spec_iter, vstd::string::next_postcondition;

    let mut it = s.chars();
    let mut v: Vec<char> = Vec::new();
    loop
        invariant
            it.obeys_prophetic_iter_laws(),
            it.decrease() is Some,
            v@ + it.remaining() == s@,
        decreases it.decrease()->0,
    {
        match it.next() {
            Some(c) => {
                v.push(c);
            },
            None => {
                assert(v@ + it.remaining() =~= v@);
                return v;
            },
        }
    }
}

/// The string made of `s[a..e]`.
///
/// Relies on `String`'s `FromIterator<&char>`: the characters are appended in order.
#[verifier::external_body]
pub(crate) fn string_of_range(s: &Vec<char>, a: usize, e: usize) -> (r: String)
    requires
        a <= e <= s@.len(),
    ensures
        r@ == s@.subrange(a as int, e as int),
{
    s[a..e].iter().collect()
}

} // verus!
