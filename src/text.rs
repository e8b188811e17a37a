//! Character-level helpers on strings.

use vstd::prelude::*;

verus! {

/// `n` copies of `c`.
pub open spec fn repeat_char(c: char, n: nat) -> Seq<char> {
    Seq::new(n, |_i: int| c)
}

/// Relies on `String::push`: appends one character.
#[verifier::external_body]
pub(crate) fn push_char(s: &mut String, c: char)
    ensures
        final(s)@ == old(s)@.push(c),
{
    s.push(c);
}

/// The characters of `s`, in order.
pub fn chars_of(s: &str) -> (r: Vec<char>)
    ensures
        r@ == s@,
{
    let mut r: Vec<char> = Vec::new();
    for c in it: s.chars()
        invariant
            it.seq() == s@,
            r@ == it.seq().take(it.index() as int),
    {
        r.push(c);
    }
    r
}

/// Appends `n` copies of `c` to `s`.
fn push_repeated(s: &mut String, c: char, n: usize)
    ensures
        final(s)@ == old(s)@ + repeat_char(c, n as nat),
{
    let mut i: usize = 0;
    while i < n
        invariant
            i <= n,
            s@ == old(s)@ + repeat_char(c, i as nat),
        decreases n - i,
    {
        push_char(s, c);
        i = i + 1;
        assert(s@ =~= old(s)@ + repeat_char(c, i as nat));
    }
}

/// Left-pads `s` with `pad` up to `width` characters; a string that is
/// already as wide is returned unchanged.
pub fn pad_start(s: &str, width: usize, pad: char) -> (r: String)
    ensures
        r@ == if width > s@.len() {
            repeat_char(pad, (width - s@.len()) as nat) + s@
        } else {
            s@
        },
{
    let len = s.unicode_len();
    let mut r = String::new();
    if width > len {
        push_repeated(&mut r, pad, width - len);
    }
    r.append(s);
    assert(r@ =~= if width > s@.len() {
        repeat_char(pad, (width - s@.len()) as nat) + s@
    } else {
        s@
    });
    r
}

/// Right-pads `s` with `pad` up to `width` characters; a string that is
/// already as wide is returned unchanged.
pub fn pad_end(s: &str, width: usize, pad: char) -> (r: String)
    ensures
        r@ == if width > s@.len() {
            s@ + repeat_char(pad, (width - s@.len()) as nat)
        } else {
            s@
        },
{
    let len = s.unicode_len();
    let mut r = String::from_str(s);
    if width > len {
        push_repeated(&mut r, pad, width - len);
    }
    r
}

} // verus!
