use vstd::prelude::*;

verus! {

/// Relies on `alloc::string::String::push`: appends exactly the one
/// character to the end of the string.
pub assume_specification[ String::push ](s: &mut String, c: char)
    ensures
        final(s)@ == old(s)@.push(c),
;

/// `n` copies of the character `c`.
pub open spec fn repeat_char(c: char, n: int) -> Seq<char> {
    if n >= 0 {
        Seq::new(n as nat, |i: int| c)
    } else {
        Seq::empty()
    }
}

/// `s` padded on the right with spaces up to width `w` (unchanged if
/// it is already at least that wide).
pub open spec fn pad_to(s: Seq<char>, w: int) -> Seq<char> {
    if s.len() >= w {
        s
    } else {
        s + repeat_char(' ', w - s.len())
    }
}

/// Append `n` copies of `c` to `out`.
pub fn push_repeat(out: &mut String, c: char, n: usize)
    ensures
        final(out)@ == old(out)@ + repeat_char(c, n as int),
{
    let mut i: usize = 0;
    while i < n
        invariant
            i <= n,
            out@ == old(out)@ + repeat_char(c, i as int),
        decreases n - i,
    {
        out.push(c);
        proof {
            assert(repeat_char(c, i + 1 as int) =~= repeat_char(c, i as int).push(c));
        }
        i = i + 1;
    }
}

/// Character-by-character string equality.
pub fn str_eq(a: &str, b: &str) -> (r: bool)
    ensures
        r == (a@ == b@),
{
    let an = a.unicode_len();
    let bn = b.unicode_len();
    if an != bn {
        return false;
    }
    let mut i: usize = 0;
    while i < an
        invariant
            i <= an,
            an == a@.len() == b@.len(),
            forall|k: int| 0 <= k < i ==> a@[k] == b@[k],
        decreases an - i,
    {
        if a.get_char(i) != b.get_char(i) {
            return false;
        }
        i = i + 1;
    }
    proof {
        assert(a@ =~= b@);
    }
    true
}

/// Append `s`, padded on the right with spaces to width `w`, to `out`.
pub fn push_padded(out: &mut String, s: &str, w: usize)
    ensures
        final(out)@ == old(out)@ + pad_to(s@, w as int),
{
    let n = s.unicode_len();
    out.append(s);
    if n < w {
        push_repeat(out, ' ', w - n);
    }
}

} // verus!
