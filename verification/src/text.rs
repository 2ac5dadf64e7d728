use vstd::prelude::*;

verus! {

/// Whether `c` is white space: one of the code points that Unicode classes as
/// White_Space.
pub open spec fn is_blank(c: char) -> bool {
    ||| '\u{9}' <= c <= '\u{d}'
    ||| c == ' '
    ||| c == '\u{85}'
    ||| c == '\u{a0}'
    ||| c == '\u{1680}'
    ||| '\u{2000}' <= c <= '\u{200a}'
    ||| c == '\u{2028}'
    ||| c == '\u{2029}'
    ||| c == '\u{202f}'
    ||| c == '\u{205f}'
    ||| c == '\u{3000}'
}

/// Tells whether `c` is white space.
pub fn blank(c: char) -> (b: bool)
    ensures
        b == is_blank(c),
{
    ('\u{9}' <= c && c <= '\u{d}') || c == ' ' || c == '\u{85}' || c == '\u{a0}' || c == '\u{1680}'
        || ('\u{2000}' <= c && c <= '\u{200a}') || c == '\u{2028}' || c == '\u{2029}' || c
        == '\u{202f}' || c == '\u{205f}' || c == '\u{3000}'
}

/// The characters of `text`, in order.
pub fn characters(text: &str) -> (out: Vec<char>)
    ensures
        out@ == text@,
{
    let mut out: Vec<char> = Vec::new();
    for c in it: text.chars()
        invariant
            it.seq() == text@,
            out@ == it.seq().take(it.index() as int),
    {
        out.push(c);
    }
    out
}

/// How many characters of `s` stand before its first `c`: all of them where
/// `s` holds no `c`.
pub open spec fn until(s: Seq<char>, c: char) -> nat
    decreases s.len(),
{
    if s.len() == 0 || s[0] == c {
        0
    } else {
        1 + until(s.skip(1), c)
    }
}

/// How many characters other than white space `s` begins with.
pub open spec fn word_run(s: Seq<char>) -> nat
    decreases s.len(),
{
    if s.len() == 0 || is_blank(s[0]) {
        0
    } else {
        1 + word_run(s.skip(1))
    }
}

/// `s` cut at its first white space: all of `s` where it holds none, and
/// nothing where `s` begins with white space.
pub open spec fn before_blank(s: Seq<char>) -> Seq<char> {
    s.take(word_run(s) as int)
}

/// The position of the first `c` in `v[from..end]`, or `end` where there is none.
pub(crate) fn scan_until(v: &Vec<char>, from: usize, end: usize, c: char) -> (to: usize)
    requires
        from <= end <= v.len(),
    ensures
        from <= to <= end,
        to == from + until(v@.subrange(from as int, end as int), c),
        to < end ==> v@[to as int] == c,
{
    let mut i: usize = from;
    while i < end && v[i] != c
        invariant
            from <= i <= end <= v.len(),
            until(v@.subrange(from as int, end as int), c) == (i - from) + until(
                v@.subrange(i as int, end as int),
                c,
            ),
        decreases end - i,
    {
        assert(v@.subrange(i as int, end as int).skip(1) =~= v@.subrange(i + 1, end as int));
        i += 1;
    }
    i
}

/// The position of the first white space in `v[from..end]`, or `end` where
/// there is none.
pub(crate) fn scan_word(v: &Vec<char>, from: usize, end: usize) -> (to: usize)
    requires
        from <= end <= v.len(),
    ensures
        from <= to <= end,
        to == from + word_run(v@.subrange(from as int, end as int)),
        to < end ==> is_blank(v@[to as int]),
{
    let mut i: usize = from;
    while i < end && !blank(v[i])
        invariant
            from <= i <= end <= v.len(),
            word_run(v@.subrange(from as int, end as int)) == (i - from) + word_run(
                v@.subrange(i as int, end as int),
            ),
        decreases end - i,
    {
        assert(v@.subrange(i as int, end as int).skip(1) =~= v@.subrange(i + 1, end as int));
        i += 1;
    }
    i
}

} // verus!
