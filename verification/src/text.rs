//! Splitting and trimming of text, stated over sequences of characters.

use vstd::prelude::*;

verus! {

/// Whether a character is white space: the characters with the Unicode
/// property `White_Space`.
pub open spec fn is_whitespace(c: char) -> bool {
    let n = c as u32;
    ||| 0x09 <= n <= 0x0D
    ||| n == 0x20
    ||| n == 0x85
    ||| n == 0xA0
    ||| n == 0x1680
    ||| 0x2000 <= n <= 0x200A
    ||| n == 0x2028
    ||| n == 0x2029
    ||| n == 0x202F
    ||| n == 0x205F
    ||| n == 0x3000
}

/// The pieces of `s` between occurrences of `sep`: one more piece than there
/// are separators, so at least one, and empty pieces are kept.
pub open spec fn split(s: Seq<char>, sep: char) -> Seq<Seq<char>>
    decreases s.len(),
{
    if s.len() == 0 {
        seq![Seq::empty()]
    } else {
        let before = split(s.drop_last(), sep);
        if s.last() == sep {
            before.push(Seq::empty())
        } else {
            before.drop_last().push(before.last().push(s.last()))
        }
    }
}

/// `s` without its leading white space.
pub open spec fn trim_start(s: Seq<char>) -> Seq<char>
    decreases s.len(),
{
    if s.len() > 0 && is_whitespace(s.first()) {
        trim_start(s.drop_first())
    } else {
        s
    }
}

/// `s` without its trailing white space.
pub open spec fn trim_end(s: Seq<char>) -> Seq<char>
    decreases s.len(),
{
    if s.len() > 0 && is_whitespace(s.last()) {
        trim_end(s.drop_last())
    } else {
        s
    }
}

/// `s` without leading and trailing white space.
pub open spec fn trim(s: Seq<char>) -> Seq<char> {
    trim_end(trim_start(s))
}

/// The stretches of text that a list of index pairs cuts out of `chars`.
pub open spec fn pieces(chars: Seq<char>, ranges: Seq<(usize, usize)>) -> Seq<Seq<char>> {
    Seq::new(ranges.len(), |k: int| chars.subrange(ranges[k].0 as int, ranges[k].1 as int))
}

/// Whether a character is white space.
pub fn char_is_whitespace(c: char) -> (r: bool)
    ensures
        r == is_whitespace(c),
{
    let n: u32 = c as u32;
    (0x09 <= n && n <= 0x0D) || n == 0x20 || n == 0x85 || n == 0xA0 || n == 0x1680 || (0x2000
        <= n && n <= 0x200A) || n == 0x2028 || n == 0x2029 || n == 0x202F || n == 0x205F || n
        == 0x3000
}

/// The characters of a string, in order.
pub fn to_chars(s: &str) -> (chars: Vec<char>)
    ensures
        chars@ == s@,
{
    let mut chars: Vec<char> = Vec::new();
    for c in iter: s.chars()
        invariant
            iter.seq() == s@,
            chars@ == s@.take(iter.index() as int),
    {
        chars.push(c);
        assert(s@.take(iter.index() + 1) =~= s@.take(iter.index() as int).push(c));
    }
    assert(s@.take(s@.len() as int) =~= s@);
    chars
}

/// Cuts the stretch of `chars` from `from` to `to` at every `sep`. Each pair
/// of the result gives the start and the end of one piece.
pub fn split_ranges(chars: &Vec<char>, from: usize, to: usize, sep: char) -> (ranges: Vec<
    (usize, usize),
>)
    requires
        from <= to <= chars.len(),
    ensures
        forall|k: int|
            0 <= k < ranges.len() ==> from <= (#[trigger] ranges[k]).0 <= ranges[k].1 <= to,
        pieces(chars@, ranges@) == split(chars@.subrange(from as int, to as int), sep),
{
    let mut ranges: Vec<(usize, usize)> = Vec::new();
    let mut start: usize = from;
    let mut i: usize = from;
    proof {
        assert(chars@.subrange(from as int, from as int) =~= Seq::empty());
        assert(pieces(chars@, ranges@).push(chars@.subrange(start as int, i as int)) =~= split(
            chars@.subrange(from as int, i as int),
            sep,
        ));
    }
    while i < to
        invariant
            from <= start <= i <= to <= chars.len(),
            forall|k: int|
                0 <= k < ranges.len() ==> from <= (#[trigger] ranges[k]).0 <= ranges[k].1 <= to,
            pieces(chars@, ranges@).push(chars@.subrange(start as int, i as int)) == split(
                chars@.subrange(from as int, i as int),
                sep,
            ),
        decreases to - i,
    {
        let ghost done = pieces(chars@, ranges@);
        let ghost prefix = chars@.subrange(from as int, i as int);
        let ghost longer = chars@.subrange(from as int, i + 1);
        proof {
            assert(longer.drop_last() =~= prefix);
            assert(longer.last() == chars@[i as int]);
        }
        if chars[i] == sep {
            let ghost piece = chars@.subrange(start as int, i as int);
            ranges.push((start, i));
            start = i + 1;
            proof {
                assert(pieces(chars@, ranges@) =~= done.push(piece));
                assert(chars@.subrange(start as int, i + 1) =~= Seq::empty());
            }
        } else {
            proof {
                assert(done.push(chars@.subrange(start as int, i as int)).drop_last() =~= done);
                assert(chars@.subrange(start as int, i + 1) =~= chars@.subrange(
                    start as int,
                    i as int,
                ).push(chars@[i as int]));
            }
        }
        i += 1;
    }
    ranges.push((start, to));
    proof {
        assert(pieces(chars@, ranges@) =~= pieces(chars@, ranges@.drop_last()).push(
            chars@.subrange(start as int, to as int),
        ));
        assert(pieces(chars@, ranges@.drop_last()) =~= pieces(
            chars@,
            ranges@.subrange(0, ranges.len() - 1),
        ));
    }
    ranges
}

/// Narrows the stretch of `chars` from `from` to `to` until it neither starts
/// nor ends with white space.
pub fn trim_range(chars: &Vec<char>, from: usize, to: usize) -> (range: (usize, usize))
    requires
        from <= to <= chars.len(),
    ensures
        from <= range.0 <= range.1 <= to,
        chars@.subrange(range.0 as int, range.1 as int) == trim(
            chars@.subrange(from as int, to as int),
        ),
{
    let mut a: usize = from;
    while a < to && char_is_whitespace(chars[a])
        invariant
            from <= a <= to <= chars.len(),
            trim_start(chars@.subrange(a as int, to as int)) == trim_start(
                chars@.subrange(from as int, to as int),
            ),
        decreases to - a,
    {
        proof {
            assert(chars@.subrange(a as int, to as int).drop_first() =~= chars@.subrange(
                a + 1,
                to as int,
            ));
        }
        a += 1;
    }
    let mut b: usize = to;
    while b > a && char_is_whitespace(chars[b - 1])
        invariant
            a <= b <= to <= chars.len(),
            trim_end(chars@.subrange(a as int, b as int)) == trim_end(
                chars@.subrange(a as int, to as int),
            ),
        decreases b - a,
    {
        proof {
            assert(chars@.subrange(a as int, b as int).drop_last() =~= chars@.subrange(
                a as int,
                b - 1,
            ));
        }
        b -= 1;
    }
    (a, b)
}

} // verus!
