//! Character-level helpers on string slices: splitting on a separator,
//! splitting at the first occurrence of a separator, and equality.
use vstd::prelude::*;

verus! {

/// The components of `s` between occurrences of `sep`, in order.
/// There is always one more component than separators; components may be empty.
pub open spec fn split(s: Seq<char>, sep: char) -> Seq<Seq<char>>
    decreases s.len(),
{
    if s.len() == 0 {
        seq![Seq::<char>::empty()]
    } else {
        let r = split(s.drop_last(), sep);
        if s.last() == sep {
            r.push(Seq::<char>::empty())
        } else {
            r.update(r.len() - 1, r.last().push(s.last()))
        }
    }
}

/// The part before and the part after the first occurrence of `sep` in `s`,
/// or `None` if `sep` does not occur.
pub open spec fn split_once(s: Seq<char>, sep: char) -> Option<(Seq<char>, Seq<char>)>
    decreases s.len(),
{
    if s.len() == 0 {
        None
    } else if s[0] == sep {
        Some((Seq::<char>::empty(), s.drop_first()))
    } else {
        match split_once(s.drop_first(), sep) {
            Some((a, b)) => Some((seq![s[0]] + a, b)),
            None => None,
        }
    }
}

/// The character views of a sequence of string slices.
pub open spec fn views<'a>(v: Seq<&'a str>) -> Seq<Seq<char>> {
    v.map_values(|x: &'a str| x@)
}

proof fn lemma_split_once_found(s: Seq<char>, sep: char, i: int)
    requires
        0 <= i < s.len(),
        s[i] == sep,
        forall|j: int| 0 <= j < i ==> s[j] != sep,
    ensures
        split_once(s, sep) == Some((s.take(i), s.skip(i + 1))),
    decreases i,
{
    if i == 0 {
        assert(s.drop_first() =~= s.skip(1));
        assert(s.take(0) =~= Seq::<char>::empty());
    } else {
        let t = s.drop_first();
        lemma_split_once_found(t, sep, i - 1);
        assert(seq![s[0]] + t.take(i - 1) =~= s.take(i));
        assert(t.skip(i) =~= s.skip(i + 1));
    }
}

/// A sequence without `sep` has no split point.
pub proof fn lemma_split_once_absent(s: Seq<char>, sep: char)
    requires
        forall|j: int| 0 <= j < s.len() ==> s[j] != sep,
    ensures
        split_once(s, sep) is None,
    decreases s.len(),
{
    if s.len() > 0 {
        lemma_split_once_absent(s.drop_first(), sep);
    }
}

/// Whether two string slices hold the same characters.
pub fn str_eq(a: &str, b: &str) -> (r: bool)
    ensures
        r == (a@ == b@),
{
    let n = a.unicode_len();
    if n != b.unicode_len() {
        return false;
    }
    let mut i: usize = 0;
    while i < n
        invariant
            n == a@.len() == b@.len(),
            i <= n,
            forall|j: int| 0 <= j < i ==> a@[j] == b@[j],
        decreases n - i,
    {
        if a.get_char(i) != b.get_char(i) {
            return false;
        }
        i += 1;
    }
    assert(a@ =~= b@);
    true
}

/// Splits `s` at the first occurrence of `sep`.
pub fn split_once_char<'a>(s: &'a str, sep: char) -> (r: Option<(&'a str, &'a str)>)
    ensures
        match split_once(s@, sep) {
            Some((x, y)) => r matches Some((a, b)) && a@ == x && b@ == y,
            None => r is None,
        },
{
    let n = s.unicode_len();
    let mut i: usize = 0;
    while i < n
        invariant
            n == s@.len(),
            i <= n,
            forall|j: int| 0 <= j < i ==> s@[j] != sep,
        decreases n - i,
    {
        if s.get_char(i) == sep {
            proof {
                lemma_split_once_found(s@, sep, i as int);
            }
            return Some((s.substring_char(0, i), s.substring_char(i + 1, n)));
        }
        i += 1;
    }
    proof {
        lemma_split_once_absent(s@, sep);
    }
    None
}

/// Splits `s` into the components between occurrences of `sep`.
pub fn split_char<'a>(s: &'a str, sep: char) -> (r: Vec<&'a str>)
    ensures
        views(r@) == split(s@, sep),
{
    let n = s.unicode_len();
    let mut parts: Vec<&'a str> = Vec::new();
    let mut start: usize = 0;
    let mut i: usize = 0;
    proof {
        assert(views(parts@).push(s@.subrange(0, 0)) =~~= split(s@.take(0), sep));
    }
    while i < n
        invariant
            n == s@.len(),
            start <= i <= n,
            views(parts@).push(s@.subrange(start as int, i as int)) == split(s@.take(i as int), sep),
        decreases n - i,
    {
        let c = s.get_char(i);
        proof {
            assert(s@.take(i + 1).drop_last() =~= s@.take(i as int));
            assert(s@.subrange(start as int, i + 1) =~= s@.subrange(start as int, i as int).push(c));
        }
        if c == sep {
            let part = s.substring_char(start, i);
            let ghost before = parts@;
            parts.push(part);
            start = i + 1;
            proof {
                assert(views(parts@) =~= views(before).push(part@));
                assert(views(parts@).push(s@.subrange(start as int, i + 1)) =~~= split(s@.take(i + 1), sep));
            }
        } else {
            proof {
                assert(views(parts@).push(s@.subrange(start as int, i + 1)) =~~= split(s@.take(i + 1), sep));
            }
        }
        i += 1;
    }
    let last = s.substring_char(start, n);
    let ghost before = parts@;
    parts.push(last);
    proof {
        assert(views(parts@) =~= views(before).push(last@));
        assert(s@.take(n as int) =~= s@);
    }
    parts
}

} // verus!
