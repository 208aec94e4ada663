//! Splitting character sequences at a separator.
use vstd::prelude::*;

verus! {

/// The pieces of `s` between occurrences of `c`, as `str::split` gives them:
/// always at least one piece.
pub open spec fn split_on(s: Seq<char>, c: char) -> Seq<Seq<char>>
    decreases s.len(),
{
    if s.len() == 0 {
        seq![Seq::<char>::empty()]
    } else if s.last() == c {
        split_on(s.drop_last(), c).push(Seq::<char>::empty())
    } else {
        let p = split_on(s.drop_last(), c);
        p.update(p.len() - 1, p.last().push(s.last()))
    }
}

pub proof fn lemma_split_nonempty(s: Seq<char>, c: char)
    ensures
        split_on(s, c).len() >= 1,
    decreases s.len(),
{
    if s.len() > 0 {
        lemma_split_nonempty(s.drop_last(), c);
    }
}

pub open spec fn views(v: Seq<Vec<char>>) -> Seq<Seq<char>> {
    v.map_values(|x: Vec<char>| x@)
}

/// Splits `s[from..to]` at every `c`.
pub fn split_chars(s: &Vec<char>, from: usize, to: usize, c: char) -> (r: Vec<Vec<char>>)
    requires
        from <= to <= s@.len(),
    ensures
        views(r@) == split_on(s@.subrange(from as int, to as int), c),
{
    let ghost sub = s@.subrange(from as int, to as int);
    let mut pieces: Vec<Vec<char>> = Vec::new();
    let mut cur: Vec<char> = Vec::new();
    let mut i: usize = from;
    assert(sub.take(0) =~= Seq::<char>::empty());
    assert(views(pieces@).push(cur@) =~= seq![Seq::<char>::empty()]);
    while i < to
        invariant
            from <= i <= to <= s@.len(),
            sub == s@.subrange(from as int, to as int),
            views(pieces@).push(cur@) == split_on(sub.take(i - from), c),
        decreases to - i,
    {
        let ch = s[i];
        let ghost before = sub.take(i - from);
        assert(sub.take(i - from + 1).drop_last() =~= before);
        assert(sub.take(i - from + 1).last() == ch);
        if ch == c {
            pieces.push(cur);
            cur = Vec::new();
            assert(views(pieces@).push(cur@) =~= split_on(before, c).push(Seq::<char>::empty()));
        } else {
            let ghost old_cur = cur@;
            cur.push(ch);
            let ghost p = split_on(before, c);
            assert(views(pieces@).push(cur@) =~= p.update(p.len() - 1, p.last().push(ch)));
        }
        i = i + 1;
    }
    assert(sub.take(to - from) =~= sub);
    pieces.push(cur);
    assert(views(pieces@) =~= split_on(sub, c));
    pieces
}

/// The index of the first `c` in `s`, or its length where there is none.
pub open spec fn index_of(s: Seq<char>, c: char) -> int
    decreases s.len(),
{
    if s.len() == 0 {
        0
    } else if s[0] == c {
        0
    } else {
        1 + index_of(s.drop_first(), c)
    }
}

proof fn lemma_index_of(s: Seq<char>, c: char, i: int)
    requires
        0 <= i <= s.len(),
        forall|j: int| 0 <= j < i ==> #[trigger] s[j] != c,
        i == s.len() || s[i] == c,
    ensures
        index_of(s, c) == i,
    decreases i,
{
    if i > 0 {
        assert(s[0] != c);
        lemma_index_of(s.drop_first(), c, i - 1);
    }
}

/// The index of the first `c` in `s[from..]`, counted from `from`, or the
/// length of that rest where there is none.
pub fn find_char(s: &Vec<char>, from: usize, c: char) -> (r: usize)
    requires
        from <= s@.len(),
    ensures
        r == index_of(s@.skip(from as int), c),
        r <= s@.len() - from,
{
    let ghost rest = s@.skip(from as int);
    let mut i: usize = from;
    while i < s.len()
        invariant
            from <= i <= s@.len(),
            rest == s@.skip(from as int),
            forall|j: int| 0 <= j < i - from ==> #[trigger] rest[j] != c,
        decreases s@.len() - i,
    {
        if s[i] == c {
            proof {
                lemma_index_of(rest, c, i - from);
            }
            return i - from;
        }
        i = i + 1;
    }
    proof {
        lemma_index_of(rest, c, i - from);
    }
    i - from
}

/// A copy of `s[from..to]`.
pub fn copy_range(s: &Vec<char>, from: usize, to: usize) -> (r: Vec<char>)
    requires
        from <= to <= s@.len(),
    ensures
        r@ == s@.subrange(from as int, to as int),
{
    let mut out: Vec<char> = Vec::new();
    let mut i: usize = from;
    while i < to
        invariant
            from <= i <= to <= s@.len(),
            out@ == s@.subrange(from as int, i as int),
        decreases to - i,
    {
        out.push(s[i]);
        i = i + 1;
        assert(out@ =~= s@.subrange(from as int, i as int));
    }
    out
}

/// Whether a blank line separator (two newlines) starts at `i`.
pub open spec fn blank_at(s: Seq<char>, i: int) -> bool {
    0 <= i && i + 1 < s.len() && s[i] == '\n' && s[i + 1] == '\n'
}

/// Whether `i` is where the first blank line separator starts.
pub open spec fn first_blank(s: Seq<char>, i: int) -> bool {
    blank_at(s, i) && forall|j: int| 0 <= j < i ==> !#[trigger] blank_at(s, j)
}

/// Where the first blank line separator of `s` starts, if any.
pub fn find_blank(s: &Vec<char>) -> (r: Option<usize>)
    ensures
        r is Some ==> first_blank(s@, r->0 as int),
        r is None ==> forall|j: int| !#[trigger] blank_at(s@, j),
{
    let mut i: usize = 0;
    while i < s.len()
        invariant
            i <= s@.len(),
            forall|j: int| 0 <= j < i ==> !#[trigger] blank_at(s@, j),
        decreases s@.len() - i,
    {
        if i + 1 < s.len() && s[i] == '\n' && s[i + 1] == '\n' {
            return Some(i);
        }
        i = i + 1;
    }
    None
}

} // verus!
