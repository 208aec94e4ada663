//! Event 2025, quest 1: a list of names and a list of moves left and right.
//! The notes are the names, comma-separated, a blank line, then the moves,
//! comma-separated, each `L<n>` or `R<n>`.
use vstd::prelude::*;
use crate::split::{blank_at, copy_range, find_blank, first_blank, split_chars, split_on, views, lemma_split_nonempty};
use crate::text::{chars_of, parse_i64, parse_i64_spec, string_of};

verus! {

/// A move: `L<n>` is `-n`, `R<n>` is `n`, for a signed 64-bit `n`.
pub open spec fn instruction_spec(t: Seq<char>) -> Option<int> {
    if t.len() > 0 && t[0] == 'L' && parse_i64_spec(t.drop_first()) is Some {
        Some(-(parse_i64_spec(t.drop_first())->0 as int))
    } else if t.len() > 0 && t[0] == 'R' && parse_i64_spec(t.drop_first()) is Some {
        Some(parse_i64_spec(t.drop_first())->0 as int)
    } else {
        None
    }
}

/// Where the names end: the first blank line separator.
pub open spec fn names_end(s: Seq<char>) -> int {
    choose|i: int| first_blank(s, i)
}

/// The move texts: the comma-separated pieces after the blank line.
pub open spec fn move_items(s: Seq<char>) -> Seq<Seq<char>> {
    split_on(s.skip(names_end(s) + 2), ',')
}

/// Whether the notes are well formed: a blank line, and only valid moves after it.
pub open spec fn notes_ok(s: Seq<char>) -> bool {
    (exists|i: int| first_blank(s, i)) && forall|k: int|
        0 <= k < move_items(s).len() ==> (#[trigger] instruction_spec(move_items(s)[k])) is Some
}

/// The names: the comma-separated pieces before the blank line.
pub open spec fn names_of(s: Seq<char>) -> Seq<Seq<char>> {
    split_on(s.take(names_end(s)), ',')
}

/// The moves, as signed steps.
pub open spec fn moves_of(s: Seq<char>) -> Seq<int> {
    Seq::new(move_items(s).len(), |k: int| instruction_spec(move_items(s)[k])->0)
}

/// Names and moves read from the notes.
struct Notes {
    names: Vec<Vec<char>>,
    moves: Vec<i128>,
}

/// The position after the moves, held between the first and the last name.
pub open spec fn clamp_walk(ins: Seq<int>, count: int) -> int
    decreases ins.len(),
{
    if ins.len() == 0 {
        0
    } else {
        let x = clamp_walk(ins.drop_last(), count) + ins.last();
        if x < 0 {
            0
        } else if x > count - 1 {
            count - 1
        } else {
            x
        }
    }
}

/// The position after the moves, going round the circle of names.
pub open spec fn wrap_walk(ins: Seq<int>, count: int) -> int
    decreases ins.len(),
{
    if ins.len() == 0 {
        0
    } else {
        (wrap_walk(ins.drop_last(), count) + ins.last()) % count
    }
}

/// The names after each move swaps the first name with the one it points at.
pub open spec fn swap_walk(names: Seq<Seq<char>>, ins: Seq<int>) -> Seq<Seq<char>>
    decreases ins.len(),
{
    if ins.len() == 0 {
        names
    } else {
        let p = swap_walk(names, ins.drop_last());
        let t = ins.last() % (names.len() as int);
        p.update(0, p[t]).update(t, p[0])
    }
}

proof fn lemma_first_blank_unique(s: Seq<char>, i: int, j: int)
    requires
        first_blank(s, i),
        first_blank(s, j),
    ensures
        i == j,
{
    if i < j {
        assert(!blank_at(s, i));
    } else if j < i {
        assert(!blank_at(s, j));
    }
}

fn parse_instruction(t: &Vec<char>) -> (r: Option<i128>)
    ensures
        r is Some <==> instruction_spec(t@) is Some,
        r is Some ==> r->0 as int == instruction_spec(t@)->0,
        r is Some ==> -9223372036854775808 <= r->0 <= 9223372036854775808,
{
    if t.len() == 0 {
        return None;
    }
    let rest = copy_range(t, 1, t.len());
    assert(rest@ =~= t@.drop_first());
    let n = match parse_i64(&rest) {
        Some(n) => n,
        None => return None,
    };
    if t[0] == 'L' {
        Some(-(n as i128))
    } else if t[0] == 'R' {
        Some(n as i128)
    } else {
        None
    }
}

fn parse(notes: &Vec<char>) -> (r: Result<Notes, String>)
    ensures
        r is Ok <==> notes_ok(notes@),
        r is Ok ==> views(r->Ok_0.names@) == names_of(notes@) && r->Ok_0.moves@.len()
            == moves_of(notes@).len() && forall|k: int|
            0 <= k < r->Ok_0.moves@.len() ==> r->Ok_0.moves@[k] as int == #[trigger] moves_of(
                notes@,
            )[k],
        r is Ok ==> forall|k: int| 0 <= k < r->Ok_0.moves@.len() ==> -9223372036854775808 <= #[trigger] r->Ok_0.moves@[k] <= 9223372036854775808,
{
    let i = match find_blank(notes) {
        Some(i) => i,
        None => {
            assert(!exists|j: int| first_blank(notes@, j));
            return Err(String::from_str("cannot split"));
        },
    };
    proof {
        let c = choose|j: int| first_blank(notes@, j);
        lemma_first_blank_unique(notes@, i as int, c);
        assert(names_end(notes@) == i);
        assert(blank_at(notes@, i as int));
    }
    let len = notes.len();
    let names = split_chars(notes, 0, i, ',');
    let items = split_chars(notes, i + 2, len, ',');
    assert(notes@.subrange(0, i as int) =~= notes@.take(i as int));
    assert(notes@.subrange(i + 2, notes@.len() as int) =~= notes@.skip(i + 2));
    let ghost spec_items = split_on(notes@.skip(i + 2), ',');
    let mut ins: Vec<i128> = Vec::new();
    let mut k: usize = 0;
    while k < items.len()
        invariant
            k <= items@.len(),
            views(items@) == spec_items,
            spec_items == move_items(notes@),
            ins@.len() == k,
            forall|j: int| 0 <= j < k ==> (#[trigger] instruction_spec(spec_items[j])) is Some
                && ins@[j] as int == instruction_spec(spec_items[j])->0,
            forall|j: int| 0 <= j < k ==> -9223372036854775808 <= #[trigger] ins@[j] <= 9223372036854775808,
        decreases items@.len() - k,
    {
        assert(spec_items[k as int] == items@[k as int]@);
        match parse_instruction(&items[k]) {
            Some(n) => ins.push(n),
            None => {
                assert(instruction_spec(move_items(notes@)[k as int]) is None);
                assert(!notes_ok(notes@));
                return Err(String::from_str("invalid instruction"));
            },
        }
        k = k + 1;
    }
    assert(notes_ok(notes@));
    assert(moves_of(notes@).len() == ins@.len());
    Ok(Notes { names, moves: ins })
}

/// The position, in `[0, count)`, after adding `n` to `pos` round the circle.
fn wrap_step(pos: i128, n: i128, count: i128) -> (r: i128)
    requires
        -9223372036854775808 <= n <= 9223372036854775808,
        0 <= pos < count,
        count <= usize::MAX,
    ensures
        r as int == (pos as int + n as int) % (count as int),
        0 <= r < count,
{
    match (pos + n).checked_rem_euclid(count) {
        Some(m) => m,
        None => 0,
    }
}

/// The name the moves end on, where they stop at either end of the list.
pub fn part_one(notes: &str) -> (r: Result<String, String>)
    ensures
        r is Ok <==> notes_ok(notes@),
        r is Ok ==> r->Ok_0@ == names_of(notes@)[clamp_walk(moves_of(notes@), names_of(notes@).len() as int)],
{
    let cs = chars_of(notes);
    let parsed = match parse(&cs) {
        Ok(p) => p,
        Err(e) => return Err(e),
    };
    let names = parsed.names;
    let ins = parsed.moves;
    let ghost spec_ins = moves_of(notes@);
    proof {
        lemma_split_nonempty(notes@.take(names_end(notes@)), ',');
    }
    let count = names.len() as i128;
    let mut pos: i128 = 0;
    let mut k: usize = 0;
    while k < ins.len()
        invariant
            k <= ins@.len(),
            ins@.len() == spec_ins.len(),
            forall|j: int| 0 <= j < ins@.len() ==> ins@[j] as int == #[trigger] spec_ins[j],
            forall|j: int| 0 <= j < ins@.len() ==> -9223372036854775808 <= #[trigger] ins@[j] <= 9223372036854775808,
            count == names@.len(),
            count >= 1,
            count <= usize::MAX,
            pos as int == clamp_walk(spec_ins.take(k as int), count as int),
            0 <= pos < count,
        decreases ins@.len() - k,
    {
        let x = pos + ins[k];
        assert(spec_ins.take(k + 1).drop_last() =~= spec_ins.take(k as int));
        pos = if x < 0 {
            0
        } else if x > count - 1 {
            count - 1
        } else {
            x
        };
        k = k + 1;
    }
    assert(spec_ins.take(k as int) =~= spec_ins);
    assert(names@[pos as int]@ == views(names@)[pos as int]);
    Ok(string_of(&names[pos as usize]))
}

/// The name the moves end on, going round the circle of names.
pub fn part_two(notes: &str) -> (r: Result<String, String>)
    ensures
        r is Ok <==> notes_ok(notes@),
        r is Ok ==> r->Ok_0@ == names_of(notes@)[wrap_walk(moves_of(notes@), names_of(notes@).len() as int)],
{
    let cs = chars_of(notes);
    let parsed = match parse(&cs) {
        Ok(p) => p,
        Err(e) => return Err(e),
    };
    let names = parsed.names;
    let ins = parsed.moves;
    let ghost spec_ins = moves_of(notes@);
    proof {
        lemma_split_nonempty(notes@.take(names_end(notes@)), ',');
    }
    let count = names.len() as i128;
    let mut pos: i128 = 0;
    let mut k: usize = 0;
    while k < ins.len()
        invariant
            k <= ins@.len(),
            ins@.len() == spec_ins.len(),
            forall|j: int| 0 <= j < ins@.len() ==> ins@[j] as int == #[trigger] spec_ins[j],
            forall|j: int| 0 <= j < ins@.len() ==> -9223372036854775808 <= #[trigger] ins@[j] <= 9223372036854775808,
            count == names@.len(),
            count >= 1,
            count <= usize::MAX,
            pos as int == wrap_walk(spec_ins.take(k as int), count as int),
            0 <= pos < count,
        decreases ins@.len() - k,
    {
        assert(spec_ins.take(k + 1).drop_last() =~= spec_ins.take(k as int));
        pos = wrap_step(pos, ins[k], count);
        k = k + 1;
    }
    assert(spec_ins.take(k as int) =~= spec_ins);
    assert(names@[pos as int]@ == views(names@)[pos as int]);
    Ok(string_of(&names[pos as usize]))
}

/// The first name after each move swaps it with the name the move points at.
pub fn part_three(notes: &str) -> (r: Result<String, String>)
    ensures
        r is Ok <==> notes_ok(notes@),
        r is Ok ==> r->Ok_0@ == swap_walk(names_of(notes@), moves_of(notes@))[0],
{
    let cs = chars_of(notes);
    let parsed = match parse(&cs) {
        Ok(p) => p,
        Err(e) => return Err(e),
    };
    let names = parsed.names;
    let ins = parsed.moves;
    let ghost spec_ins = moves_of(notes@);
    let ghost spec_names = names_of(notes@);
    proof {
        lemma_split_nonempty(notes@.take(names_end(notes@)), ',');
    }
    let count = names.len() as i128;
    let mut order: Vec<usize> = Vec::new();
    while order.len() < names.len()
        invariant
            order@.len() <= names@.len(),
            forall|j: int| 0 <= j < order@.len() ==> order@[j] == j,
        decreases names@.len() - order@.len(),
    {
        order.push(order.len());
    }
    assert(swap_walk(spec_names, spec_ins.take(0)) == spec_names);
    let mut k: usize = 0;
    while k < ins.len()
        invariant
            k <= ins@.len(),
            ins@.len() == spec_ins.len(),
            forall|j: int| 0 <= j < ins@.len() ==> ins@[j] as int == #[trigger] spec_ins[j],
            forall|j: int| 0 <= j < ins@.len() ==> -9223372036854775808 <= #[trigger] ins@[j] <= 9223372036854775808,
            count == names@.len(),
            count == spec_names.len(),
            count >= 1,
            count <= usize::MAX,
            views(names@) == spec_names,
            order@.len() == count,
            swap_walk(spec_names, spec_ins.take(k as int)).len() == count,
            forall|j: int| 0 <= j < count ==> (#[trigger] order@[j]) < count
                && spec_names[order@[j] as int] == swap_walk(spec_names, spec_ins.take(k as int))[j],
        decreases ins@.len() - k,
    {
        assert(spec_ins.take(k + 1).drop_last() =~= spec_ins.take(k as int));
        let t = wrap_step(0, ins[k], count) as usize;
        let first = order[0];
        let other = order[t];
        order.set(0, other);
        order.set(t, first);
        k = k + 1;
    }
    assert(spec_ins.take(k as int) =~= spec_ins);
    let chosen = order[0];
    assert(names@[chosen as int]@ == views(names@)[chosen as int]);
    Ok(string_of(&names[chosen]))
}

} // verus!
