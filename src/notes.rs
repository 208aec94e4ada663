//! Which quest and part to work on, from which input files exist. The inputs
//! of an event are laid out as quests 1 to 25 with parts 1 to 3 each; the
//! caller reports, in that order, whether each part's input file exists.
use vstd::prelude::*;
use crate::event::{event_text, Event};
use crate::quest::Quest;
use crate::text::{dec, dec2, dec_string};

verus! {

/// The number of parts of a quest.
pub const PARTS: usize = 3;

/// The index of the first `false` in `s`, or its length where there is none.
pub open spec fn first_missing(s: Seq<bool>) -> int
    decreases s.len(),
{
    if s.len() == 0 {
        0
    } else if !s[0] {
        0
    } else {
        1 + first_missing(s.drop_first())
    }
}

/// The next quest to scaffold: the first with a missing part, else quest 1.
pub open spec fn next_quest_spec(present: Seq<bool>) -> u8 {
    let k = first_missing(present);
    if k < present.len() {
        (k / 3 + 1) as u8
    } else {
        1
    }
}

/// The quest to solve: the quest of the last file present before the first
/// missing one, 1 where the very first is missing.
pub open spec fn current_quest_spec(present: Seq<bool>) -> u8 {
    let k = first_missing(present);
    if k == 0 {
        1
    } else {
        ((k - 1) / 3 + 1) as u8
    }
}

/// The next part to scaffold: the first missing one, else part 1.
pub open spec fn next_part_spec(present: Seq<bool>) -> u8 {
    let k = first_missing(present);
    if k < present.len() {
        (k + 1) as u8
    } else {
        1
    }
}

proof fn lemma_first_missing(s: Seq<bool>, i: int)
    requires
        0 <= i <= s.len(),
        forall|j: int| 0 <= j < i ==> #[trigger] s[j],
        i == s.len() || !s[i],
    ensures
        first_missing(s) == i,
    decreases i,
{
    if i > 0 {
        assert(s[0]);
        lemma_first_missing(s.drop_first(), i - 1);
    }
}

/// The index of the first missing file.
fn first_missing_exec(present: &Vec<bool>) -> (r: usize)
    ensures
        r == first_missing(present@),
        r <= present@.len(),
{
    let mut i: usize = 0;
    while i < present.len()
        invariant
            i <= present@.len(),
            forall|j: int| 0 <= j < i ==> #[trigger] present@[j],
        decreases present@.len() - i,
    {
        if !present[i] {
            proof {
                lemma_first_missing(present@, i as int);
            }
            return i;
        }
        i = i + 1;
    }
    proof {
        lemma_first_missing(present@, i as int);
    }
    i
}

/// The next quest to scaffold, given for quests 1 to 25 and parts 1 to 3, in
/// that order, whether each input file exists.
pub fn determine_next_quest(present: &Vec<bool>) -> (r: u8)
    requires
        present@.len() == 75,
    ensures
        r == next_quest_spec(present@),
        1 <= r <= 25,
{
    let k = first_missing_exec(present);
    if k < present.len() {
        (k / PARTS + 1) as u8
    } else {
        1
    }
}

/// The quest to solve, given the same flags as `determine_next_quest`.
pub fn determine_current_quest(present: &Vec<bool>) -> (r: u8)
    requires
        present@.len() == 75,
    ensures
        r == current_quest_spec(present@),
        1 <= r <= 25,
{
    let k = first_missing_exec(present);
    if k == 0 {
        1
    } else {
        ((k - 1) / PARTS + 1) as u8
    }
}

/// The next part of a quest to scaffold, given for parts 1 to 3 whether each
/// input file exists.
pub fn determine_next_part(present: &Vec<bool>) -> (r: u8)
    requires
        present@.len() == 3,
    ensures
        r == next_part_spec(present@),
        1 <= r <= 3,
{
    let k = first_missing_exec(present);
    if k < present.len() {
        (k + 1) as u8
    } else {
        1
    }
}

/// The file name of a part's input or example: `<event>-<quest:02>-<part>.txt`.
pub fn note_file_name(event: Event, quest: Quest, part: u8) -> (r: String)
    ensures
        r@ == event_text(event) + "-"@ + dec2(quest.number() as nat) + "-"@ + dec(part as nat)
            + ".txt"@,
{
    let mut name = event.to_text();
    name.append("-");
    let q = quest.to_text();
    name.append(q.as_str());
    name.append("-");
    let p = dec_string(part as u64);
    name.append(p.as_str());
    name.append(".txt");
    name
}

} // verus!
