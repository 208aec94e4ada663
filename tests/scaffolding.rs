use ec::notes::note_file_name;
use ec::quest_e2025_01::{part_one, part_three, part_two};
use ec::{determine_current_quest, determine_next_part, determine_next_quest, Event, Quest};

fn flags(present: usize) -> Vec<bool> {
    (0..75).map(|i| i < present).collect()
}

#[test]
fn next_and_current_quest() {
    assert_eq!(determine_next_quest(&flags(0)), 1);
    assert_eq!(determine_current_quest(&flags(0)), 1);
    assert_eq!(determine_next_quest(&flags(3)), 2);
    assert_eq!(determine_current_quest(&flags(3)), 1);
    assert_eq!(determine_next_quest(&flags(4)), 2);
    assert_eq!(determine_current_quest(&flags(4)), 2);
    assert_eq!(determine_next_quest(&flags(75)), 1);
    assert_eq!(determine_current_quest(&flags(75)), 25);
    let mut f = flags(75);
    f[40] = false;
    assert_eq!(determine_next_quest(&f), 14);
    assert_eq!(determine_current_quest(&f), 14);
}

#[test]
fn next_part() {
    assert_eq!(determine_next_part(&vec![false, false, false]), 1);
    assert_eq!(determine_next_part(&vec![true, false, false]), 2);
    assert_eq!(determine_next_part(&vec![true, true, false]), 3);
    assert_eq!(determine_next_part(&vec![true, true, true]), 1);
    assert_eq!(determine_next_part(&vec![true, false, true]), 2);
}

#[test]
fn note_file_names() {
    let q = Quest::try_new(3).unwrap();
    assert_eq!(note_file_name(Event::Event(2025), q, 1), "e2025-03-1.txt");
    assert_eq!(note_file_name(Event::Story(1), Quest::try_new(17).unwrap(), 3), "s1-17-3.txt");
}

const NOTES: &str = "Vyrdax,Drakzyph,Fyrryn,Elarzris\n\nR3,L2,R3,L1";

#[test]
fn quest_e2025_01_test_part_one() {
    assert_eq!(part_one(NOTES), Ok("Fyrryn".to_string()));
}

#[test]
fn quest_e2025_01_test_part_two() {
    assert_eq!(part_two(NOTES), Ok("Elarzris".to_string()));
}

#[test]
fn quest_e2025_01_test_part_three() {
    let notes = "Vyrdax,Drakzyph,Fyrryn,Elarzris\n\nR3,L2,R3,L3";
    assert_eq!(part_three(notes), Ok("Drakzyph".to_string()));
}

#[test]
fn names_walk_part_three() {
    assert_eq!(part_three(NOTES), Ok("Fyrryn".to_string()));
    assert_eq!(part_three("A,B,C\n\nR1"), Ok("B".to_string()));
    assert_eq!(part_three("A,B,C\n\nL1,L1"), Ok("A".to_string()));
}

#[test]
fn names_walk_errors() {
    assert!(part_one("A,B").is_err());
    assert!(part_one("A,B\n\nX1").is_err());
    assert!(part_two("A,B\n\nR").is_err());
    assert!(part_three("A,B\n\nR1,").is_err());
    assert_eq!(part_one("A\n\nR5,L9"), Ok("A".to_string()));
    assert_eq!(part_one("A,B,C\n\nR9"), Ok("C".to_string()));
    assert_eq!(part_one("A,B,C\n\nL9"), Ok("A".to_string()));
    assert_eq!(part_two("A,B,C\n\nL1"), Ok("C".to_string()));
    assert_eq!(part_two("A,B,C\n\nR7"), Ok("B".to_string()));
    assert_eq!(part_one("A,B,C\n\nR+1"), Ok("B".to_string()));
    assert_eq!(part_one("A,B,C\n\nR2,L-1"), Ok("C".to_string()));
    assert!(part_two("A,B,C\n\nL9223372036854775808").is_err());
    assert_eq!(part_two("A,B,C\n\nL9223372036854775807"), Ok("C".to_string()));
    assert!(part_one("A,B,C\n\nR9223372036854775808").is_err());
}
