use ec::{Event, Quest};

#[test]
fn event_parses_and_renders() {
    assert_eq!(Event::parse("e2025"), Ok(Event::Event(2025)));
    assert_eq!(Event::parse("s3"), Ok(Event::Story(3)));
    assert_eq!(Event::Event(2025).to_text(), "e2025");
    assert_eq!(Event::Story(0).to_text(), "s0");
    assert_eq!(Event::Story(7).as_u32(), 7);
}

#[test]
fn event_round_trip_on_samples() {
    for n in [0u32, 1, 9, 10, 99, 2025, 65535, u32::MAX] {
        for e in [Event::Event(n), Event::Story(n)] {
            assert_eq!(Event::parse(&e.to_text()), Ok(e));
        }
    }
}

#[test]
fn event_rejects_bad_forms() {
    for s in ["", "e", "s", "x1", "E1", "e-1", "e+1", "e1a", "e4294967296", " e1"] {
        assert!(Event::parse(s).is_err(), "{s}");
    }
}

#[test]
fn quest_rejects_zero() {
    assert!(Quest::parse("0").is_err());
    let q = Quest::parse("7").unwrap();
    assert_eq!(q.as_u8(), 7);
    assert_eq!(q.to_text(), "07");
}

#[test]
fn quest_parse_edges() {
    assert_eq!(Quest::parse("255").unwrap().as_u8(), 255);
    assert_eq!(Quest::parse("12").unwrap().to_text(), "12");
    for s in ["256", "", "-1", "abc", "1 "] {
        assert!(Quest::parse(s).is_err(), "{s}");
    }
    assert!(Quest::try_new(0).is_err());
    assert_eq!(Quest::try_new(3).unwrap().as_u8(), 3);
}
