//! Event or story identifiers: `e<N>` and `s<N>`.
use vstd::prelude::*;
use crate::text::{chars_of, dec, lemma_parse_dec_u32, parse_u32, parse_u32_spec, push_dec, string_of};

verus! {

/// A competition edition (`e<N>`) or a story track (`s<N>`).
#[derive(Debug, Clone, Copy, PartialEq, Eq, Structural, PartialOrd, Ord, Hash)]
pub enum Event {
    Event(u32),
    Story(u32),
}

/// The tag letter of an event's kind.
pub open spec fn kind_letter(e: Event) -> char {
    match e {
        Event::Event(_) => 'e',
        Event::Story(_) => 's',
    }
}

pub open spec fn event_number(e: Event) -> u32 {
    match e {
        Event::Event(n) | Event::Story(n) => n,
    }
}

/// The text form of an event: its tag letter followed by its number.
pub open spec fn event_text(e: Event) -> Seq<char> {
    seq![kind_letter(e)] + dec(event_number(e) as nat)
}

/// What parsing `s` gives: `e` or `s` followed by a 32-bit decimal.
pub open spec fn parse_event_spec(s: Seq<char>) -> Option<Event> {
    if s.len() > 0 && s[0] == 'e' && parse_u32_spec(s.drop_first()) is Some {
        Some(Event::Event(parse_u32_spec(s.drop_first())->0))
    } else if s.len() > 0 && s[0] == 's' && parse_u32_spec(s.drop_first()) is Some {
        Some(Event::Story(parse_u32_spec(s.drop_first())->0))
    } else {
        None
    }
}

/// Parsing the text form of any event gives that event back.
pub proof fn lemma_event_round_trip(e: Event)
    ensures
        parse_event_spec(event_text(e)) == Some(e),
{
    lemma_parse_dec_u32(event_number(e));
    assert(event_text(e).drop_first() =~= dec(event_number(e) as nat));
}

impl Event {
    pub fn as_u32(&self) -> (r: u32)
        ensures
            r == event_number(*self),
    {
        match self {
            Event::Event(n) | Event::Story(n) => *n,
        }
    }

    /// Parses `e<N>` or `s<N>`; anything else is refused with a message.
    pub fn parse(s: &str) -> (r: Result<Event, String>)
        ensures
            r is Ok <==> parse_event_spec(s@) is Some,
            r is Ok ==> r->Ok_0 == parse_event_spec(s@)->0,
    {
        let cs = chars_of(s);
        if cs.len() > 0 && (cs[0] == 'e' || cs[0] == 's') {
            let n = parse_u32(&cs, 1, cs.len());
            assert(s@.subrange(1, s@.len() as int) =~= s@.drop_first());
            match n {
                Some(v) => {
                    if cs[0] == 'e' {
                        Ok(Event::Event(v))
                    } else {
                        Ok(Event::Story(v))
                    }
                },
                None => {
                    let mut msg = String::from_str("Invalid event/story number: ");
                    msg.append(s);
                    Err(msg)
                },
            }
        } else {
            let mut msg = String::from_str("Invalid event/story ");
            msg.append(s);
            Err(msg)
        }
    }

    /// The text form, `e<N>` or `s<N>`.
    pub fn to_text(&self) -> (r: String)
        ensures
            r@ == event_text(*self),
    {
        let mut out: Vec<char> = Vec::new();
        match self {
            Event::Event(_) => out.push('e'),
            Event::Story(_) => out.push('s'),
        }
        push_dec(&mut out, self.as_u32() as u64);
        assert(out@ =~= event_text(*self));
        string_of(&out)
    }
}

} // verus!
