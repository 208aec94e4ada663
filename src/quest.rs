//! Quest numbers within an event.
use vstd::prelude::*;
use crate::text::{chars_of, dec, dec2, lemma_parse_dec_u8, parse_u32, parse_u8_spec, push_dec, string_of};

verus! {

/// A quest number; never zero.
#[derive(Debug, Clone, Copy, PartialEq, Eq, Structural, PartialOrd, Ord, Hash)]
pub struct Quest(u8);

/// What parsing `s` as a quest gives: an 8-bit decimal other than zero.
pub open spec fn parse_quest_spec(s: Seq<char>) -> Option<u8> {
    match parse_u8_spec(s) {
        Some(n) => if n > 0 { Some(n) } else { None },
        None => None,
    }
}

/// Every quest number but zero parses back from its two-digit text.
pub proof fn lemma_quest_round_trip(n: u8)
    requires
        n > 0,
    ensures
        parse_quest_spec(dec2(n as nat)) == Some(n),
{
    lemma_parse_dec_u8(n);
    if n < 10 {
        crate::text::lemma_dec_value(n as nat);
        let t = dec2(n as nat);
        assert(t.drop_last() =~= seq!['0']);
        assert(crate::text::decimal_value(seq!['0'].drop_last()) == 0);
        assert(t.last() == dec(n as nat).last());
        assert(dec(n as nat).drop_last() =~= Seq::<char>::empty());
        assert(crate::text::decimal_value(Seq::<char>::empty()) == 0);
        assert(crate::text::decimal_value(seq!['0']) == 0);
        assert(crate::text::decimal_value(t) == crate::text::decimal_value(t.drop_last()) * 10
            + crate::text::digit_val(t.last()));
        assert(crate::text::decimal_value(t) == n);
        assert(crate::text::all_digits(t));
    }
}

impl Quest {
    pub closed spec fn number(self) -> u8 {
        self.0
    }

    pub closed spec fn wf(self) -> bool {
        self.0 > 0
    }

    pub fn as_u8(&self) -> (r: u8)
        ensures
            r == self.number(),
    {
        self.0
    }

    /// A quest from its number; zero is refused.
    pub fn try_new(value: u8) -> (r: Result<Quest, String>)
        ensures
            r is Ok <==> value > 0,
            r is Ok ==> r->Ok_0.number() == value && r->Ok_0.wf(),
    {
        if value == 0 {
            Err(String::from_str("Quest number must be greater than 0, but was 0."))
        } else {
            Ok(Quest(value))
        }
    }

    /// Parses a plain decimal quest number; zero and non-numbers are refused.
    pub fn parse(s: &str) -> (r: Result<Quest, String>)
        ensures
            r is Ok <==> parse_quest_spec(s@) is Some,
            r is Ok ==> r->Ok_0.number() == parse_quest_spec(s@)->0 && r->Ok_0.wf(),
    {
        let cs = chars_of(s);
        assert(s@.subrange(0, s@.len() as int) =~= s@);
        match parse_u32(&cs, 0, cs.len()) {
            Some(v) => {
                if v <= 255 {
                    Quest::try_new(v as u8)
                } else {
                    let mut msg = String::from_str("Invalid quest number: ");
                    msg.append(s);
                    Err(msg)
                }
            },
            None => {
                let mut msg = String::from_str("Invalid quest number: ");
                msg.append(s);
                Err(msg)
            },
        }
    }

    /// The number as two-digit zero-padded decimal text.
    pub fn to_text(&self) -> (r: String)
        ensures
            r@ == dec2(self.number() as nat),
    {
        let mut out: Vec<char> = Vec::new();
        if self.0 < 10 {
            out.push('0');
        }
        push_dec(&mut out, self.0 as u64);
        assert(out@ =~= dec2(self.number() as nat));
        string_of(&out)
    }
}

} // verus!
