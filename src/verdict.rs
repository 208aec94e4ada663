//! Turning the submission endpoint's answer into a message for the user.
use vstd::prelude::*;
use crate::json::{bool_field, i64_field, is_json_object, json_bool_at, json_i64_at, json_object};
use crate::text::dec;

verus! {

/// The text shown for a submission's outcome: right, with the global rank
/// where one is given, or wrong, with a note where even the length was wrong.
pub open spec fn verdict_message(correct: bool, length_correct: bool, global_place: Option<i64>) -> Seq<char> {
    if correct {
        if global_place is Some && global_place->0 > 0 {
            "\x1b[32m\u{2713} Correct answer!\x1b[0m - Global rank: #"@ + dec(global_place->0 as nat)
        } else {
            "\x1b[32m\u{2713} Correct answer!\x1b[0m"@
        }
    } else if !length_correct {
        "\x1b[31m\u{2717} Incorrect answer\x1b[0m (wrong length)"@
    } else {
        "\x1b[31m\u{2717} Incorrect answer\x1b[0m"@
    }
}

/// What a response body reads as: the verdict where it is a JSON object, with
/// absent or mistyped fields read as false, else the body itself.
pub open spec fn submission_message(body: Seq<char>) -> Seq<char> {
    if json_object(body) {
        verdict_message(
            json_bool_at(body, "correct"@) == Some(true),
            json_bool_at(body, "lengthCorrect"@) == Some(true),
            json_i64_at(body, "globalPlace"@),
        )
    } else {
        body
    }
}

/// Renders a verdict whose fields have been read.
pub fn render_verdict(correct: bool, length_correct: bool, global_place: Option<i64>) -> (r: String)
    ensures
        r@ == verdict_message(correct, length_correct, global_place),
{
    if correct {
        match global_place {
            Some(p) => {
                if p > 0 {
                    let mut out: Vec<char> = Vec::new();
                    crate::text::push_dec(&mut out, p as u64);
                    let digits = crate::text::string_of(&out);
                    let mut msg = String::from_str("\x1b[32m\u{2713} Correct answer!\x1b[0m - Global rank: #");
                    msg.append(digits.as_str());
                    return msg;
                }
            },
            None => {},
        }
        String::from_str("\x1b[32m\u{2713} Correct answer!\x1b[0m")
    } else if !length_correct {
        String::from_str("\x1b[31m\u{2717} Incorrect answer\x1b[0m (wrong length)")
    } else {
        String::from_str("\x1b[31m\u{2717} Incorrect answer\x1b[0m")
    }
}

/// The text shown when a submission could not be made at all, which is not
/// the same as a wrong answer: `error` is the failure's description.
pub fn submission_failed_message(error: &str) -> (r: String)
    ensures
        r@ == "\x1b[31m\u{2717} Submission failed: "@ + error@ + "\x1b[0m"@,
{
    let mut m = String::from_str("\x1b[31m\u{2717} Submission failed: ");
    m.append(error);
    m.append("\x1b[0m");
    m
}

/// The text shown when no client could be set up for a submission.
pub fn client_error_message(error: &str) -> (r: String)
    ensures
        r@ == "\x1b[31m\u{2717} Client error: "@ + error@ + "\x1b[0m"@,
{
    let mut m = String::from_str("\x1b[31m\u{2717} Client error: ");
    m.append(error);
    m.append("\x1b[0m");
    m
}

/// Interprets the submission endpoint's response body; never fails.
pub fn format_submission_response(response: &str) -> (r: String)
    ensures
        r@ == submission_message(response@),
{
    if is_json_object(response) {
        let correct = bool_field(response, "correct");
        let length_correct = bool_field(response, "lengthCorrect");
        let place = i64_field(response, "globalPlace");
        render_verdict(
            match correct {
                Some(b) => b,
                None => false,
            },
            match length_correct {
                Some(b) => b,
                None => false,
            },
            place,
        )
    } else {
        String::from_str(response)
    }
}

} // verus!
