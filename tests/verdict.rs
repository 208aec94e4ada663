use ec::format_submission_response;
use ec::verdict::{client_error_message, render_verdict, submission_failed_message};

#[test]
fn verdict_correct_with_rank() {
    let m = format_submission_response("{\"correct\":true,\"globalPlace\":42}");
    assert!(m.contains("Correct answer"));
    assert!(m.contains("42"));
    assert_eq!(m, "\x1b[32m\u{2713} Correct answer!\x1b[0m - Global rank: #42");
}

#[test]
fn verdict_incorrect_wrong_length() {
    let m = format_submission_response("{\"correct\":false,\"lengthCorrect\":false}");
    assert!(m.contains("Incorrect answer"));
    assert!(m.contains("wrong length"));
}

#[test]
fn verdict_raw_text_fallback() {
    assert_eq!(format_submission_response("oops"), "oops");
    assert_eq!(format_submission_response(""), "");
}

#[test]
fn verdict_raw_text_for_json_that_is_no_object() {
    for body in ["42", "null", "[1]", "\"Already solved\"", "true"] {
        assert_eq!(format_submission_response(body), body);
    }
}

#[test]
fn failed_submission_is_not_a_wrong_answer() {
    assert_eq!(submission_failed_message("HTTP status 500"), "\x1b[31m\u{2717} Submission failed: HTTP status 500\x1b[0m");
    assert_eq!(client_error_message("session not found"), "\x1b[31m\u{2717} Client error: session not found\x1b[0m");
    assert!(!submission_failed_message("x").contains("Incorrect answer"));
}

#[test]
fn verdict_defaults_for_missing_fields() {
    assert_eq!(format_submission_response("{}"), render_verdict(false, false, None));
    assert_eq!(format_submission_response("{\"correct\":\"yes\"}"), render_verdict(false, false, None));
    assert_eq!(
        format_submission_response("{\"correct\":true,\"globalPlace\":0}"),
        "\x1b[32m\u{2713} Correct answer!\x1b[0m"
    );
    assert_eq!(
        format_submission_response("{\"correct\":false,\"lengthCorrect\":true}"),
        "\x1b[31m\u{2717} Incorrect answer\x1b[0m"
    );
}

#[test]
fn render_verdict_cases() {
    assert_eq!(render_verdict(true, false, Some(7)), "\x1b[32m\u{2713} Correct answer!\x1b[0m - Global rank: #7");
    assert_eq!(
        render_verdict(true, true, Some(12345678901)),
        "\x1b[32m\u{2713} Correct answer!\x1b[0m - Global rank: #12345678901"
    );
    assert_eq!(render_verdict(true, true, Some(-3)), "\x1b[32m\u{2713} Correct answer!\x1b[0m");
    assert_eq!(render_verdict(false, false, Some(3)), "\x1b[31m\u{2717} Incorrect answer\x1b[0m (wrong length)");
}
