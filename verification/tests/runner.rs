use leanpub_client::runner::decode_error_message;
use leanpub_client::runner::is_success_status;
use leanpub_client::runner::missing_credential_message;
use leanpub_client::runner::outcome_line;
use leanpub_client::runner::u16_to_decimal;
use leanpub_client::runner::FetchOutcome;
use leanpub_client::runner::Runner;
use leanpub_client::urls::build_candidates;

#[test]
fn success_range_is_exactly_2xx() {
    assert!(!is_success_status(199));
    assert!(is_success_status(200));
    assert!(is_success_status(204));
    assert!(is_success_status(299));
    assert!(!is_success_status(300));
    assert!(!is_success_status(404));
    assert!(!is_success_status(0));
}

#[test]
fn decimal_rendering_is_exact() {
    assert_eq!(u16_to_decimal(0), "0");
    assert_eq!(u16_to_decimal(7), "7");
    assert_eq!(u16_to_decimal(200), "200");
    assert_eq!(u16_to_decimal(404), "404");
    assert_eq!(u16_to_decimal(65535), "65535");
}

#[test]
fn recorded_lines_have_the_documented_shape() {
    let status = outcome_line("https://leanpub.com/b.json", &FetchOutcome::Status(404));
    assert_eq!(status, "https://leanpub.com/b.json => 404");
    let transport = outcome_line(
        "https://leanpub.com/b.json",
        &FetchOutcome::TransportError("connection refused".to_string()),
    );
    assert_eq!(
        transport,
        "https://leanpub.com/b.json => request error: connection refused"
    );
}

#[test]
fn all_candidates_failing_reports_one_line_per_url_in_order() {
    let mut runner = Runner::new(build_candidates("my-book", "abc123", false));
    let first = runner.next_url().expect("first candidate");
    assert_eq!(first, "https://leanpub.com/my-book/book_metadata.json?api_key=abc123");
    runner.record_failure(FetchOutcome::Status(404));
    let second = runner.next_url().expect("second candidate");
    assert_eq!(second, "https://leanpub.com/my-book.json");
    runner.record_failure(FetchOutcome::TransportError("dns error".to_string()));
    assert!(runner.next_url().is_none());
    assert_eq!(
        runner.aggregate_message(),
        "All endpoints failed:\n\
         https://leanpub.com/my-book/book_metadata.json?api_key=abc123 => 404\n\
         https://leanpub.com/my-book.json => request error: dns error"
    );
}

#[test]
fn success_on_first_candidate_leaves_fallback_unattempted() {
    // Scripted outcomes: the first candidate would answer 200, so the driver
    // loop stops before asking for another URL.
    let outcomes = [200u16, 404u16];
    let mut runner = Runner::new(build_candidates("my-book", "abc123", false));
    let mut attempted: Vec<String> = Vec::new();
    let mut result: Option<String> = None;
    while let Some(url) = runner.next_url() {
        let status = outcomes[attempted.len()];
        attempted.push(url.clone());
        if is_success_status(status) {
            result = Some(url);
            break;
        }
        runner.record_failure(FetchOutcome::Status(status));
    }
    assert_eq!(attempted.len(), 1);
    assert_eq!(
        result.as_deref(),
        Some("https://leanpub.com/my-book/book_metadata.json?api_key=abc123")
    );
}

#[test]
fn failed_first_candidate_moves_to_fallback_with_same_identifier() {
    let mut runner = Runner::new(build_candidates("my-book", "abc123", false));
    let first = runner.next_url().expect("first candidate");
    assert!(first.contains("my-book"));
    runner.record_failure(FetchOutcome::Status(500));
    let second = runner.next_url().expect("fallback candidate");
    assert_eq!(second, "https://leanpub.com/my-book.json");
}

#[test]
fn single_legacy_candidate_failing_reports_one_line() {
    let mut runner = Runner::new(build_candidates("b", "k", true));
    let only = runner.next_url().expect("legacy candidate");
    runner.record_failure(FetchOutcome::Status(403));
    assert!(runner.next_url().is_none());
    assert_eq!(
        runner.aggregate_message(),
        format!("All endpoints failed:\n{} => 403", only)
    );
}

#[test]
fn missing_credential_message_names_the_variable() {
    let msg = missing_credential_message();
    assert!(msg.contains("LEANPUB_API_KEY"));
    assert_eq!(msg, "LEANPUB_API_KEY env var must be set with your Leanpub API key");
}

#[test]
fn decode_error_names_the_url() {
    assert_eq!(
        decode_error_message("https://leanpub.com/b.json"),
        "https://leanpub.com/b.json => invalid JSON body"
    );
}
