use bucket_scan::aggregate::AggregateResult;
use bucket_scan::outcome::{scan, FetchOutcome, PipelineError};
use bucket_scan::pipeline::{begin, identifiers, Step};
use bucket_scan::request::Event;

fn event(find: Option<&str>) -> Event {
    Event {
        s3_bucket_name: "bucket".to_string(),
        folder: "logs/".to_string(),
        find: find.map(|text| text.to_string()),
    }
}

fn listing(keys: &[&str]) -> Vec<Option<String>> {
    keys.iter().map(|key| Some(key.to_string())).collect()
}

/// Runs a scan the way a driver does: the listing first, then the fetches in
/// the order in which they are given. Returns the result, or the failure,
/// and how many completions the scan took before it ended.
fn drive(
    event: &Event,
    listed: Result<Vec<Option<String>>, PipelineError>,
    fetches: &[(&str, Result<&[u8], PipelineError>)],
) -> (Result<AggregateResult, PipelineError>, usize) {
    let mut taken: usize = 0;
    let mut drain = match begin(event, listed) {
        Step::Launch(drain, launched) => {
            assert_eq!(launched.len(), fetches.len());
            drain
        }
        Step::Await(_) => panic!("nothing was launched yet"),
        Step::Finish(result) => return (Ok(result), taken),
        Step::Abort(error) => return (Err(error), taken),
    };
    for (identifier, fetched) in fetches {
        let completion = match fetched {
            Ok(body) => Ok(scan(identifier, body, event.pattern())),
            Err(error) => Err(*error),
        };
        taken += 1;
        drain = match drain.observe(completion) {
            Step::Await(next) => next,
            Step::Launch(..) => panic!("fetches are launched once"),
            Step::Finish(result) => return (Ok(result), taken),
            Step::Abort(error) => return (Err(error), taken),
        };
    }
    panic!("the scan is still waiting after every fetch has completed");
}

#[test]
fn three_objects_without_pattern_count_three() {
    let (result, taken) = drive(
        &event(None),
        Ok(listing(&["logs/a", "logs/b", "logs/c"])),
        &[
            ("logs/a", Ok(&b"first"[..])),
            ("logs/b", Ok(&b"second ERROR"[..])),
            ("logs/c", Ok(&b"third"[..])),
        ],
    );
    assert_eq!(result, Ok(AggregateResult::Count(3)));
    assert_eq!(taken, 3);
    assert_eq!(result.unwrap().render(), "3");
}

#[test]
fn only_matching_object_is_reported() {
    let (result, taken) = drive(
        &event(Some("ERROR")),
        Ok(listing(&["logs/a", "logs/b", "logs/c"])),
        &[
            ("logs/a", Ok(&b"all fine"[..])),
            ("logs/b", Ok(&b"ERROR: disk full"[..])),
            ("logs/c", Ok(&b"all fine too"[..])),
        ],
    );
    assert_eq!(result, Ok(AggregateResult::FirstMatch(Some("logs/b".to_string()))));
    assert_eq!(taken, 3);
    assert_eq!(result.unwrap().render(), "logs/b");
}

#[test]
fn only_matching_object_is_reported_in_every_completion_order() {
    let bodies: [(&str, &[u8]); 3] = [
        ("logs/a", b"all fine"),
        ("logs/b", b"ERROR: disk full"),
        ("logs/c", b"all fine too"),
    ];
    let orders = [[0, 1, 2], [0, 2, 1], [1, 0, 2], [1, 2, 0], [2, 0, 1], [2, 1, 0]];
    for order in orders {
        let fetches: Vec<(&str, Result<&[u8], PipelineError>)> =
            order.iter().map(|&at| (bodies[at].0, Ok(bodies[at].1))).collect();
        let (result, taken) = drive(
            &event(Some("ERROR")),
            Ok(listing(&["logs/a", "logs/b", "logs/c"])),
            &fetches,
        );
        assert_eq!(result, Ok(AggregateResult::FirstMatch(Some("logs/b".to_string()))));
        assert_eq!(taken, 3);
    }
}

#[test]
fn no_matching_object_reports_none_found() {
    let (result, taken) = drive(
        &event(Some("PANIC")),
        Ok(listing(&["logs/a", "logs/b", "logs/c"])),
        &[
            ("logs/a", Ok(&b"all fine"[..])),
            ("logs/b", Ok(&b"ERROR: disk full"[..])),
            ("logs/c", Ok(&b"all fine too"[..])),
        ],
    );
    assert_eq!(result, Ok(AggregateResult::FirstMatch(None)));
    assert_eq!(taken, 3);
    assert_eq!(result.unwrap().render(), "none found");
}

#[test]
fn empty_listing_counts_zero() {
    let (result, taken) = drive(&event(None), Ok(Vec::new()), &[]);
    assert_eq!(result, Ok(AggregateResult::Count(0)));
    assert_eq!(taken, 0);
    assert_eq!(result.unwrap().render(), "0");
}

#[test]
fn empty_listing_with_pattern_finds_nothing() {
    let (result, taken) = drive(&event(Some("ERROR")), Ok(Vec::new()), &[]);
    assert_eq!(result, Ok(AggregateResult::FirstMatch(None)));
    assert_eq!(taken, 0);
}

#[test]
fn empty_listing_launches_nothing() {
    assert!(matches!(
        begin(&event(None), Ok(Vec::new())),
        Step::Finish(AggregateResult::Count(0))
    ));
    assert!(matches!(
        begin(&event(Some("ERROR")), Ok(vec![None, None])),
        Step::Finish(AggregateResult::FirstMatch(None))
    ));
}

#[test]
fn failed_fetch_fails_the_request() {
    let (result, taken) = drive(
        &event(None),
        Ok(listing(&["logs/a", "logs/b", "logs/c"])),
        &[
            ("logs/a", Ok(&b"first"[..])),
            ("logs/b", Err(PipelineError::Store)),
            ("logs/c", Ok(&b"third"[..])),
        ],
    );
    assert_eq!(result, Err(PipelineError::Store));
    assert_eq!(taken, 2);
}

#[test]
fn failed_fetch_fails_the_request_after_a_match() {
    let (result, _) = drive(
        &event(Some("ERROR")),
        Ok(listing(&["logs/a", "logs/b", "logs/c"])),
        &[
            ("logs/a", Ok(&b"ERROR here"[..])),
            ("logs/c", Ok(&b"third"[..])),
            ("logs/b", Err(PipelineError::Store)),
        ],
    );
    assert_eq!(result, Err(PipelineError::Store));
}

#[test]
fn failed_last_fetch_gives_no_count() {
    let (result, taken) = drive(
        &event(None),
        Ok(listing(&["logs/a", "logs/b"])),
        &[("logs/a", Ok(&b"first"[..])), ("logs/b", Err(PipelineError::Store))],
    );
    assert_eq!(result, Err(PipelineError::Store));
    assert_eq!(taken, 2);
}

#[test]
fn undecodable_body_fails_the_request() {
    let (result, taken) = drive(
        &event(Some("ERROR")),
        Ok(listing(&["logs/a", "logs/b"])),
        &[("logs/b", Err(PipelineError::Decode)), ("logs/a", Ok(&b"first"[..]))],
    );
    assert_eq!(result, Err(PipelineError::Decode));
    assert_eq!(taken, 1);
}

#[test]
fn first_failure_is_the_one_reported() {
    let (result, taken) = drive(
        &event(None),
        Ok(listing(&["logs/a", "logs/b", "logs/c"])),
        &[
            ("logs/a", Err(PipelineError::Decode)),
            ("logs/b", Err(PipelineError::Store)),
            ("logs/c", Ok(&b"third"[..])),
        ],
    );
    assert_eq!(result, Err(PipelineError::Decode));
    assert_eq!(taken, 1);
}

#[test]
fn failed_listing_fails_the_request() {
    assert!(matches!(
        begin(&event(None), Err(PipelineError::Store)),
        Step::Abort(PipelineError::Store)
    ));
    let (result, taken) = drive(&event(Some("ERROR")), Err(PipelineError::Store), &[]);
    assert_eq!(result, Err(PipelineError::Store));
    assert_eq!(taken, 0);
}

#[test]
fn early_match_does_not_end_the_scan() {
    let launched = match begin(&event(Some("ERROR")), Ok(listing(&["logs/a", "logs/b", "logs/c"]))) {
        Step::Launch(drain, identifiers) => {
            assert_eq!(identifiers, vec!["logs/a", "logs/b", "logs/c"]);
            drain
        }
        _ => panic!("three fetches are to be launched"),
    };
    let after_first = match launched.observe(Ok(scan("logs/c", b"ERROR at once", Some(b"ERROR")))) {
        Step::Await(drain) => drain,
        _ => panic!("two fetches are still in flight"),
    };
    let after_second = match after_first.observe(Ok(scan("logs/a", b"nothing", Some(b"ERROR")))) {
        Step::Await(drain) => drain,
        _ => panic!("one fetch is still in flight"),
    };
    match after_second.observe(Ok(scan("logs/b", b"nothing", Some(b"ERROR")))) {
        Step::Finish(result) => {
            assert_eq!(result, AggregateResult::FirstMatch(Some("logs/c".to_string())))
        }
        _ => panic!("the last fetch has completed"),
    }
}

#[test]
fn first_match_in_completion_order_wins() {
    let keys = ["logs/a", "logs/b", "logs/c"];
    let (result, taken) = drive(
        &event(Some("ERROR")),
        Ok(listing(&keys)),
        &[
            ("logs/c", Ok(&b"ERROR three"[..])),
            ("logs/a", Ok(&b"ERROR one"[..])),
            ("logs/b", Ok(&b"quiet"[..])),
        ],
    );
    assert_eq!(result, Ok(AggregateResult::FirstMatch(Some("logs/c".to_string()))));
    assert_eq!(taken, 3);
    let (result, _) = drive(
        &event(Some("ERROR")),
        Ok(listing(&keys)),
        &[
            ("logs/b", Ok(&b"quiet"[..])),
            ("logs/a", Ok(&b"ERROR one"[..])),
            ("logs/c", Ok(&b"ERROR three"[..])),
        ],
    );
    assert_eq!(result, Ok(AggregateResult::FirstMatch(Some("logs/a".to_string()))));
}

#[test]
fn match_in_the_last_completion_is_reported() {
    let (result, taken) = drive(
        &event(Some("ERROR")),
        Ok(listing(&["logs/a", "logs/b"])),
        &[("logs/a", Ok(&b"quiet"[..])), ("logs/b", Ok(&b"ERROR"[..]))],
    );
    assert_eq!(result, Ok(AggregateResult::FirstMatch(Some("logs/b".to_string()))));
    assert_eq!(taken, 2);
}

#[test]
fn single_object_is_counted() {
    let (result, taken) =
        drive(&event(None), Ok(listing(&["logs/only"])), &[("logs/only", Ok(&b""[..]))]);
    assert_eq!(result, Ok(AggregateResult::Count(1)));
    assert_eq!(taken, 1);
}

#[test]
fn full_listing_of_a_thousand_objects_is_counted() {
    let keys: Vec<String> = (0..1000).map(|n| format!("logs/{n}")).collect();
    let listed: Vec<Option<String>> = keys.iter().cloned().map(Some).collect();
    let fetches: Vec<(&str, Result<&[u8], PipelineError>)> =
        keys.iter().map(|key| (key.as_str(), Ok(&b"body"[..]))).collect();
    let (result, taken) = drive(&event(None), Ok(listed), &fetches);
    assert_eq!(result, Ok(AggregateResult::Count(1000)));
    assert_eq!(taken, 1000);
    assert_eq!(result.unwrap().render(), "1000");
}

#[test]
fn every_listing_size_is_counted_exactly() {
    for size in [0usize, 1, 2, 7, 64, 999] {
        let keys: Vec<String> = (0..size).map(|n| format!("logs/{n}")).collect();
        let listed: Vec<Option<String>> = keys.iter().cloned().map(Some).collect();
        let fetches: Vec<(&str, Result<&[u8], PipelineError>)> =
            keys.iter().map(|key| (key.as_str(), Ok(&b"body"[..]))).collect();
        let (result, taken) = drive(&event(None), Ok(listed), &fetches);
        assert_eq!(result, Ok(AggregateResult::Count(size)));
        assert_eq!(taken, size);
    }
}

#[test]
fn matches_are_not_tracked_without_a_pattern() {
    let drain = match begin(&event(None), Ok(listing(&["logs/a"]))) {
        Step::Launch(drain, _) => drain,
        _ => panic!("one fetch is to be launched"),
    };
    let outcome = FetchOutcome { identifier: "logs/a".to_string(), matched: true };
    assert!(matches!(drain.observe(Ok(outcome)), Step::Finish(AggregateResult::Count(1))));
}

#[test]
fn entries_without_identifier_are_passed_over() {
    let listed = vec![
        Some("logs/a".to_string()),
        None,
        Some("logs/b".to_string()),
        None,
    ];
    assert_eq!(identifiers(&listed), vec!["logs/a", "logs/b"]);
    assert_eq!(identifiers(&vec![None, None]), Vec::<String>::new());
    assert_eq!(identifiers(&Vec::new()), Vec::<String>::new());
    let (result, taken) = drive(
        &event(None),
        Ok(listed),
        &[("logs/b", Ok(&b"second"[..])), ("logs/a", Ok(&b"first"[..]))],
    );
    assert_eq!(result, Ok(AggregateResult::Count(2)));
    assert_eq!(taken, 2);
}

#[test]
fn identifiers_keep_the_order_of_the_listing() {
    assert_eq!(
        identifiers(&listing(&["logs/c", "logs/a", "logs/b"])),
        vec!["logs/c", "logs/a", "logs/b"]
    );
}

#[test]
fn pattern_across_a_character_boundary_is_found_by_the_scan() {
    let body = "caf\u{e9} cr\u{e8}me".as_bytes();
    let needle = String::from_utf8(vec![0x20, 0x63, 0x72]).unwrap();
    let (result, _) = drive(
        &event(Some(&needle)),
        Ok(listing(&["menu/a", "menu/b"])),
        &[("menu/a", Ok(&b"tea"[..])), ("menu/b", Ok(body))],
    );
    assert_eq!(result, Ok(AggregateResult::FirstMatch(Some("menu/b".to_string()))));
}
