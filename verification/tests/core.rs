use junkdrawer::bookmarks::{AttemptOutcome, BookmarkError, FetchSession};
use junkdrawer::search::tags_to_array;
use junkdrawer::time::{from_epoch_seconds, timestamp};

#[test]
fn tags_are_normalized() {
    let tags = Some(b"  personal, work , , ideas  ".to_vec());
    assert_eq!(
        tags_to_array(&tags),
        vec![b"personal".to_vec(), b"work".to_vec(), b"ideas".to_vec()]
    );
    assert_eq!(tags_to_array(&None), Vec::<Vec<u8>>::new());
}

#[test]
fn timestamp_converts_naive_datetime() {
    let datetime = from_epoch_seconds(1_700_000_000).expect("valid timestamp");
    assert_eq!(timestamp(datetime), 1_700_000_000);
}

#[test]
fn tags_of_only_separators_and_spaces_are_empty() {
    let tags = Some(b"  ,  , ".to_vec());
    assert_eq!(tags_to_array(&tags), Vec::<Vec<u8>>::new());
}

#[test]
fn negative_epoch_round_trips() {
    let stamp = from_epoch_seconds(-1).expect("representable");
    assert_eq!(stamp.days, -1);
    assert_eq!(stamp.secs_of_day, 86399);
    assert_eq!(timestamp(stamp), -1);
}

#[test]
fn epoch_zero_is_day_zero() {
    let stamp = from_epoch_seconds(0).expect("representable");
    assert_eq!(stamp.days, 0);
    assert_eq!(stamp.secs_of_day, 0);
    assert_eq!(timestamp(stamp), 0);
}

#[test]
fn far_future_epoch_is_rejected() {
    assert!(from_epoch_seconds(i64::MAX).is_none());
    assert!(from_epoch_seconds(i64::MIN).is_none());
}

#[test]
fn malformed_url_fails_immediately_without_any_attempt() {
    let r = FetchSession::begin("not a url".to_string());
    assert!(matches!(r, Err(BookmarkError::InvalidUrl(u)) if u == "not a url"));
}

#[test]
fn well_formed_url_opens_a_session() {
    let r = FetchSession::begin("https://example.com/page".to_string());
    assert!(r.is_ok());
}

#[test]
fn two_transient_failures_then_success_waits_the_full_backoff() {
    let mut session = FetchSession::begin("https://example.com/".to_string()).unwrap();
    let mut waited: u64 = 0;

    waited += session.next_backoff();
    assert_eq!(waited, 0);
    assert!(session.record_attempt(AttemptOutcome::NetworkFailed).is_none());

    waited += session.next_backoff();
    assert_eq!(session.next_backoff(), 500);
    assert!(session.record_attempt(AttemptOutcome::TimedOut).is_none());

    waited += session.next_backoff();
    assert_eq!(session.next_backoff(), 1000);
    assert_eq!(waited, 1500);

    let html = b"<html><title>It works</title></html>".to_vec();
    let result = session.record_attempt(AttemptOutcome::Fetched(html));
    let metadata = result.expect("terminal").expect("title found");
    assert_eq!(metadata.title, b"It works".to_vec());
    assert_eq!(metadata.url, "https://example.com/");
    assert!(metadata.favicon_url.is_none());
}

#[test]
fn three_transient_failures_surface_the_last_error() {
    let mut session = FetchSession::begin("https://example.com/".to_string()).unwrap();
    assert!(session.record_attempt(AttemptOutcome::NetworkFailed).is_none());
    assert!(session.record_attempt(AttemptOutcome::NetworkFailed).is_none());
    let r = session.record_attempt(AttemptOutcome::TimedOut);
    assert!(matches!(r, Some(Err(BookmarkError::Timeout))));
}

#[test]
fn exhausting_retries_with_network_failures_reports_network() {
    let mut session = FetchSession::begin("https://example.com/".to_string()).unwrap();
    assert!(session.record_attempt(AttemptOutcome::TimedOut).is_none());
    assert!(session.record_attempt(AttemptOutcome::TimedOut).is_none());
    let r = session.record_attempt(AttemptOutcome::NetworkFailed);
    assert!(matches!(r, Some(Err(BookmarkError::Network))));
}

#[test]
fn page_without_title_is_terminal_on_the_first_attempt() {
    let mut session = FetchSession::begin("https://example.com/".to_string()).unwrap();
    let html = b"<html><body>nothing here</body></html>".to_vec();
    let r = session.record_attempt(AttemptOutcome::Fetched(html));
    assert!(matches!(r, Some(Err(BookmarkError::NoTitle))));
}
