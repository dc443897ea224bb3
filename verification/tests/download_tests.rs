use mas_installer::download::{
    DEF_CHUNK_SIZE, DownloadPlan, DownloadPoll, Progress, content_size_from_header,
};
use mas_installer::errors::DownloadError;

#[test]
fn chunk_cap_is_eight_mebibytes_plus_one() {
    assert_eq!(DEF_CHUNK_SIZE, 8388609);
}

#[test]
fn seventeen_mebibytes_take_exactly_three_ranged_requests() {
    let size: u64 = 17 * 1024 * 1024;
    let mut plan = DownloadPlan::new(size);

    assert_eq!(plan.poll(false), DownloadPoll::Fetch(0, 8388609));
    let p1 = plan.on_response(206, 8388609).unwrap();
    assert_eq!(p1, Progress { num: 8388609, den: size });

    assert_eq!(plan.poll(false), DownloadPoll::Fetch(8388609, 16777218));
    let p2 = plan.on_response(206, 8388609).unwrap();
    assert_eq!(p2, Progress { num: 16777218, den: size });

    assert_eq!(plan.poll(false), DownloadPoll::Fetch(16777218, 17825792));
    let p3 = plan.on_response(206, 1048574).unwrap();
    assert_eq!(p3, Progress { num: size, den: size });

    assert!(plan.is_done());
    assert_eq!(plan.poll(false), DownloadPoll::Stop);
}

#[test]
fn progress_is_monotone_and_ends_at_one() {
    let size: u64 = 100;
    let mut plan = DownloadPlan::new(size);
    let mut last: u64 = 0;
    let chunks = [40u64, 30, 20, 10];
    for c in chunks {
        assert!(matches!(plan.poll(false), DownloadPoll::Fetch(_, _)));
        let p = plan.on_response(200, c).unwrap();
        assert_eq!(p.den, size);
        assert!(p.num >= last);
        assert!(p.num > 0);
        last = p.num;
    }
    assert_eq!(last, size);
    assert!(plan.is_done());
}

#[test]
fn short_chunk_advances_window_by_received_count() {
    let size: u64 = 20_000_000;
    let mut plan = DownloadPlan::new(size);
    assert_eq!(plan.poll(false), DownloadPoll::Fetch(0, 8388609));
    // The server returns fewer bytes than asked for: the window advances
    // by what arrived, so no byte is skipped.
    plan.on_response(206, 1000).unwrap();
    assert_eq!(plan.poll(false), DownloadPoll::Fetch(1000, 8389609));
}

#[test]
fn over_delivery_keeps_progress_bounded_to_one() {
    let size: u64 = 10;
    let mut plan = DownloadPlan::new(size);
    let p = plan.on_response(200, 25).unwrap();
    assert_eq!(p, Progress { num: 10, den: 10 });
    assert!(plan.is_done());
}

#[test]
fn non_success_status_fails_with_that_code() {
    let mut plan = DownloadPlan::new(1000);
    match plan.on_response(404, 0) {
        Err(DownloadError::InvalidStatusCode(code)) => assert_eq!(code, 404),
        other => panic!("expected an invalid-status-code error, got {:?}", other),
    }
    match plan.on_response(301, 0) {
        Err(DownloadError::InvalidStatusCode(code)) => assert_eq!(code, 301),
        other => panic!("expected an invalid-status-code error, got {:?}", other),
    }
}

#[test]
fn cancellation_before_first_chunk_stops_with_zero_requests() {
    let plan = DownloadPlan::new(17 * 1024 * 1024);
    assert_eq!(plan.poll(true), DownloadPoll::Stop);
    assert!(!plan.is_done());
}

#[test]
fn zero_sized_download_requests_nothing() {
    let plan = DownloadPlan::new(0);
    assert!(plan.is_done());
    assert_eq!(plan.poll(false), DownloadPoll::Stop);
}

#[test]
fn small_download_uses_one_request() {
    let mut plan = DownloadPlan::new(5);
    assert_eq!(plan.poll(false), DownloadPoll::Fetch(0, 5));
    let p = plan.on_response(200, 5).unwrap();
    assert_eq!(p, Progress { num: 5, den: 5 });
    assert_eq!(plan.poll(false), DownloadPoll::Stop);
}

#[test]
fn content_size_parses_decimal_header_values() {
    assert_eq!(content_size_from_header(Some("123")).unwrap(), 123);
    assert_eq!(content_size_from_header(Some("0")).unwrap(), 0);
    assert_eq!(content_size_from_header(Some("+41")).unwrap(), 41);
    assert_eq!(
        content_size_from_header(Some("18446744073709551615")).unwrap(),
        u64::MAX
    );
}

#[test]
fn content_size_rejects_missing_or_malformed_headers() {
    assert!(matches!(
        content_size_from_header(None),
        Err(DownloadError::InvalidContentLen)
    ));
    assert!(matches!(
        content_size_from_header(Some("")),
        Err(DownloadError::InvalidContentLen)
    ));
    assert!(matches!(
        content_size_from_header(Some("12a")),
        Err(DownloadError::InvalidContentLen)
    ));
    assert!(matches!(
        content_size_from_header(Some("-5")),
        Err(DownloadError::InvalidContentLen)
    ));
    assert!(matches!(
        content_size_from_header(Some("+")),
        Err(DownloadError::InvalidContentLen)
    ));
    assert!(matches!(
        content_size_from_header(Some("18446744073709551616")),
        Err(DownloadError::InvalidContentLen)
    ));
    assert!(matches!(
        content_size_from_header(Some(" 12")),
        Err(DownloadError::InvalidContentLen)
    ));
}
