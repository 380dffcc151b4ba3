use twapi::upload::{
    count_chunks, UploadAction, UploadEvent, UploadRequest, UploadSession, UploadState, CHUNK_SIZE,
    MEDIA_PART, MEDIA_UPLOAD_URI,
};
use twapi::{ProcessingInfo, ResponseJson, TwapiError, TwapiResponse, UploadStage};

fn plain(status_code: u16, body: &str) -> UploadEvent {
    UploadEvent::Response(TwapiResponse::new(status_code, String::from(body), None))
}

fn with_json(
    status_code: u16,
    media_id: Option<&str>,
    processing_info: Option<ProcessingInfo>,
) -> UploadEvent {
    UploadEvent::Response(TwapiResponse::new(
        status_code,
        String::from("{}"),
        Some(ResponseJson { media_id_string: media_id.map(String::from), processing_info }),
    ))
}

fn status(state: &str, check_after_secs: Option<u64>) -> UploadEvent {
    with_json(
        200,
        Some("710511363345354753"),
        Some(ProcessingInfo { state: Some(String::from(state)), check_after_secs }),
    )
}

fn begin(total_bytes: u64, poll_limit: Option<u64>) -> UploadSession {
    let (session, request) =
        UploadSession::start(total_bytes, "video/mp4", "tweet_video", None, poll_limit);
    assert!(matches!(request, UploadRequest::Init { .. }));
    session
}

/// The requests of an upload that the service accepts throughout: the
/// segments that were asked for, as index, offset and length.
fn accepted_segments(total_bytes: u64) -> Vec<(u64, u64, u64)> {
    let mut session = begin(total_bytes, None);
    let mut segments = Vec::new();
    let mut event = with_json(202, Some("601413451156586496"), None);
    loop {
        let (next, action) = session.step(event);
        session = next;
        match action {
            UploadAction::Send(UploadRequest::Append { media_id, segment_index, offset, length }) => {
                assert_eq!(media_id, "601413451156586496");
                segments.push((segment_index, offset, length));
                event = plain(204, "");
            }
            UploadAction::Send(UploadRequest::Finalize { media_id }) => {
                assert_eq!(media_id, "601413451156586496");
                assert!(matches!(session.state, UploadState::Finalizing { .. }));
                return segments;
            }
            other => panic!("unexpected {:?}", other),
        }
    }
}

#[test]
fn chunks_are_counted_by_rounding_up() {
    assert_eq!(CHUNK_SIZE, 5_000_000);
    assert_eq!(count_chunks(0), 0);
    assert_eq!(count_chunks(1), 1);
    assert_eq!(count_chunks(4_999_999), 1);
    assert_eq!(count_chunks(5_000_000), 1);
    assert_eq!(count_chunks(5_000_001), 2);
    assert_eq!(count_chunks(10_000_000), 2);
    assert_eq!(count_chunks(12_345_678), 3);
    assert_eq!(count_chunks(u64::MAX), 3_689_348_814_742);
}

#[test]
fn one_append_for_each_chunk() {
    for total in [0u64, 1, 4_999_999, 5_000_000, 5_000_001, 10_000_000, 12_345_678, 50_000_000] {
        let segments = accepted_segments(total);
        assert_eq!(segments.len() as u64, (total + CHUNK_SIZE - 1) / CHUNK_SIZE);
        assert_eq!(segments.len() as u64, count_chunks(total));
        let mut expected_offset = 0;
        for (position, (index, offset, length)) in segments.iter().enumerate() {
            assert_eq!(*index, position as u64);
            assert_eq!(*offset, expected_offset);
            assert!(*length >= 1 && *length <= CHUNK_SIZE);
            expected_offset += length;
        }
        assert_eq!(expected_offset, total);
    }
}

#[test]
fn the_last_chunk_holds_the_rest() {
    assert_eq!(
        accepted_segments(12_345_678),
        vec![(0, 0, 5_000_000), (1, 5_000_000, 5_000_000), (2, 10_000_000, 2_345_678)]
    );
    assert_eq!(accepted_segments(1), vec![(0, 0, 1)]);
    assert_eq!(accepted_segments(5_000_001), vec![(0, 0, 5_000_000), (1, 5_000_000, 1)]);
}

#[test]
fn a_multiple_of_the_chunk_size_has_no_empty_chunk() {
    assert_eq!(accepted_segments(5_000_000), vec![(0, 0, 5_000_000)]);
    assert_eq!(
        accepted_segments(15_000_000),
        vec![(0, 0, 5_000_000), (1, 5_000_000, 5_000_000), (2, 10_000_000, 5_000_000)]
    );
}

#[test]
fn an_empty_file_is_finalized_at_once() {
    assert_eq!(accepted_segments(0), vec![]);
}

#[test]
fn the_last_segment_of_the_largest_file() {
    let last = count_chunks(u64::MAX) - 1;
    let session = UploadSession {
        total_bytes: u64::MAX,
        polls_left: None,
        state: UploadState::Appending { media_id: String::from("1"), segment_index: last - 1 },
    };
    let (session, action) = session.step(plain(204, ""));
    match action {
        UploadAction::Send(UploadRequest::Append { segment_index, offset, length, .. }) => {
            assert_eq!(segment_index, last);
            assert_eq!(offset, last * CHUNK_SIZE);
            assert_eq!(length, u64::MAX - last * CHUNK_SIZE);
        }
        other => panic!("unexpected {:?}", other),
    }
    let (_, action) = session.step(plain(204, ""));
    assert!(matches!(action, UploadAction::Send(UploadRequest::Finalize { .. })));
}

#[test]
fn start_announces_the_file() {
    let (session, request) = UploadSession::start(
        12_345_678,
        "video/mp4",
        "tweet_video",
        Some(String::from("1,2")),
        Some(10),
    );
    assert_eq!(session.total_bytes, 12_345_678);
    assert_eq!(session.polls_left, Some(10));
    assert!(matches!(session.state, UploadState::Init));
    match &request {
        UploadRequest::Init { total_bytes, media_type, media_category, additional_owners } => {
            assert_eq!(*total_bytes, 12_345_678);
            assert_eq!(media_type, "video/mp4");
            assert_eq!(media_category, "tweet_video");
            assert_eq!(additional_owners.as_deref(), Some("1,2"));
        }
        other => panic!("unexpected {:?}", other),
    }
    let fields = request.fields();
    let expected: Vec<(String, String)> = [
        ("command", "INIT"),
        ("total_bytes", "12345678"),
        ("media_type", "video/mp4"),
        ("media_category", "tweet_video"),
        ("additional_owners", "1,2"),
    ]
    .iter()
    .map(|(name, value)| (name.to_string(), value.to_string()))
    .collect();
    assert_eq!(fields, expected);
}

#[test]
fn fields_of_the_other_requests() {
    let owned = |pairs: &[(&str, &str)]| -> Vec<(String, String)> {
        pairs.iter().map(|(name, value)| (name.to_string(), value.to_string())).collect()
    };
    let (_, init) = UploadSession::start(7, "image/png", "tweet_image", None, None);
    assert_eq!(
        init.fields(),
        owned(&[
            ("command", "INIT"),
            ("total_bytes", "7"),
            ("media_type", "image/png"),
            ("media_category", "tweet_image"),
        ])
    );
    let append = UploadRequest::Append {
        media_id: String::from("123"),
        segment_index: 12,
        offset: 60_000_000,
        length: 5,
    };
    assert_eq!(
        append.fields(),
        owned(&[("command", "APPEND"), ("media_id", "123"), ("segment_index", "12")])
    );
    let finalize = UploadRequest::Finalize { media_id: String::from("123") };
    assert_eq!(finalize.fields(), owned(&[("command", "FINALIZE"), ("media_id", "123")]));
    let status = UploadRequest::Status { media_id: String::from("123") };
    assert_eq!(status.fields(), owned(&[("command", "STATUS"), ("media_id", "123")]));
}

#[test]
fn init_rejected_ends_the_upload() {
    let session = begin(10, None);
    let (session, action) = session.step(plain(400, "{\"error\":\"bad\"}"));
    assert!(matches!(session.state, UploadState::Failed));
    match action {
        UploadAction::Finish(Err(TwapiError::UploadStage(stage, status, body))) => {
            assert_eq!(stage, UploadStage::Init);
            assert_eq!(status, 400);
            assert_eq!(body, "{\"error\":\"bad\"}");
        }
        other => panic!("unexpected {:?}", other),
    }
}

#[test]
fn init_without_a_media_id_is_malformed() {
    let (session, action) = begin(10, None).step(plain(200, "not json"));
    assert!(matches!(session.state, UploadState::Failed));
    assert!(matches!(action, UploadAction::Finish(Err(TwapiError::NotExists))));
    let (session, action) = begin(10, None).step(with_json(200, None, None));
    assert!(matches!(session.state, UploadState::Failed));
    assert!(matches!(action, UploadAction::Finish(Err(TwapiError::NotExists))));
}

#[test]
fn a_rejected_segment_is_followed_by_no_request() {
    for failing in 0..3u64 {
        let mut session = begin(12_345_678, None);
        let mut requests = Vec::new();
        let mut event = with_json(200, Some("9"), None);
        let outcome = loop {
            let (next, action) = session.step(event);
            session = next;
            match action {
                UploadAction::Send(UploadRequest::Append { segment_index, .. }) => {
                    requests.push(segment_index);
                    event = if segment_index == failing {
                        plain(503, "over capacity")
                    } else {
                        plain(204, "")
                    };
                }
                UploadAction::Finish(result) => break result,
                other => panic!("unexpected {:?}", other),
            }
        };
        let expected: Vec<u64> = (0..=failing).collect();
        assert_eq!(requests, expected);
        match outcome {
            Err(TwapiError::UploadStage(stage, status, body)) => {
                assert_eq!(stage, UploadStage::Append);
                assert_eq!(status, 503);
                assert_eq!(body, "over capacity");
            }
            other => panic!("unexpected {:?}", other),
        }
        assert!(matches!(session.state, UploadState::Failed));
        for later in [plain(204, ""), plain(200, ""), with_json(200, Some("9"), None)] {
            let (next, action) = session.step(later);
            session = next;
            assert!(matches!(action, UploadAction::Idle));
            assert!(matches!(session.state, UploadState::Failed));
        }
    }
}

#[test]
fn statuses_next_to_success_are_rejections() {
    for code in [199u16, 300, 301, 404, 500, 0, u16::MAX] {
        let (session, action) = begin(10, None).step(with_json(code, Some("9"), None));
        assert!(matches!(session.state, UploadState::Failed));
        assert!(matches!(action, UploadAction::Finish(Err(TwapiError::UploadStage(..)))));
    }
    for code in [200u16, 201, 204, 299] {
        let (session, action) = begin(10, None).step(with_json(code, Some("9"), None));
        assert!(matches!(session.state, UploadState::Appending { .. }));
        assert!(matches!(action, UploadAction::Send(UploadRequest::Append { .. })));
    }
}

fn finalizing(poll_limit: Option<u64>) -> UploadSession {
    UploadSession {
        total_bytes: 10,
        polls_left: poll_limit,
        state: UploadState::Finalizing { media_id: String::from("710511363345354753") },
    }
}

#[test]
fn finalize_without_processing_succeeds() {
    let (session, action) = finalizing(None).step(with_json(201, Some("710511363345354753"), None));
    assert!(matches!(session.state, UploadState::Succeeded));
    match action {
        UploadAction::Finish(Ok(response)) => {
            assert_eq!(response.status_code, 201);
            assert_eq!(
                response.json.unwrap().media_id_string.as_deref(),
                Some("710511363345354753")
            );
        }
        other => panic!("unexpected {:?}", other),
    }
}

#[test]
fn finalize_rejected_ends_the_upload() {
    let (session, action) = finalizing(None).step(plain(400, "Segments do not add up"));
    assert!(matches!(session.state, UploadState::Failed));
    match action {
        UploadAction::Finish(Err(TwapiError::UploadStage(stage, status, body))) => {
            assert_eq!(stage, UploadStage::Finalize);
            assert_eq!(status, 400);
            assert_eq!(body, "Segments do not add up");
        }
        other => panic!("unexpected {:?}", other),
    }
}

#[test]
fn finalize_without_json_is_malformed() {
    let (session, action) = finalizing(None).step(plain(200, ""));
    assert!(matches!(session.state, UploadState::Failed));
    assert!(matches!(action, UploadAction::Finish(Err(TwapiError::NotExists))));
}

#[test]
fn finalize_with_processing_asks_for_the_status_at_once() {
    let (session, action) = finalizing(None).step(status("pending", Some(5)));
    assert!(matches!(session.state, UploadState::Processing { .. }));
    match action {
        UploadAction::Send(UploadRequest::Status { media_id }) => {
            assert_eq!(media_id, "710511363345354753");
        }
        other => panic!("unexpected {:?}", other),
    }
}

/// Polls through `reports` after a FINALIZE that announced processing;
/// gives the seconds waited before each later STATUS request and how the
/// upload ended.
fn poll_through(
    poll_limit: Option<u64>,
    reports: Vec<UploadEvent>,
) -> (Vec<u64>, usize, Result<TwapiResponse, TwapiError>, UploadSession) {
    let (mut session, action) = finalizing(poll_limit).step(status("pending", Some(1)));
    let mut waits = Vec::new();
    let mut answered = 0;
    let mut action = action;
    let mut reports = reports.into_iter();
    loop {
        match action {
            UploadAction::Send(UploadRequest::Status { .. }) => {}
            UploadAction::SendAfter(secs, UploadRequest::Status { .. }) => waits.push(secs),
            UploadAction::Finish(result) => return (waits, answered, result, session),
            other => panic!("unexpected {:?}", other),
        }
        let (next, following) = session.step(reports.next().unwrap());
        answered += 1;
        session = next;
        action = following;
    }
}

#[test]
fn polling_goes_on_until_the_service_reports_success() {
    for rounds in [0usize, 1, 2, 7] {
        let mut reports: Vec<UploadEvent> =
            (0..rounds).map(|i| status("in_progress", Some(10 + i as u64))).collect();
        reports.push(status("succeeded", None));
        reports.push(status("in_progress", Some(99)));
        let (waits, answered, result, session) = poll_through(None, reports);
        let expected: Vec<u64> = (0..rounds).map(|i| 10 + i as u64).collect();
        assert_eq!(waits, expected);
        assert_eq!(answered, rounds + 1);
        assert!(matches!(session.state, UploadState::Succeeded));
        let response = result.unwrap();
        assert_eq!(
            response.json.unwrap().processing_info.unwrap().state.as_deref(),
            Some("succeeded")
        );
    }
}

#[test]
fn polling_ends_when_the_service_reports_failure() {
    let reports = vec![status("pending", Some(3)), status("failed", None)];
    let (waits, answered, result, session) = poll_through(None, reports);
    assert_eq!(waits, vec![3]);
    assert_eq!(answered, 2);
    assert!(matches!(session.state, UploadState::Failed));
    let response = result.unwrap();
    assert_eq!(response.json.unwrap().processing_info.unwrap().state.as_deref(), Some("failed"));
}

#[test]
fn other_states_do_not_end_the_polling() {
    for state in ["pending", "in_progress", "", "SUCCEEDED", "succeeded ", "done"] {
        let reports = vec![status(state, Some(2)), status("succeeded", None)];
        let (waits, answered, _, _) = poll_through(None, reports);
        assert_eq!(waits, vec![2]);
        assert_eq!(answered, 2);
    }
}

#[test]
fn the_wait_is_what_the_response_names() {
    let reports = vec![
        status("in_progress", Some(0)),
        status("in_progress", Some(1)),
        status("in_progress", Some(u64::MAX)),
        status("succeeded", Some(5)),
    ];
    let (waits, _, _, _) = poll_through(None, reports);
    assert_eq!(waits, vec![0, 1, u64::MAX]);
}

#[test]
fn a_rejected_status_request_ends_the_upload() {
    let reports = vec![status("in_progress", Some(1)), plain(404, "Invalid mediaId.")];
    let (waits, answered, result, session) = poll_through(None, reports);
    assert_eq!(waits, vec![1]);
    assert_eq!(answered, 2);
    assert!(matches!(session.state, UploadState::Failed));
    match result {
        Err(TwapiError::UploadStage(stage, status, body)) => {
            assert_eq!(stage, UploadStage::Status);
            assert_eq!(status, 404);
            assert_eq!(body, "Invalid mediaId.");
        }
        other => panic!("unexpected {:?}", other),
    }
}

#[test]
fn a_status_without_its_fields_is_malformed() {
    let malformed = vec![
        plain(200, "not json"),
        with_json(200, Some("1"), None),
        with_json(200, Some("1"), Some(ProcessingInfo { state: None, check_after_secs: Some(1) })),
        status("in_progress", None),
    ];
    for report in malformed {
        let (_, answered, result, session) = poll_through(None, vec![report]);
        assert_eq!(answered, 1);
        assert!(matches!(session.state, UploadState::Failed));
        assert!(matches!(result, Err(TwapiError::NotExists)));
    }
}

#[test]
fn the_limit_bounds_the_status_requests() {
    for limit in [1u64, 2, 5] {
        let reports: Vec<UploadEvent> = (0..10).map(|_| status("in_progress", Some(1))).collect();
        let (waits, answered, result, session) = poll_through(Some(limit), reports);
        assert_eq!(answered as u64, limit);
        assert_eq!(waits.len() as u64, limit - 1);
        assert!(matches!(session.state, UploadState::Failed));
        assert!(matches!(result, Err(TwapiError::Timeout)));
    }
}

#[test]
fn a_limit_of_zero_allows_no_status_request() {
    let (session, action) = finalizing(Some(0)).step(status("pending", Some(1)));
    assert!(matches!(session.state, UploadState::Failed));
    assert!(matches!(action, UploadAction::Finish(Err(TwapiError::Timeout))));
}

#[test]
fn success_within_the_limit() {
    let reports = vec![
        status("in_progress", Some(1)),
        status("in_progress", Some(1)),
        status("succeeded", None),
    ];
    let (_, answered, result, session) = poll_through(Some(3), reports);
    assert_eq!(answered, 3);
    assert_eq!(session.polls_left, Some(0));
    assert!(matches!(session.state, UploadState::Succeeded));
    assert!(result.is_ok());
}

#[test]
fn a_failed_read_ends_the_upload() {
    let session = UploadSession {
        total_bytes: 12_345_678,
        polls_left: None,
        state: UploadState::Appending { media_id: String::from("1"), segment_index: 1 },
    };
    let error = std::io::Error::new(std::io::ErrorKind::UnexpectedEof, "short read");
    let (session, action) = session.step(UploadEvent::ReadFailed(error));
    assert!(matches!(session.state, UploadState::Failed));
    match action {
        UploadAction::Finish(Err(TwapiError::IO(error))) => {
            assert_eq!(error.kind(), std::io::ErrorKind::UnexpectedEof);
        }
        other => panic!("unexpected {:?}", other),
    }
    let (_, action) = session.step(plain(204, ""));
    assert!(matches!(action, UploadAction::Idle));
}

#[test]
fn a_failed_connection_ends_the_upload() {
    let error = twapi_reqwest::reqwest::Client::new().get("not a uri").build().unwrap_err();
    let (session, action) = begin(10, None).step(UploadEvent::ConnectionFailed(error));
    assert!(matches!(session.state, UploadState::Failed));
    match action {
        UploadAction::Finish(Err(TwapiError::Connection(error))) => assert!(error.is_builder()),
        other => panic!("unexpected {:?}", other),
    }
}

#[test]
fn nothing_happens_after_success() {
    let (mut session, _) = finalizing(None).step(with_json(200, Some("1"), None));
    assert!(matches!(session.state, UploadState::Succeeded));
    let error = std::io::Error::new(std::io::ErrorKind::Other, "late");
    for later in [plain(500, ""), status("failed", None), UploadEvent::ReadFailed(error)] {
        let (next, action) = session.step(later);
        session = next;
        assert!(matches!(action, UploadAction::Idle));
        assert!(matches!(session.state, UploadState::Succeeded));
    }
}

#[test]
fn only_the_status_is_asked_by_a_query() {
    let (_, init) = UploadSession::start(7, "image/png", "tweet_image", None, None);
    assert!(!init.sent_as_query());
    assert_eq!(init.chunk(), None);
    let append = UploadRequest::Append {
        media_id: String::from("123"),
        segment_index: 2,
        offset: 10_000_000,
        length: 5,
    };
    assert!(!append.sent_as_query());
    assert_eq!(append.chunk(), Some((10_000_000, 5)));
    let finalize = UploadRequest::Finalize { media_id: String::from("123") };
    assert!(!finalize.sent_as_query());
    assert_eq!(finalize.chunk(), None);
    let status = UploadRequest::Status { media_id: String::from("123") };
    assert!(status.sent_as_query());
    assert_eq!(status.chunk(), None);
}

#[test]
fn where_the_upload_goes() {
    assert_eq!(MEDIA_UPLOAD_URI, "https://upload.twitter.com/1.1/media/upload.json");
    assert_eq!(MEDIA_PART, "media");
}

#[test]
fn sessions_made_by_the_library_are_well_formed() {
    let mut session = begin(12_345_678, None);
    assert!(session.is_well_formed());
    let mut event = with_json(200, Some("9"), None);
    for _ in 0..5 {
        let (next, _) = session.step(event);
        session = next;
        assert!(session.is_well_formed());
        event = plain(204, "");
    }
    let beyond = UploadSession {
        total_bytes: 12_345_678,
        polls_left: None,
        state: UploadState::Appending { media_id: String::from("9"), segment_index: 3 },
    };
    assert!(!beyond.is_well_formed());
}
