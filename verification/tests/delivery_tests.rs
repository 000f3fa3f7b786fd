use activitymemes::delivery::{
    check_recipient_scheme, classify_post_response, classify_profile_response, host_header_value,
    make_failed_delivery, prepare_delivery, retry_plan, retryable_recipients, should_attempt,
    DeliveryJob, RetryPlan, RetryQueue, MAX_DELIVERY_ATTEMPTS, RETRY_DELAY_MS,
};
use activitymemes::error::ApiError;

fn job(recipients: &Vec<Vec<u8>>) -> DeliveryJob {
    prepare_delivery(
        b"{}".to_vec(),
        recipients,
        b"https://example.org/users/alice".to_vec(),
        b"key-pem".to_vec(),
        b"SHA-256=digest".to_vec(),
    )
}

#[test]
fn the_sender_is_never_among_the_delivery_targets() {
    let recipients = vec![
        b"https://remote.net/users/bob".to_vec(),
        b"https://example.org/users/alice".to_vec(),
        b"https://remote.net/users/carol".to_vec(),
    ];
    let j = job(&recipients);
    assert_eq!(
        j.recipients,
        vec![
            b"https://remote.net/users/bob".to_vec(),
            b"https://remote.net/users/carol".to_vec(),
        ]
    );
}

#[test]
fn delivery_targets_are_deduplicated() {
    let recipients = vec![
        b"https://remote.net/users/bob".to_vec(),
        b"https://remote.net/users/bob".to_vec(),
    ];
    let j = job(&recipients);
    assert_eq!(j.recipients, vec![b"https://remote.net/users/bob".to_vec()]);
}

#[test]
fn only_network_failures_are_retried() {
    let outcomes: Vec<(Vec<u8>, Option<ApiError>)> = vec![
        (b"https://a.net".to_vec(), None),
        (
            b"https://b.net".to_vec(),
            Some(ApiError::FailedDeliveryDueToNetworkError),
        ),
        (b"https://c.net".to_vec(), Some(ApiError::OtherBadRequest)),
        (
            b"https://d.net".to_vec(),
            Some(ApiError::UnexpectedResponseFromFederatedServer),
        ),
        (
            b"https://e.net".to_vec(),
            Some(ApiError::FailedDeliveryDueToNetworkError),
        ),
    ];
    let retry = retryable_recipients(outcomes);
    assert_eq!(
        retry,
        vec![b"https://b.net".to_vec(), b"https://e.net".to_vec()]
    );
}

#[test]
fn no_record_is_made_when_nothing_failed_retryably() {
    let recipients = vec![b"https://remote.net/users/bob".to_vec()];
    let j = job(&recipients);
    assert!(make_failed_delivery(j, Vec::new(), 1, 77).is_none());
}

#[test]
fn a_record_carries_the_failing_recipients_and_the_attempt_number() {
    let recipients = vec![b"https://remote.net/users/bob".to_vec()];
    let j = job(&recipients);
    let failed = vec![b"https://remote.net/users/bob".to_vec()];
    let rec = make_failed_delivery(j, failed.clone(), 1, 77).unwrap();
    assert_eq!(rec.recipients, failed);
    assert_eq!(rec.tried, 1);
    assert_eq!(rec.last_time_tried, 77);
}

#[test]
fn three_consecutive_retryable_failures_end_in_a_drop() {
    // Attempt 1 fails: the record carries tried == 1.
    let recipients = vec![b"https://remote.net/users/bob".to_vec()];
    let failed = recipients.clone();
    let mut rec = make_failed_delivery(job(&recipients), failed.clone(), 1, 0).unwrap();

    // Attempts 2 and 3 run and fail retryably again.
    for expected_attempt in 2..=MAX_DELIVERY_ATTEMPTS {
        let plan = retry_plan(&rec, rec.last_time_tried + RETRY_DELAY_MS);
        match plan {
            RetryPlan::AttemptAfter { wait_ms, attempt_number } => {
                assert_eq!(wait_ms, 0);
                assert_eq!(attempt_number, expected_attempt);
                assert!(should_attempt(attempt_number));
                rec = make_failed_delivery(
                    job(&recipients),
                    failed.clone(),
                    attempt_number,
                    rec.last_time_tried + RETRY_DELAY_MS,
                )
                .unwrap();
            }
            RetryPlan::Drop => panic!("dropped before the cap"),
        }
    }

    // The record now carries tried == 3: it is dropped, never tried a
    // fourth time.
    assert_eq!(rec.tried, MAX_DELIVERY_ATTEMPTS);
    let plan = retry_plan(&rec, rec.last_time_tried + RETRY_DELAY_MS);
    assert_eq!(plan, RetryPlan::Drop);
    assert!(!should_attempt(MAX_DELIVERY_ATTEMPTS + 1));
}

#[test]
fn a_fresh_failure_waits_out_the_rest_of_the_hour() {
    let recipients = vec![b"https://remote.net/users/bob".to_vec()];
    let rec = make_failed_delivery(job(&recipients), recipients.clone(), 1, 1000).unwrap();
    match retry_plan(&rec, 1000 + RETRY_DELAY_MS / 2) {
        RetryPlan::AttemptAfter { wait_ms, attempt_number } => {
            assert_eq!(wait_ms, RETRY_DELAY_MS / 2);
            assert_eq!(attempt_number, 2);
        }
        RetryPlan::Drop => panic!("dropped below the cap"),
    }
}

#[test]
fn the_queue_wakes_the_loop_only_when_it_was_empty() {
    let recipients = vec![b"https://remote.net/users/bob".to_vec()];
    let rec = make_failed_delivery(job(&recipients), recipients.clone(), 1, 0).unwrap();
    let rec2 = make_failed_delivery(job(&recipients), recipients.clone(), 2, 5).unwrap();
    let mut q = RetryQueue::new();
    assert!(q.push(rec));
    assert!(!q.push(rec2));
    assert_eq!(q.len(), 2);
    let first = q.pop().unwrap();
    assert_eq!(first.tried, 1);
    let second = q.pop().unwrap();
    assert_eq!(second.tried, 2);
    assert!(q.pop().is_none());
}

#[test]
fn non_https_recipients_are_refused_outright() {
    assert_eq!(
        check_recipient_scheme(b"http://remote.net/users/bob"),
        Err(ApiError::OtherBadRequest)
    );
    assert!(check_recipient_scheme(b"https://remote.net/users/bob").is_ok());
}

#[test]
fn post_responses_are_classified_by_status() {
    assert_eq!(
        classify_post_response(None),
        Err(ApiError::FailedDeliveryDueToNetworkError)
    );
    assert!(classify_post_response(Some(200)).is_ok());
    assert!(classify_post_response(Some(299)).is_ok());
    assert_eq!(
        classify_post_response(Some(404)),
        Err(ApiError::UnexpectedResponseFromFederatedServer)
    );
}

#[test]
fn profile_responses_treat_405_as_non_federating() {
    assert_eq!(
        classify_profile_response(None),
        Err(ApiError::FailedDeliveryDueToNetworkError)
    );
    assert_eq!(
        classify_profile_response(Some(405)),
        Err(ApiError::OtherBadRequest)
    );
    assert!(classify_profile_response(Some(200)).is_ok());
}

#[test]
fn host_header_appends_the_port_when_given() {
    assert_eq!(
        host_header_value(Some(b"remote.net".to_vec()), None),
        Ok(b"remote.net".to_vec())
    );
    assert_eq!(
        host_header_value(Some(b"remote.net".to_vec()), Some(8443)),
        Ok(b"remote.net:8443".to_vec())
    );
    assert_eq!(
        host_header_value(None, Some(443)),
        Err(ApiError::UnexpectedResponseFromFederatedServer)
    );
}
