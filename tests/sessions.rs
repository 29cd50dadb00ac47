use media_relay::chunker::ChunkAccumulator;
use media_relay::session::{MultipartUploadContext, MultipartUploadOptions, S3Error, SessionState, DEFAULT_CHUNK_SIZE};

fn open() -> MultipartUploadContext {
    MultipartUploadContext::open("bucket", "dir/file.mp3", Ok(Some("upload-1".to_string()))).unwrap()
}

fn store_part(ctx: &mut MultipartUploadContext, body: &[u8], tag: &str) -> i32 {
    let n = ctx.begin_part().unwrap();
    ctx.record_part(body, Ok(Some(tag.to_string()))).unwrap();
    n
}

#[test]
fn open_keeps_the_session_identity() {
    let ctx = open();
    assert_eq!(ctx.bucket(), "bucket");
    assert_eq!(ctx.key(), "dir/file.mp3");
    assert_eq!(ctx.upload_id(), "upload-1");
    assert_eq!(ctx.total_size(), 0);
    assert_eq!(ctx.state(), SessionState::Open);
}

#[test]
fn open_fails_without_an_upload_id() {
    let r = MultipartUploadContext::open("b", "k", Ok(None));
    assert!(matches!(r, Err(S3Error::MultipartCreateError(_))));
    let r = MultipartUploadContext::open("b", "k", Err("denied".to_string()));
    match r {
        Err(S3Error::MultipartCreateError(m)) => assert_eq!(m, "denied"),
        _ => panic!("expected a create error"),
    }
}

#[test]
fn part_numbers_run_from_one_without_gaps() {
    let mut ctx = open();
    let numbers: Vec<i32> = (0..5).map(|i| store_part(&mut ctx, &[i as u8; 3], "t")).collect();
    assert_eq!(numbers, vec![1, 2, 3, 4, 5]);
    let parts = ctx.completion_parts(15).unwrap();
    let got: Vec<i32> = parts.iter().map(|p| p.part_number).collect();
    assert_eq!(got, vec![1, 2, 3, 4, 5]);
}

#[test]
fn failed_part_number_is_abandoned() {
    let mut ctx = open();
    assert_eq!(store_part(&mut ctx, b"abc", "t1"), 1);
    let n = ctx.begin_part().unwrap();
    assert_eq!(n, 2);
    match ctx.record_part(b"def", Err("timeout".to_string())) {
        Err(S3Error::PartUploadError { part_number, reason }) => {
            assert_eq!(part_number, 2);
            assert_eq!(reason, "timeout");
        }
        _ => panic!("expected a part error"),
    }
    assert_eq!(ctx.total_size(), 3);
    assert_eq!(store_part(&mut ctx, b"ghi", "t3"), 3);
    let parts = ctx.completion_parts(6).unwrap();
    assert_eq!(parts.iter().map(|p| p.part_number).collect::<Vec<_>>(), vec![1, 3]);
    assert_eq!(parts[1].e_tag, "t3");
}

#[test]
fn missing_tag_is_a_part_error() {
    let mut ctx = open();
    ctx.begin_part().unwrap();
    assert!(matches!(ctx.record_part(b"x", Ok(None)), Err(S3Error::PartUploadError { part_number: 1, .. })));
}

#[test]
fn second_part_cannot_start_while_one_is_in_flight() {
    let mut ctx = open();
    ctx.begin_part().unwrap();
    assert!(matches!(ctx.begin_part(), Err(S3Error::SessionClosed)));
}

#[test]
fn record_without_a_part_in_flight_fails() {
    let mut ctx = open();
    assert!(matches!(ctx.record_part(b"x", Ok(Some("t".to_string()))), Err(S3Error::SessionClosed)));
}

#[test]
fn complete_reports_the_sum_of_part_lengths() {
    let mut ctx = open();
    store_part(&mut ctx, &[0; 10], "a");
    store_part(&mut ctx, &[0; 10], "b");
    store_part(&mut ctx, &[0; 3], "c");
    let r = ctx.complete("track.mp3", 23, Ok(())).unwrap();
    assert_eq!(r.name, "track.mp3");
    assert_eq!(r.size, 23);
    assert_eq!(ctx.state(), SessionState::Completed);
    assert!(matches!(ctx.begin_part(), Err(S3Error::SessionClosed)));
}

#[test]
fn uploaded_size_matches_the_accumulated_source() {
    let mut acc = ChunkAccumulator::new(4);
    let mut ctx = open();
    let mut source = 0u64;
    for frag in [vec![1u8; 3], vec![2u8; 6], vec![3u8; 2]] {
        source += frag.len() as u64;
        for chunk in acc.push(&frag) {
            store_part(&mut ctx, &chunk, "t");
        }
    }
    if let Some(rest) = acc.finish() {
        store_part(&mut ctx, &rest, "t");
    }
    let r = ctx.complete("f", source, Ok(())).unwrap();
    assert_eq!(r.size, 11);
}

#[test]
fn complete_without_parts_of_a_non_empty_field_fails() {
    let mut ctx = open();
    assert!(matches!(ctx.completion_parts(5), Err(S3Error::NoPartsUploaded)));
    assert!(matches!(ctx.complete("f", 5, Ok(())), Err(S3Error::NoPartsUploaded)));
    assert_eq!(ctx.state(), SessionState::Open);
}

#[test]
fn complete_of_an_empty_field_succeeds() {
    let mut ctx = open();
    assert!(ctx.completion_parts(0).unwrap().is_empty());
    let r = ctx.complete("empty.txt", 0, Ok(())).unwrap();
    assert_eq!(r.size, 0);
}

#[test]
fn failed_completion_leaves_the_session_open() {
    let mut ctx = open();
    store_part(&mut ctx, b"abc", "t");
    match ctx.complete("f", 3, Err("boom".to_string())) {
        Err(S3Error::MultipartCompleteError(m)) => assert_eq!(m, "boom"),
        _ => panic!("expected a completion error"),
    }
    assert_eq!(ctx.state(), SessionState::Open);
    assert!(ctx.abort());
    assert_eq!(ctx.state(), SessionState::Aborted);
}

#[test]
fn abort_without_parts_succeeds_and_is_final() {
    let mut ctx = open();
    assert!(ctx.abort());
    assert_eq!(ctx.state(), SessionState::Aborted);
    assert!(matches!(ctx.begin_part(), Err(S3Error::SessionClosed)));
    assert!(matches!(ctx.completion_parts(0), Err(S3Error::SessionClosed)));
    assert!(matches!(ctx.complete("f", 0, Ok(())), Err(S3Error::SessionClosed)));
    assert!(!ctx.abort());
    assert_eq!(ctx.state(), SessionState::Aborted);
}

#[test]
fn abort_with_parts_is_final() {
    let mut ctx = open();
    store_part(&mut ctx, b"abc", "t");
    store_part(&mut ctx, b"def", "u");
    assert!(ctx.abort());
    assert!(matches!(ctx.begin_part(), Err(S3Error::SessionClosed)));
    assert!(matches!(ctx.record_part(b"x", Ok(Some("v".to_string()))), Err(S3Error::SessionClosed)));
    assert!(matches!(ctx.complete("f", 6, Ok(())), Err(S3Error::SessionClosed)));
}

#[test]
fn abort_after_completion_keeps_it_completed() {
    let mut ctx = open();
    store_part(&mut ctx, b"abc", "t");
    ctx.complete("f", 3, Ok(())).unwrap();
    assert!(!ctx.abort());
    assert_eq!(ctx.state(), SessionState::Completed);
}

#[test]
fn default_options_use_five_mebibyte_chunks() {
    let o = MultipartUploadOptions::default();
    assert_eq!(o.chunk_size, 5 * 1024 * 1024);
    assert_eq!(DEFAULT_CHUNK_SIZE, 5 * 1024 * 1024);
    assert!(o.content_type.is_none());
    assert!(o.content_disposition.is_none());
}

#[test]
fn service_codes_map_to_errors() {
    match S3Error::from_service_code(Some("NoSuchKey")) {
        S3Error::ObjectNotFound { bucket, key } => {
            assert_eq!(bucket, "unknown");
            assert_eq!(key, "unknown");
        }
        _ => panic!("expected not found"),
    }
    assert!(matches!(S3Error::from_service_code(Some("NoSuchBucket")), S3Error::ObjectNotFound { .. }));
    match S3Error::from_service_code(Some("AccessDenied")) {
        S3Error::AwsError(m) => assert_eq!(m, "AWS service error: AccessDenied"),
        _ => panic!("expected aws error"),
    }
    match S3Error::from_service_code(None) {
        S3Error::AwsError(m) => assert_eq!(m, "AWS service error: UnknownError"),
        _ => panic!("expected aws error"),
    }
    match S3Error::from_sdk_failure("dispatch failure") {
        S3Error::AwsError(m) => assert_eq!(m, "AWS SDK error: dispatch failure"),
        _ => panic!("expected aws error"),
    }
}

#[test]
fn upload_errors_become_the_upload_envelope() {
    let e = S3Error::PartUploadError { part_number: 7, reason: "x".to_string() }.to_envelope();
    assert_eq!(e.code(), 5022);
    assert_eq!(e.msg(), "Core file uploading error");
    assert!(matches!(e.detail("part_number"), Some(media_relay::envelope::DetailValue::Integer(7))));
    let e = S3Error::NoPartsUploaded.to_envelope();
    assert_eq!(e.code(), 5022);
    assert!(e.details().is_empty());
    assert_eq!(e.http_status(), 500);
}
