use media_relay::pipeline::FieldUpload;
use media_relay::session::{MultipartUploadContext, S3Error, SessionState};

fn start(chunk_size: usize) -> FieldUpload {
    let ctx = MultipartUploadContext::open("b", "k", Ok(Some("id".to_string()))).unwrap();
    FieldUpload::new(chunk_size, ctx)
}

/// Stores every pending chunk, tagging each with its part number; returns what was sent.
fn drain(up: &mut FieldUpload) -> Vec<(i32, Vec<u8>)> {
    let mut sent = Vec::new();
    while let Some(n) = up.begin_next_part().unwrap() {
        let body = up.pending_chunk().unwrap().clone();
        up.part_stored(Ok(Some(format!("tag{n}")))).unwrap();
        sent.push((n, body));
    }
    sent
}

#[test]
fn field_bytes_become_ordered_parts() {
    let mut up = start(4);
    let mut sent = Vec::new();
    for frag in [vec![1u8, 2, 3], vec![4, 5, 6, 7, 8, 9], vec![10]] {
        up.feed(&frag).unwrap();
        sent.extend(drain(&mut up));
    }
    up.end_of_field();
    sent.extend(drain(&mut up));
    assert_eq!(
        sent,
        vec![(1, vec![1, 2, 3, 4]), (2, vec![5, 6, 7, 8]), (3, vec![9, 10])]
    );
    let parts = up.completion_parts().unwrap();
    assert_eq!(parts.iter().map(|p| p.e_tag.as_str()).collect::<Vec<_>>(), vec!["tag1", "tag2", "tag3"]);
    let r = up.complete("song.wav", Ok(())).unwrap();
    assert_eq!((r.name.as_str(), r.size), ("song.wav", 10));
    assert_eq!(up.session().state(), SessionState::Completed);
}

#[test]
fn empty_field_completes_with_no_parts() {
    let mut up = start(8);
    up.end_of_field();
    assert!(up.begin_next_part().unwrap().is_none());
    assert!(up.completion_parts().unwrap().is_empty());
    assert_eq!(up.complete("empty", Ok(())).unwrap().size, 0);
}

#[test]
fn next_fragment_waits_for_pending_chunks() {
    let mut up = start(2);
    up.feed(&[1, 2, 3]).unwrap();
    assert!(matches!(up.feed(&[4]), Err(S3Error::SessionClosed)));
    drain(&mut up);
    up.feed(&[4]).unwrap();
}

#[test]
fn completion_waits_for_the_whole_field() {
    let mut up = start(2);
    up.feed(&[1, 2, 3]).unwrap();
    drain(&mut up);
    assert!(up.completion_parts().is_err());
    assert!(matches!(up.complete("f", Ok(())), Err(S3Error::SessionClosed)));
    up.end_of_field();
    assert!(up.completion_parts().is_err());
    drain(&mut up);
    assert_eq!(up.complete("f", Ok(())).unwrap().size, 3);
}

#[test]
fn a_failed_part_is_never_retried() {
    let mut up = start(2);
    up.feed(&[1, 2]).unwrap();
    assert_eq!(up.begin_next_part().unwrap(), Some(1));
    assert!(matches!(up.part_stored(Err("lost".to_string())), Err(S3Error::PartUploadError { part_number: 1, .. })));
    assert!(up.begin_next_part().is_err());
    assert!(up.feed(&[3]).is_err());
    assert!(up.abort());
    assert_eq!(up.session().state(), SessionState::Aborted);
}

#[test]
fn failed_completion_leads_to_abort() {
    let mut up = start(2);
    up.feed(&[1]).unwrap();
    up.end_of_field();
    drain(&mut up);
    assert!(matches!(up.complete("f", Err("no".to_string())), Err(S3Error::MultipartCompleteError(_))));
    assert!(up.complete("f", Ok(())).is_err());
    assert!(up.abort());
    assert!(!up.abort());
}
