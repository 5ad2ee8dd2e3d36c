use juicebox_omega::error::UploadError;
use juicebox_omega::handlers::{
    complete_chunked_upload, discard_chunked_upload, init_chunked_upload,
    init_chunked_upload_with_id, upload_chunk,
};
use juicebox_omega::models::ChunkedUploadInit;
use juicebox_omega::state::{total_chunks_for, AppState, ChunkedUploadMetadata};
use std::collections::HashSet;

fn request(filename: &str, total_size: u64, chunk_size: usize) -> ChunkedUploadInit {
    ChunkedUploadInit { filename: filename.to_string(), total_size, chunk_size }
}

fn received(state: &AppState, id: &str) -> usize {
    state.chunked_uploads.get(id).unwrap().received_chunks.len()
}

#[test]
fn test_init_chunked_upload() {
    let mut state = AppState::new("/srv/files".to_string());
    let response = init_chunked_upload(&mut state, &request("large_file.bin", 1024, 256)).unwrap();
    assert_eq!(response.chunk_size, 256);
    assert_eq!(response.total_chunks, 4);
    // check if metadata is stored
    assert!(state.chunked_uploads.contains_key(&response.upload_id));
    assert!(state.has_upload(&response.upload_id));
    assert_eq!(response.upload_id.len(), 36);
}

#[test]
fn test_complete_chunked_upload() {
    let mut state = AppState::new("/srv/files".to_string());
    let upload_id = "test-upload-id".to_string();
    let filename = "completed.txt".to_string();

    let mut received_chunks = HashSet::new();
    received_chunks.insert(0);
    received_chunks.insert(1);
    let metadata = ChunkedUploadMetadata {
        filename: filename.clone(),
        total_size: 10,
        chunk_size: 5,
        total_chunks: 2,
        received_chunks,
    };
    state.chunked_uploads.insert(upload_id.clone(), metadata);

    let session = complete_chunked_upload(&mut state, &upload_id).unwrap();
    assert_eq!(session.filename, filename);
    assert_eq!(session.total_size, 10);
    assert_eq!(session.total_chunks, 2);
    assert!(!state.has_upload(&upload_id));
}

#[test]
fn chunk_count_rounds_up() {
    assert_eq!(total_chunks_for(1024, 256), Ok(4));
    assert_eq!(total_chunks_for(1000, 256), Ok(4));
    assert_eq!(total_chunks_for(0, 256), Ok(0));
    assert_eq!(total_chunks_for(1, 256), Ok(1));
    assert_eq!(total_chunks_for(u64::MAX, 1), Ok(u64::MAX as usize));
    assert_eq!(total_chunks_for(u64::MAX, 2), Ok((u64::MAX / 2 + 1) as usize));
    assert_eq!(total_chunks_for(10, 0), Err(UploadError::InvalidRequest));
}

#[test]
fn init_rejects_zero_chunk_size() {
    let mut state = AppState::new("/srv/files".to_string());
    let r = init_chunked_upload(&mut state, &request("a.bin", 1000, 0));
    assert_eq!(r.err(), Some(UploadError::InvalidRequest));
    assert_eq!(state.chunked_uploads.len(), 0);
}

#[test]
fn init_sanitizes_and_derives_chunk_count() {
    let mut state = AppState::new("/srv/files".to_string());
    let r = init_chunked_upload_with_id(&mut state, "u1".to_string(), &request("../x/y.bin", 1000, 256))
        .unwrap();
    assert_eq!(r.upload_id, "u1");
    assert_eq!(r.total_chunks, 4);
    let session = state.chunked_uploads.get("u1").unwrap();
    assert_eq!(session.filename, "xy.bin");
    assert_eq!(session.total_chunks, 4);
    assert!(session.received_chunks.is_empty());
}

#[test]
fn init_refuses_an_id_in_use() {
    let mut state = AppState::new("/srv/files".to_string());
    init_chunked_upload_with_id(&mut state, "dup".to_string(), &request("a.bin", 10, 5)).unwrap();
    let r = init_chunked_upload_with_id(&mut state, "dup".to_string(), &request("b.bin", 20, 5));
    assert_eq!(r.err(), Some(UploadError::Internal));
    assert_eq!(state.chunked_uploads.get("dup").unwrap().filename, "a.bin");
}

#[test]
fn fresh_ids_differ() {
    let mut state = AppState::new("/srv/files".to_string());
    let a = init_chunked_upload(&mut state, &request("a.bin", 10, 5)).unwrap();
    let b = init_chunked_upload(&mut state, &request("a.bin", 10, 5)).unwrap();
    assert_ne!(a.upload_id, b.upload_id);
    assert_eq!(state.chunked_uploads.len(), 2);
}

#[test]
fn repeated_chunk_keeps_count() {
    let mut state = AppState::new("/srv/files".to_string());
    init_chunked_upload_with_id(&mut state, "r".to_string(), &request("a.bin", 1024, 256)).unwrap();
    let first = upload_chunk(&mut state, "r", 2).unwrap();
    assert_eq!(first.received_chunks, 1);
    let second = upload_chunk(&mut state, "r", 2).unwrap();
    assert!(second.success);
    assert_eq!(second.chunk_number, 2);
    assert_eq!(second.received_chunks, 1);
    assert_eq!(second.total_chunks, 4);
    assert_eq!(received(&state, "r"), 1);
}

#[test]
fn chunk_for_unknown_upload_is_not_found() {
    let mut state = AppState::new("/srv/files".to_string());
    assert_eq!(upload_chunk(&mut state, "nope", 0).err(), Some(UploadError::NotFound));
}

#[test]
fn early_complete_is_incomplete_and_retryable() {
    let mut state = AppState::new("/srv/files".to_string());
    init_chunked_upload_with_id(&mut state, "p".to_string(), &request("p.bin", 15, 5)).unwrap();
    upload_chunk(&mut state, "p", 0).unwrap();
    upload_chunk(&mut state, "p", 2).unwrap();
    let r = complete_chunked_upload(&mut state, "p");
    assert_eq!(r.err(), Some(UploadError::Incomplete { received: 2, total: 3 }));
    assert_eq!(UploadError::Incomplete { received: 2, total: 3 }.status_code(), 400);
    assert!(state.has_upload("p"));
    upload_chunk(&mut state, "p", 1).unwrap();
    let session = complete_chunked_upload(&mut state, "p").unwrap();
    assert_eq!(session.filename, "p.bin");
    assert!(!state.has_upload("p"));
}

#[test]
fn extra_indices_do_not_count_toward_completion() {
    let mut state = AppState::new("/srv/files".to_string());
    init_chunked_upload_with_id(&mut state, "e".to_string(), &request("e.bin", 10, 5)).unwrap();
    upload_chunk(&mut state, "e", 0).unwrap();
    upload_chunk(&mut state, "e", 5).unwrap();
    let r = complete_chunked_upload(&mut state, "e");
    assert_eq!(r.err(), Some(UploadError::Incomplete { received: 2, total: 2 }));
    upload_chunk(&mut state, "e", 1).unwrap();
    assert!(complete_chunked_upload(&mut state, "e").is_ok());
}

#[test]
fn end_to_end_report_upload() {
    let mut state = AppState::new("/srv/files".to_string());
    let init = init_chunked_upload(&mut state, &request("report.bin", 10, 5)).unwrap();
    assert_eq!(init.total_chunks, 2);
    let p0 = upload_chunk(&mut state, &init.upload_id, 0).unwrap();
    assert_eq!((p0.received_chunks, p0.total_chunks), (1, 2));
    let p1 = upload_chunk(&mut state, &init.upload_id, 1).unwrap();
    assert_eq!((p1.received_chunks, p1.total_chunks), (2, 2));
    let session = complete_chunked_upload(&mut state, &init.upload_id).unwrap();
    assert_eq!(session.filename, "report.bin");
    assert_eq!(session.total_size, 10);
    assert!(!state.has_upload(&init.upload_id));
}

#[test]
fn all_indices_in_any_order_converge() {
    for round in 0..5usize {
        let mut state = AppState::new("/srv/files".to_string());
        init_chunked_upload_with_id(&mut state, "c".to_string(), &request("c.bin", 120, 10)).unwrap();
        for k in 0..120usize {
            let index = (k * 7 + round) % 12;
            upload_chunk(&mut state, "c", index).unwrap();
        }
        assert_eq!(received(&state, "c"), 12);
        assert!(complete_chunked_upload(&mut state, "c").is_ok());
    }
}

#[test]
fn complete_twice_is_not_found() {
    let mut state = AppState::new("/srv/files".to_string());
    init_chunked_upload_with_id(&mut state, "t".to_string(), &request("t.bin", 5, 5)).unwrap();
    upload_chunk(&mut state, "t", 0).unwrap();
    assert!(complete_chunked_upload(&mut state, "t").is_ok());
    let again = complete_chunked_upload(&mut state, "t");
    assert_eq!(again.err(), Some(UploadError::NotFound));
    assert_eq!(UploadError::NotFound.status_code(), 404);
    assert_eq!(complete_chunked_upload(&mut state, "never").err(), Some(UploadError::NotFound));
    assert_eq!(upload_chunk(&mut state, "t", 0).err(), Some(UploadError::NotFound));
}

#[test]
fn two_completes_exactly_one_succeeds() {
    let mut state = AppState::new("/srv/files".to_string());
    init_chunked_upload_with_id(&mut state, "d".to_string(), &request("d.bin", 0, 5)).unwrap();
    let first = complete_chunked_upload(&mut state, "d");
    let second = complete_chunked_upload(&mut state, "d");
    assert_eq!([first.is_ok(), second.is_ok()].iter().filter(|ok| **ok).count(), 1);
    assert_eq!(second.err(), Some(UploadError::NotFound));
}

#[test]
fn discard_removes_a_session() {
    let mut state = AppState::new("/srv/files".to_string());
    init_chunked_upload_with_id(&mut state, "x".to_string(), &request("x.bin", 10, 5)).unwrap();
    assert!(discard_chunked_upload(&mut state, "x"));
    assert!(!discard_chunked_upload(&mut state, "x"));
    assert!(!state.has_upload("x"));
    assert_eq!(UploadError::Internal.status_code(), 500);
    assert_eq!(UploadError::InvalidRequest.status_code(), 400);
}

#[test]
fn init_rounds_chunk_count_up() {
    let mut state = AppState::new("/srv/files".to_string());
    let r = init_chunked_upload(&mut state, &request("f", 1000, 256)).unwrap();
    assert_eq!(r.total_chunks, 4);
    assert_eq!(r.chunk_size, 256);
    let session = state.chunked_uploads.get(&r.upload_id).unwrap();
    assert_eq!(session.filename, "f");
    assert_eq!(session.total_size, 1000);
    assert!(session.received_chunks.is_empty());
}
