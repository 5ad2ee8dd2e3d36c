use vstd::prelude::*;
use crate::error::UploadError;
use crate::models::{ChunkUploadResponse, ChunkedUploadInit, ChunkedUploadInitResponse};
use crate::state::{
    after_complete, after_ingest, chunk_count, chunk_count_fits, complete_outcome, fresh_session,
    AppState, ChunkedUploadMetadata,
};

verus! {

/// Relies on `uuid::Uuid::new_v4`: a random version-4 id, in its hyphenated text form.
#[verifier::external_body]
fn new_upload_id() -> (r: String) {
    uuid::Uuid::new_v4().to_string()
}

/// Opens a chunked upload under the given id. A chunk size of zero (or a chunk
/// count this machine cannot index) is refused first; an id that is taken is
/// refused next. Either refusal leaves the registry as it was.
pub fn init_chunked_upload_with_id(
    state: &mut AppState,
    upload_id: String,
    payload: &ChunkedUploadInit,
) -> (r: Result<ChunkedUploadInitResponse, UploadError>)
    ensures
        final(state).files_dir == old(state).files_dir,
        !chunk_count_fits(payload.total_size, payload.chunk_size) ==> r
            == Err::<ChunkedUploadInitResponse, UploadError>(UploadError::InvalidRequest)
            && final(state).sessions() == old(state).sessions(),
        chunk_count_fits(payload.total_size, payload.chunk_size)
            && old(state).sessions().contains_key(upload_id@)
            ==> r == Err::<ChunkedUploadInitResponse, UploadError>(UploadError::Internal)
            && final(state).sessions() == old(state).sessions(),
        chunk_count_fits(payload.total_size, payload.chunk_size)
            && !old(state).sessions().contains_key(upload_id@) ==> (r matches Ok(resp)
            && resp.upload_id@ == upload_id@
            && resp.chunk_size == payload.chunk_size
            && resp.total_chunks == chunk_count(payload.total_size as int, payload.chunk_size as int)
            && final(state).sessions() == old(state).sessions().insert(
                upload_id@,
                fresh_session(payload.filename@, payload.total_size, payload.chunk_size),
            )),
{
    let session = match ChunkedUploadMetadata::new(
        payload.filename.as_str(),
        payload.total_size,
        payload.chunk_size,
    ) {
        Ok(m) => m,
        Err(e) => return Err(e),
    };
    let total_chunks = session.total_chunks;
    let key = upload_id.clone();
    match state.open_session(key, session) {
        Ok(()) => Ok(
            ChunkedUploadInitResponse { upload_id, chunk_size: payload.chunk_size, total_chunks },
        ),
        Err(e) => Err(e),
    }
}

/// Opens a chunked upload under a freshly drawn random id. On success the
/// id was not in use before, and the registry gains exactly its session.
/// A request whose chunk count fits is refused only when the drawn id is
/// already taken, which needs a registry that is not empty.
pub fn init_chunked_upload(state: &mut AppState, payload: &ChunkedUploadInit) -> (r: Result<
    ChunkedUploadInitResponse,
    UploadError,
>)
    ensures
        final(state).files_dir == old(state).files_dir,
        !chunk_count_fits(payload.total_size, payload.chunk_size) ==> r
            == Err::<ChunkedUploadInitResponse, UploadError>(UploadError::InvalidRequest),
        match r {
            Ok(resp) => {
                &&& chunk_count_fits(payload.total_size, payload.chunk_size)
                &&& !old(state).sessions().contains_key(resp.upload_id@)
                &&& resp.chunk_size == payload.chunk_size
                &&& resp.total_chunks == chunk_count(
                    payload.total_size as int,
                    payload.chunk_size as int,
                )
                &&& final(state).sessions() == old(state).sessions().insert(
                    resp.upload_id@,
                    fresh_session(payload.filename@, payload.total_size, payload.chunk_size),
                )
            },
            Err(e) => {
                &&& (e == UploadError::InvalidRequest || e == UploadError::Internal)
                &&& (e == UploadError::InvalidRequest <==> !chunk_count_fits(
                    payload.total_size,
                    payload.chunk_size,
                ))
                &&& (e == UploadError::Internal ==> chunk_count_fits(
                    payload.total_size,
                    payload.chunk_size,
                ) && exists|k: Seq<char>| old(state).sessions().contains_key(k))
                &&& final(state).sessions() == old(state).sessions()
            },
        },
{
    let upload_id = new_upload_id();
    init_chunked_upload_with_id(state, upload_id, payload)
}

/// Records that chunk `chunk_number` of upload `upload_id` was stored, and
/// reports the progress. An unknown id gives `NotFound` and changes nothing.
pub fn upload_chunk(state: &mut AppState, upload_id: &str, chunk_number: usize) -> (r: Result<
    ChunkUploadResponse,
    UploadError,
>)
    ensures
        final(state).files_dir == old(state).files_dir,
        final(state).sessions() == after_ingest(old(state).sessions(), upload_id@, chunk_number),
        !old(state).sessions().contains_key(upload_id@) ==> r == Err::<
            ChunkUploadResponse,
            UploadError,
        >(UploadError::NotFound),
        old(state).sessions().contains_key(upload_id@) ==> (r matches Ok(p)
            && p.success
            && p.chunk_number == chunk_number
            && p.received_chunks == final(state).sessions()[upload_id@].received.len()
            && p.total_chunks == old(state).sessions()[upload_id@].total_chunks),
{
    match state.take_session(upload_id) {
        None => {
            assert(old(state).sessions().remove(upload_id@) =~= old(state).sessions());
            Err(UploadError::NotFound)
        },
        Some(mut m) => {
            let received_chunks = m.mark_received(chunk_number);
            let total_chunks = m.total_chunks;
            state.restore_session(upload_id, m);
            assert(state.sessions() =~= after_ingest(old(state).sessions(), upload_id@, chunk_number));
            Ok(ChunkUploadResponse { success: true, chunk_number, received_chunks, total_chunks })
        },
    }
}

/// Completes upload `upload_id`: when every chunk below its chunk count has
/// arrived, the session leaves the registry and is handed back for assembly.
/// Otherwise the registry is left as it was, with `NotFound` for an unknown id
/// and `Incomplete` (received and expected counts) for a partial upload.
pub fn complete_chunked_upload(state: &mut AppState, upload_id: &str) -> (r: Result<
    ChunkedUploadMetadata,
    UploadError,
>)
    ensures
        final(state).files_dir == old(state).files_dir,
        final(state).sessions() == after_complete(old(state).sessions(), upload_id@),
        match r {
            Ok(m) => complete_outcome(old(state).sessions(), upload_id@) == Ok::<
                _,
                UploadError,
            >(m@),
            Err(e) => complete_outcome(old(state).sessions(), upload_id@) == Err::<
                crate::state::SessionView,
                _,
            >(e),
        },
{
    match state.take_session(upload_id) {
        None => {
            assert(old(state).sessions().remove(upload_id@) =~= old(state).sessions());
            Err(UploadError::NotFound)
        },
        Some(m) => {
            if m.is_complete() {
                Ok(m)
            } else {
                let received = m.received_count();
                let total = m.total_chunks;
                state.restore_session(upload_id, m);
                assert(state.sessions() =~= old(state).sessions());
                Err(UploadError::Incomplete { received, total })
            }
        },
    }
}

/// Drops upload `upload_id` from the registry, if it is there: for an init whose
/// staging area could not be prepared.
pub fn discard_chunked_upload(state: &mut AppState, upload_id: &str) -> (r: bool)
    ensures
        final(state).files_dir == old(state).files_dir,
        final(state).sessions() == old(state).sessions().remove(upload_id@),
        r == old(state).sessions().contains_key(upload_id@),
{
    state.take_session(upload_id).is_some()
}

} // verus!
