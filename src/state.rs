use vstd::prelude::*;
use dashmap::DashMap;
use std::collections::HashSet;
use crate::error::UploadError;
use crate::utils::{sanitize_filename, sanitized};

verus! {

broadcast use vstd::std_specs::hash::group_hash_axioms;

/// The concurrent map of `dashmap` that holds the upload registry. Its methods
/// take `&self`; the wrappers below take the map by `&mut`, so that no other
/// reference can change its contents while they run.
#[verifier::external_type_specification]
#[verifier::external_body]
#[verifier::reject_recursive_types(K)]
#[verifier::reject_recursive_types(V)]
#[verifier::reject_recursive_types(S)]
pub struct ExDashMap<K, V, S>(DashMap<K, V, S>);

/// What a registry map holds: each upload id with its session.
pub uninterp spec fn uploads_of(m: DashMap<String, ChunkedUploadMetadata>) -> Map<
    Seq<char>,
    ChunkedUploadMetadata,
>;

/// Relies on `DashMap::new`: a new map is empty.
#[verifier::external_body]
fn upload_map_new() -> (fresh: DashMap<String, ChunkedUploadMetadata>)
    ensures
        uploads_of(fresh) =~= Map::empty(),
{
    DashMap::new()
}

/// Relies on `DashMap::insert`: the key is bound to the value, replacing any earlier one.
#[verifier::external_body]
fn upload_map_insert(
    m: &mut DashMap<String, ChunkedUploadMetadata>,
    key: String,
    value: ChunkedUploadMetadata,
)
    ensures
        uploads_of(*final(m)) == uploads_of(*old(m)).insert(key@, value),
{
    m.insert(key, value);
}

/// Relies on `DashMap::remove`: the entry of the key, if any, is taken out and handed back.
#[verifier::external_body]
fn upload_map_remove(m: &mut DashMap<String, ChunkedUploadMetadata>, key: &str) -> (r: Option<
    ChunkedUploadMetadata,
>)
    ensures
        match r {
            Some(v) => uploads_of(*old(m)).contains_key(key@) && v == uploads_of(*old(m))[key@],
            None => !uploads_of(*old(m)).contains_key(key@),
        },
        uploads_of(*final(m)) == uploads_of(*old(m)).remove(key@),
{
    m.remove(key).map(|(_, v)| v)
}

/// Relies on `DashMap::contains_key`: whether the key has an entry.
#[verifier::external_body]
fn upload_map_contains(m: &DashMap<String, ChunkedUploadMetadata>, key: &str) -> (r: bool)
    ensures
        r == uploads_of(*m).contains_key(key@),
{
    m.contains_key(key)
}

/// The number of chunks of `chunk_size` bytes that `total_size` bytes take:
/// the quotient rounded up.
pub open spec fn chunk_count(total_size: int, chunk_size: int) -> int {
    if total_size % chunk_size == 0 {
        total_size / chunk_size
    } else {
        total_size / chunk_size + 1
    }
}

/// The state of one chunked upload, as plain values.
pub struct SessionView {
    pub filename: Seq<char>,
    pub total_size: u64,
    pub chunk_size: usize,
    pub total_chunks: usize,
    pub received: Set<usize>,
}

/// A session may be completed once every index below `total_chunks` has arrived;
/// indices at or above it do not matter.
pub open spec fn all_chunks_received(s: SessionView) -> bool {
    forall|i: usize| i < s.total_chunks ==> #[trigger] s.received.contains(i)
}

/// Whether `total_size` bytes in chunks of `chunk_size` make a chunk count that
/// this machine can index.
pub open spec fn chunk_count_fits(total_size: u64, chunk_size: usize) -> bool {
    chunk_size > 0 && chunk_count(total_size as int, chunk_size as int) <= usize::MAX
}

/// The session that an init request opens: the sanitized name, the declared
/// sizes, the derived chunk count, and nothing received.
pub open spec fn fresh_session(filename: Seq<char>, total_size: u64, chunk_size: usize) -> SessionView {
    SessionView {
        filename: sanitized(filename),
        total_size,
        chunk_size,
        total_chunks: chunk_count(total_size as int, chunk_size as int) as usize,
        received: Set::empty(),
    }
}

/// The registry after chunk `index` of upload `id` was recorded.
pub open spec fn after_ingest(reg: Map<Seq<char>, SessionView>, id: Seq<char>, index: usize) -> Map<
    Seq<char>,
    SessionView,
> {
    if reg.contains_key(id) {
        reg.insert(id, SessionView { received: reg[id].received.insert(index), ..reg[id] })
    } else {
        reg
    }
}

/// What a completion request for `id` yields on the registry `reg`.
pub open spec fn complete_outcome(reg: Map<Seq<char>, SessionView>, id: Seq<char>) -> Result<
    SessionView,
    UploadError,
> {
    if !reg.contains_key(id) {
        Err(UploadError::NotFound)
    } else if !all_chunks_received(reg[id]) {
        Err(
            UploadError::Incomplete {
                received: reg[id].received.len() as usize,
                total: reg[id].total_chunks,
            },
        )
    } else {
        Ok(reg[id])
    }
}

/// The registry after a completion request for `id`: the session leaves it
/// exactly when the request succeeds.
pub open spec fn after_complete(reg: Map<Seq<char>, SessionView>, id: Seq<char>) -> Map<
    Seq<char>,
    SessionView,
> {
    if complete_outcome(reg, id) is Ok {
        reg.remove(id)
    } else {
        reg
    }
}

/// Metadata of a chunked upload in progress.
pub struct ChunkedUploadMetadata {
    pub filename: String,
    pub total_size: u64,
    pub chunk_size: usize,
    pub total_chunks: usize,
    pub received_chunks: HashSet<usize>,
}

impl View for ChunkedUploadMetadata {
    type V = SessionView;

    open spec fn view(&self) -> SessionView {
        SessionView {
            filename: self.filename@,
            total_size: self.total_size,
            chunk_size: self.chunk_size,
            total_chunks: self.total_chunks,
            received: self.received_chunks@,
        }
    }
}

/// The number of whole or partial chunks: `total_size` divided by `chunk_size`,
/// rounded up. A chunk size of zero is refused.
pub fn total_chunks_for(total_size: u64, chunk_size: usize) -> (r: Result<usize, UploadError>)
    ensures
        chunk_size == 0 ==> r == Err::<usize, UploadError>(UploadError::InvalidRequest),
        chunk_size > 0 && chunk_count(total_size as int, chunk_size as int) <= usize::MAX ==> (r
            matches Ok(n) && n as int == chunk_count(total_size as int, chunk_size as int)),
        chunk_size > 0 && chunk_count(total_size as int, chunk_size as int) > usize::MAX ==> r
            == Err::<usize, UploadError>(UploadError::InvalidRequest),
{
    if chunk_size == 0 {
        return Err(UploadError::InvalidRequest);
    }
    let c = chunk_size as u64;
    let q = total_size / c;
    let rem = total_size % c;
    if rem == 0 {
        if q > usize::MAX as u64 {
            return Err(UploadError::InvalidRequest);
        }
        Ok(q as usize)
    } else {
        proof {
            assert(c >= 2) by {
                if c == 1 {
                    assert(total_size % 1 == 0) by (nonlinear_arith);
                }
            }
            assert(q <= total_size / 2) by (nonlinear_arith)
                requires q == total_size / c, c >= 2;
        }
        if q + 1 > usize::MAX as u64 {
            return Err(UploadError::InvalidRequest);
        }
        Ok((q + 1) as usize)
    }
}

impl ChunkedUploadMetadata {
    /// A fresh session for `filename` (sanitized), with no chunk received yet.
    pub fn new(filename: &str, total_size: u64, chunk_size: usize) -> (r: Result<Self, UploadError>)
        ensures
            chunk_size == 0 ==> r == Err::<Self, UploadError>(UploadError::InvalidRequest),
            chunk_size > 0 && chunk_count(total_size as int, chunk_size as int) > usize::MAX ==> r
                == Err::<Self, UploadError>(UploadError::InvalidRequest),
            chunk_size > 0 && chunk_count(total_size as int, chunk_size as int) <= usize::MAX ==> (r
                matches Ok(m) && m@ == (SessionView {
                filename: sanitized(filename@),
                total_size,
                chunk_size,
                total_chunks: chunk_count(total_size as int, chunk_size as int) as usize,
                received: Set::empty(),
            })),
    {
        let total_chunks = match total_chunks_for(total_size, chunk_size) {
            Ok(n) => n,
            Err(e) => return Err(e),
        };
        let m = ChunkedUploadMetadata {
            filename: sanitize_filename(filename),
            total_size,
            chunk_size,
            total_chunks,
            received_chunks: HashSet::new(),
        };
        assert(m@.received =~= Set::<usize>::empty());
        Ok(m)
    }

    /// Records that chunk `index` has arrived, and returns how many distinct
    /// indices have arrived so far.
    pub fn mark_received(&mut self, index: usize) -> (r: usize)
        ensures
            final(self)@ == (SessionView { received: old(self)@.received.insert(index), ..old(self)@ }),
            r as int == final(self)@.received.len(),
    {
        self.received_chunks.insert(index);
        self.received_chunks.len()
    }

    /// How many distinct indices have arrived.
    pub fn received_count(&self) -> (r: usize)
        ensures
            r as int == self@.received.len(),
    {
        self.received_chunks.len()
    }

    /// Whether every index below `total_chunks` has arrived.
    pub fn is_complete(&self) -> (r: bool)
        ensures
            r == all_chunks_received(self@),
    {
        let mut i: usize = 0;
        while i < self.total_chunks
            invariant
                i <= self.total_chunks,
                forall|j: usize| j < i ==> #[trigger] self@.received.contains(j),
            decreases self.total_chunks - i,
        {
            if !self.received_chunks.contains(&i) {
                assert(!self@.received.contains(i));
                return false;
            }
            i = i + 1;
        }
        true
    }
}

} // verus!

verus! {

/// Shared state of the server: the directory it serves, and the registry of
/// chunked uploads in progress, keyed by upload id.
pub struct AppState {
    pub files_dir: String,
    pub chunked_uploads: DashMap<String, ChunkedUploadMetadata>,
}

impl AppState {
    /// The sessions of the registry, as plain values.
    pub open spec fn sessions(&self) -> Map<Seq<char>, SessionView> {
        uploads_of(self.chunked_uploads).map_values(|m: ChunkedUploadMetadata| m@)
    }

    /// A state serving `files_dir`, with no upload in progress.
    pub fn new(files_dir: String) -> (r: Self)
        ensures
            r.files_dir == files_dir,
            r.sessions() == Map::<Seq<char>, SessionView>::empty(),
    {
        let r = AppState { files_dir, chunked_uploads: upload_map_new() };
        assert(r.sessions() =~= Map::<Seq<char>, SessionView>::empty());
        r
    }

    /// Whether an upload with this id is in progress.
    pub fn has_upload(&self, upload_id: &str) -> (r: bool)
        ensures
            r == self.sessions().contains_key(upload_id@),
    {
        upload_map_contains(&self.chunked_uploads, upload_id)
    }

    /// Adds a session under `upload_id`; an id that is already taken is refused
    /// and leaves the registry as it was.
    pub fn open_session(&mut self, upload_id: String, session: ChunkedUploadMetadata) -> (r: Result<
        (),
        UploadError,
    >)
        ensures
            final(self).files_dir == old(self).files_dir,
            old(self).sessions().contains_key(upload_id@) ==> r == Err::<(), UploadError>(
                UploadError::Internal,
            ) && final(self).sessions() == old(self).sessions(),
            !old(self).sessions().contains_key(upload_id@) ==> r == Ok::<(), UploadError>(())
                && final(self).sessions() == old(self).sessions().insert(upload_id@, session@),
    {
        if upload_map_contains(&self.chunked_uploads, upload_id.as_str()) {
            return Err(UploadError::Internal);
        }
        let ghost key = upload_id@;
        upload_map_insert(&mut self.chunked_uploads, upload_id, session);
        assert(self.sessions() =~= old(self).sessions().insert(key, session@));
        Ok(())
    }

    /// Takes the session of `upload_id` out of the registry, if there is one.
    pub fn take_session(&mut self, upload_id: &str) -> (r: Option<ChunkedUploadMetadata>)
        ensures
            final(self).files_dir == old(self).files_dir,
            final(self).sessions() == old(self).sessions().remove(upload_id@),
            match r {
                Some(m) => old(self).sessions().contains_key(upload_id@) && m@ == old(
                    self,
                ).sessions()[upload_id@],
                None => !old(self).sessions().contains_key(upload_id@),
            },
    {
        let r = upload_map_remove(&mut self.chunked_uploads, upload_id);
        assert(self.sessions() =~= old(self).sessions().remove(upload_id@));
        r
    }

    /// Puts a session back under `upload_id`.
    pub(crate) fn restore_session(&mut self, upload_id: &str, session: ChunkedUploadMetadata)
        ensures
            final(self).files_dir == old(self).files_dir,
            final(self).sessions() == old(self).sessions().insert(upload_id@, session@),
    {
        upload_map_insert(&mut self.chunked_uploads, upload_id.to_owned(), session);
        assert(self.sessions() =~= old(self).sessions().insert(upload_id@, session@));
    }
}

} // verus!
