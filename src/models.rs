use vstd::prelude::*;

verus! {

/// Information about one entry of the served directory.
#[derive(Debug)]
pub struct FileInfo {
    pub name: String,
    pub size: u64,
    pub modified: String,
    pub is_dir: bool,
}

/// The listing of the served directory.
#[derive(Debug)]
pub struct FileListResponse {
    pub files: Vec<FileInfo>,
    pub total: usize,
}

/// The answer to a single-shot upload.
#[derive(Debug)]
pub struct UploadResponse {
    pub success: bool,
    pub filename: String,
    pub size: u64,
}

/// The answer to the deletion of one file.
#[derive(Debug)]
pub struct DeleteResponse {
    pub success: bool,
    pub filename: String,
}

/// Counts over the served directory.
#[derive(Debug)]
pub struct StatsResponse {
    pub total_files: usize,
    pub total_size: u64,
    pub files_dir: String,
}

/// The body of every error answer.
#[derive(Debug)]
pub struct ErrorResponse {
    pub error: String,
}

/// A request to delete several files.
#[derive(Debug)]
pub struct BatchDeleteRequest {
    pub filenames: Vec<String>,
}

/// The outcome of one deletion within a batch.
#[derive(Debug)]
pub struct BatchDeleteResult {
    pub filename: String,
    pub success: bool,
    pub error: Option<String>,
}

/// The outcome of a batch deletion.
#[derive(Debug)]
pub struct BatchDeleteResponse {
    pub total: usize,
    pub successful: usize,
    pub failed: usize,
    pub results: Vec<BatchDeleteResult>,
}

/// A request to open a chunked upload.
#[derive(Debug)]
pub struct ChunkedUploadInit {
    pub filename: String,
    pub total_size: u64,
    pub chunk_size: usize,
}

/// The answer to an opened chunked upload.
#[derive(Debug)]
pub struct ChunkedUploadInitResponse {
    pub upload_id: String,
    pub chunk_size: usize,
    pub total_chunks: usize,
}

/// The progress reported after a chunk was stored.
#[derive(Debug)]
pub struct ChunkUploadResponse {
    pub success: bool,
    pub chunk_number: usize,
    pub received_chunks: usize,
    pub total_chunks: usize,
}

/// A request to complete a chunked upload.
#[derive(Debug)]
pub struct ChunkedUploadComplete {
    pub upload_id: String,
}

/// The answer to a completed chunked upload.
#[derive(Debug)]
pub struct ChunkedUploadCompleteResponse {
    pub success: bool,
    pub filename: String,
    pub size: u64,
}

/// The UTC date and time of a UNIX timestamp, written `YYYY-MM-DD HH:MM:SS`.
pub uninterp spec fn utc_text_of(secs: int) -> Seq<char>;

/// The last second of the year 9999, as a UNIX timestamp.
pub const LAST_SECOND_OF_9999: u64 = 253402300799;

/// Relies on `chrono::DateTime::from_timestamp` (`None` only for seconds whose
/// day lies outside its date range, which reaches far past the years 1970 to
/// 9999) and on formatting the result with `%Y-%m-%d %H:%M:%S`.
#[verifier::external_body]
fn utc_timestamp_text(secs: i64) -> (r: Option<String>)
    ensures
        r matches Some(t) ==> t@ == utc_text_of(secs as int),
        0 <= secs <= LAST_SECOND_OF_9999 ==> r is Some,
{
    chrono::DateTime::from_timestamp(secs, 0).map(|dt| dt.format("%Y-%m-%d %H:%M:%S").to_string())
}

/// The modification time shown for a file: its UTC date and time, or
/// `Unknown` when the time is not known or cannot be shown.
pub fn modified_label(secs: Option<u64>) -> (r: String)
    ensures
        match secs {
            Some(s) => {
                &&& (r@ == "Unknown"@ || (s <= i64::MAX && r@ == utc_text_of(s as int)))
                &&& (s <= LAST_SECOND_OF_9999 ==> r@ == utc_text_of(s as int))
            },
            None => r@ == "Unknown"@,
        },
{
    match secs {
        Some(s) => {
            if s > i64::MAX as u64 {
                return "Unknown".to_owned();
            }
            match utc_timestamp_text(s as i64) {
                Some(t) => t,
                None => "Unknown".to_owned(),
            }
        },
        None => "Unknown".to_owned(),
    }
}

impl FileInfo {
    /// The entry `name`, with its size, its modification time (seconds since
    /// the UNIX epoch, when known) shown by `modified_label`, and its kind.
    pub fn new(name: String, size: u64, modified_secs: Option<u64>, is_dir: bool) -> (r: Self)
        ensures
            r.name == name,
            r.size == size,
            r.is_dir == is_dir,
            match modified_secs {
                Some(s) => {
                    &&& (r.modified@ == "Unknown"@ || (s <= i64::MAX && r.modified@ == utc_text_of(
                        s as int,
                    )))
                    &&& (s <= LAST_SECOND_OF_9999 ==> r.modified@ == utc_text_of(s as int))
                },
                None => r.modified@ == "Unknown"@,
            },
    {
        FileInfo { name, size, modified: modified_label(modified_secs), is_dir }
    }
}

/// How many of the results report success.
pub open spec fn count_successes(results: Seq<BatchDeleteResult>) -> nat
    decreases results.len(),
{
    if results.len() == 0 {
        0
    } else {
        count_successes(results.drop_last()) + if results.last().success {
            1nat
        } else {
            0nat
        }
    }
}

/// The sum of the sizes of the entries that are files.
pub open spec fn file_bytes(entries: Seq<(bool, u64)>) -> int
    decreases entries.len(),
{
    if entries.len() == 0 {
        0
    } else {
        file_bytes(entries.drop_last()) + if entries.last().0 {
            entries.last().1 as int
        } else {
            0
        }
    }
}

/// How many of the entries are files.
pub open spec fn file_count(entries: Seq<(bool, u64)>) -> int
    decreases entries.len(),
{
    if entries.len() == 0 {
        0
    } else {
        file_count(entries.drop_last()) + if entries.last().0 {
            1int
        } else {
            0
        }
    }
}

impl StatsResponse {
    /// Counts over directory entries given as (is a file, size in bytes): the
    /// number of files and their total size, which stops at `u64::MAX`.
    pub fn from_entries(entries: &Vec<(bool, u64)>, files_dir: String) -> (r: Self)
        ensures
            r.total_files == file_count(entries@),
            r.total_size == if file_bytes(entries@) <= u64::MAX {
                file_bytes(entries@)
            } else {
                u64::MAX as int
            },
            r.files_dir == files_dir,
    {
        let mut total_files: usize = 0;
        let mut total_size: u64 = 0;
        let mut i: usize = 0;
        while i < entries.len()
            invariant
                i <= entries@.len(),
                total_files == file_count(entries@.subrange(0, i as int)),
                total_files <= i,
                total_size == if file_bytes(entries@.subrange(0, i as int)) <= u64::MAX {
                    file_bytes(entries@.subrange(0, i as int))
                } else {
                    u64::MAX as int
                },
                file_bytes(entries@.subrange(0, i as int)) >= 0,
            decreases entries@.len() - i,
        {
            proof {
                assert(entries@.subrange(0, i as int + 1).drop_last() =~= entries@.subrange(0, i as int));
            }
            let (is_file, size) = entries[i];
            if is_file {
                total_files = total_files + 1;
                total_size = total_size.saturating_add(size);
            }
            i = i + 1;
        }
        assert(entries@.subrange(0, i as int) =~= entries@);
        StatsResponse { total_files, total_size, files_dir }
    }
}

impl FileListResponse {
    /// A listing of `files`, with their count.
    pub fn new(files: Vec<FileInfo>) -> (r: Self)
        ensures
            r.files@ == files@,
            r.total == files@.len(),
    {
        let total = files.len();
        FileListResponse { files, total }
    }
}

impl BatchDeleteResponse {
    /// The summary of a batch deletion: how many files were asked for, how many
    /// deletions succeeded and how many failed.
    pub fn from_results(results: Vec<BatchDeleteResult>) -> (r: Self)
        ensures
            r.results@ == results@,
            r.total == results@.len(),
            r.successful == count_successes(results@),
            r.failed == results@.len() - count_successes(results@),
    {
        let mut successful: usize = 0;
        let mut i: usize = 0;
        while i < results.len()
            invariant
                i <= results@.len(),
                successful == count_successes(results@.subrange(0, i as int)),
                successful <= i,
            decreases results@.len() - i,
        {
            proof {
                assert(results@.subrange(0, i as int + 1).drop_last() =~= results@.subrange(0, i as int));
            }
            if results[i].success {
                successful = successful + 1;
            }
            i = i + 1;
        }
        assert(results@.subrange(0, i as int) =~= results@);
        let total = results.len();
        BatchDeleteResponse { total, successful, failed: total - successful, results }
    }
}

} // verus!
