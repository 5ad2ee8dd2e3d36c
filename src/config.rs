use vstd::prelude::*;
use sha2::Digest;
use vstd::string::StrSliceExecFns;
use vstd::utf8::encode_utf8;
use crate::settings::{number_setting, origin_list, parse_number, parse_origin_list};

verus! {

/// What SHA-256 gives for the bytes `data`.
pub uninterp spec fn sha256_of(data: Seq<u8>) -> Seq<u8>;

/// Relies on `sha2::Sha256::digest`: the SHA-256 digest of the bytes, 32 bytes long.
#[verifier::external_body]
fn sha256_digest(data: &[u8]) -> (r: Vec<u8>)
    ensures
        r@ == sha256_of(data@),
        r@.len() == 32,
{
    sha2::Sha256::digest(data).to_vec()
}

/// The lowercase hexadecimal digit of `d` (below 16).
pub open spec fn hex_digit(d: int) -> char {
    seq!['0', '1', '2', '3', '4', '5', '6', '7', '8', '9', 'a', 'b', 'c', 'd', 'e', 'f'][d]
}

/// The bytes written as lowercase hexadecimal, two digits per byte, high digit first.
pub open spec fn hex_of(b: Seq<u8>) -> Seq<char>
    decreases b.len(),
{
    if b.len() == 0 {
        Seq::empty()
    } else {
        hex_of(b.drop_last()).push(hex_digit(b.last() as int / 16)).push(
            hex_digit(b.last() as int % 16),
        )
    }
}

/// Relies on `hex::encode`: each byte becomes two lowercase hexadecimal digits.
#[verifier::external_body]
fn hex_encode(data: &[u8]) -> (r: String)
    ensures
        r@ == hex_of(data@),
{
    hex::encode(data)
}

proof fn lemma_hex_len(b: Seq<u8>)
    ensures
        hex_of(b).len() == 2 * b.len(),
    decreases b.len(),
{
    if b.len() > 0 {
        lemma_hex_len(b.drop_last());
    }
}

/// The stored form of an api key: the hexadecimal SHA-256 digest of its UTF-8 bytes.
pub open spec fn api_key_hash_of(key: Seq<char>) -> Seq<char> {
    hex_of(sha256_of(encode_utf8(key)))
}

/// Settings of the two servers.
#[derive(Debug)]
pub struct Config {
    /// Directory the files are served from.
    pub files_dir: String,
    /// Address of the public file server.
    pub public_host: String,
    pub public_port: u16,
    /// Address of the admin api.
    pub admin_host: String,
    pub admin_port: u16,
    /// Largest accepted request body, in bytes.
    pub max_upload_size: u64,
    /// Worker threads of the runtime.
    pub worker_threads: usize,
    /// The admin api key, hashed.
    pub api_key_hash: String,
    /// Origins allowed by cross-origin requests.
    pub cors_origins: Vec<String>,
    /// Requests allowed per minute and client.
    pub rate_limit_per_minute: u64,
}

/// The largest request body accepted when none is configured: 10 GiB.
pub const DEFAULT_MAX_UPLOAD_SIZE: u64 = 10737418240;

impl Config {
    /// The stored form of an api key: hexadecimal SHA-256, 64 characters.
    pub fn hash_api_key(key: &str) -> (r: String)
        ensures
            r@ == api_key_hash_of(key@),
            r@.len() == 64,
    {
        let digest = sha256_digest(key.as_bytes());
        let r = hex_encode(digest.as_slice());
        proof {
            lemma_hex_len(digest@);
        }
        r
    }

    /// Whether `provided` is the key whose stored form is `expected_hash`.
    pub fn api_key_matches(provided: &str, expected_hash: &str) -> (r: bool)
        ensures
            r == (api_key_hash_of(provided@) == expected_hash@),
    {
        let h = Config::hash_api_key(provided);
        string_eq(h.as_str(), expected_hash)
    }

    /// The configuration from the settings' texts: each missing or unreadable
    /// one is replaced by its default, numbers are read as `str::parse` reads
    /// them, the origin list is split at commas, and the api key is stored hashed.
    pub fn from_settings(
        files_dir: Option<String>,
        public_host: Option<String>,
        public_port: Option<String>,
        admin_host: Option<String>,
        admin_port: Option<String>,
        max_upload_size: Option<String>,
        worker_threads: Option<String>,
        api_key: Option<String>,
        cors_origins: Option<String>,
        rate_limit_per_minute: Option<String>,
    ) -> (r: Config)
        ensures
            r.files_dir@ == text_or(files_dir, "./files"@),
            r.public_host@ == text_or(public_host, "127.0.0.1"@),
            r.public_port == number_or(public_port, u16::MAX as int, 4848),
            r.admin_host@ == text_or(admin_host, "127.0.0.1"@),
            r.admin_port == number_or(admin_port, u16::MAX as int, 4849),
            r.max_upload_size == number_or(
                max_upload_size,
                u64::MAX as int,
                DEFAULT_MAX_UPLOAD_SIZE as int,
            ),
            r.worker_threads == number_or(worker_threads, usize::MAX as int, 8),
            r.api_key_hash@ == api_key_hash_of(text_or(api_key, "changeme"@)),
            r.cors_origins@.map_values(|s: String| s@) == (match cors_origins {
                Some(list) => origin_list(list@),
                None => seq!["http://localhost:3000"@, "http://127.0.0.1:3000"@],
            }),
            r.rate_limit_per_minute == number_or(rate_limit_per_minute, u64::MAX as int, 60),
    {
        let api_key_hash = match &api_key {
            Some(k) => Config::hash_api_key(k.as_str()),
            None => Config::hash_api_key("changeme"),
        };
        let cors_origins = match &cors_origins {
            Some(list) => parse_origin_list(list.as_str()),
            None => {
                let v = vec!["http://localhost:3000".to_owned(), "http://127.0.0.1:3000".to_owned()];
                assert(v@.map_values(|s: String| s@) =~= seq![
                    "http://localhost:3000"@,
                    "http://127.0.0.1:3000"@,
                ]);
                v
            },
        };
        Config {
            files_dir: text_or_default(files_dir, "./files"),
            public_host: text_or_default(public_host, "127.0.0.1"),
            public_port: read_number(&public_port, u16::MAX as u64, 4848) as u16,
            admin_host: text_or_default(admin_host, "127.0.0.1"),
            admin_port: read_number(&admin_port, u16::MAX as u64, 4849) as u16,
            max_upload_size: read_number(&max_upload_size, u64::MAX, DEFAULT_MAX_UPLOAD_SIZE),
            worker_threads: read_number(&worker_threads, usize::MAX as u64, 8) as usize,
            api_key_hash,
            cors_origins,
            rate_limit_per_minute: read_number(&rate_limit_per_minute, u64::MAX, 60),
        }
    }
}

/// The text of a setting, or `default` when it is not set.
pub open spec fn text_or(v: Option<String>, default: Seq<char>) -> Seq<char> {
    match v {
        Some(s) => s@,
        None => default,
    }
}

/// The number a setting holds, or `default` when it is not set or not a
/// number of at most `max`.
pub open spec fn number_or(v: Option<String>, max: int, default: int) -> int {
    match v {
        Some(s) => match number_setting(s@, max) {
            Some(n) => n,
            None => default,
        },
        None => default,
    }
}

fn text_or_default(v: Option<String>, default: &str) -> (r: String)
    ensures
        r@ == text_or(v, default@),
{
    match v {
        Some(s) => s,
        None => default.to_owned(),
    }
}

fn read_number(v: &Option<String>, max: u64, default: u64) -> (r: u64)
    requires
        default <= max,
    ensures
        r == number_or(*v, max as int, default as int),
        r <= max,
{
    match v {
        Some(s) => match parse_number(s.as_str(), max) {
            Some(n) => n,
            None => default,
        },
        None => default,
    }
}

/// Whether the two strings hold the same characters.
fn string_eq(a: &str, b: &str) -> (r: bool)
    ensures
        r == (a@ == b@),
{
    let n = a.unicode_len();
    let m = b.unicode_len();
    if n != m {
        return false;
    }
    let mut i: usize = 0;
    while i < n
        invariant
            n == a@.len(),
            m == b@.len(),
            n == m,
            i <= n,
            forall|j: int| 0 <= j < i ==> a@[j] == b@[j],
        decreases n - i,
    {
        if a.get_char(i) != b.get_char(i) {
            return false;
        }
        i = i + 1;
    }
    assert(a@ =~= b@);
    true
}

} // verus!
