//! Bookkeeping for the on-disk cache of API responses.
//!
//! The cache stores, for each URL, the response body under the URL itself
//! and the time it was fetched under `ts:` followed by the URL. A fresh
//! timestamp without a body records that the URL gave an error.
use crate::text::concat;
use vstd::prelude::*;

verus! {

/// How long a cache entry stays fresh, in seconds (one day).
pub const CACHE_EXPIRE_SECS: u64 = 86400;

/// A cache entry as read back.
pub enum Cached<T> {
    /// We're caching actual contents.
    Valid(T),
    /// The cache entry is missing or expired.
    Invalid,
    /// The cache entry is present and fresh, but represents an error.
    Error,
}

/// Why the cache could not serve a URL.
pub enum WebcacheError {
    /// Error accessing cache (the storage error's description).
    Cache(String),
    /// Failed to load URL (the client error's description).
    Web(String),
}

impl WebcacheError {
    /// The error's message.
    pub fn message(&self) -> (s: &'static str)
        ensures
            s@ == match self {
                WebcacheError::Cache(_) => "error accessing cache"@,
                WebcacheError::Web(_) => "failed to load URL"@,
            },
    {
        match self {
            WebcacheError::Cache(_) => "error accessing cache",
            WebcacheError::Web(_) => "failed to load URL",
        }
    }
}

/// The key under which the fetch time of `url` is stored.
pub open spec fn ts_key_spec(url: Seq<char>) -> Seq<char> {
    "ts:"@ + url
}

/// The key under which the fetch time of `url` is stored.
pub fn ts_key(url: &str) -> (k: String)
    ensures
        k@ == ts_key_spec(url@),
{
    concat("ts:", url)
}

/// The number that 8 bytes spell in little-endian order.
pub open spec fn le_value(b: Seq<u8>) -> nat
    decreases b.len(),
{
    if b.len() == 0 {
        0
    } else {
        b[0] as nat + 256 * le_value(b.drop_first())
    }
}

/// 256 to the power `i`.
pub open spec fn pow256(i: int) -> nat
    decreases i,
{
    if i <= 0 {
        1
    } else {
        256 * pow256(i - 1)
    }
}

/// Decodes a timestamp (seconds from the epoch) stored as 8 little-endian
/// bytes.
pub fn time_from_bytes(data: &[u8]) -> (secs: u64)
    requires
        data.len() == 8,
    ensures
        secs as nat == le_value(data@),
{
    let mut v: u64 = 0;
    let mut i: usize = 8;
    proof {
        assert(data@.skip(8) =~= Seq::<u8>::empty());
    }
    while i > 0
        invariant
            i <= 8,
            data.len() == 8,
            v as nat == le_value(data@.skip(i as int)),
            v < pow256(8 - i),
        decreases i,
    {
        i = i - 1;
        proof {
            assert(data@.skip(i as int).drop_first() == data@.skip(i + 1));
            lemma_pow256_bound(8 - i);
            assert(v * 256 + data@[i as int] < pow256(8 - i)) by (nonlinear_arith)
                requires
                    v < pow256(8 - (i + 1)),
                    pow256(8 - i) == 256 * pow256(8 - (i + 1)),
                    data@[i as int] < 256,
            ;
        }
        v = v * 256 + data[i] as u64;
    }
    assert(data@.skip(0) == data@);
    v
}

proof fn lemma_pow256_bound(i: int)
    requires
        0 < i <= 8,
    ensures
        pow256(i) == 256 * pow256(i - 1),
        pow256(i) <= 0x1_0000_0000_0000_0000,
{
    reveal_with_fuel(pow256, 9);
    assert(pow256(8) == 0x1_0000_0000_0000_0000);
    assert(pow256(7) == 0x100_0000_0000_0000);
}

/// Encodes a timestamp (seconds from the epoch) for storage.
pub fn time_to_bytes(secs: u64) -> (b: Vec<u8>)
    ensures
        b@.len() == 8,
        le_value(b@) == secs as nat,
{
    let mut b: Vec<u8> = Vec::new();
    let mut rest: u64 = secs;
    assert(le_value(b@) == 0);
    assert(pow256(0) == 1);
    while b.len() < 8
        invariant
            b.len() <= 8,
            secs as nat == le_value(b@) + pow256(b.len() as int) * rest,
        decreases 8 - b.len(),
    {
        let byte = (rest % 256) as u8;
        proof {
            lemma_le_push(b@, byte);
            lemma_pow256_bound(b.len() + 1);
            assert(pow256(b.len() as int) * rest == pow256(b.len() as int) * (rest % 256)
                + pow256(b.len() + 1) * (rest / 256)) by (nonlinear_arith)
                requires
                    pow256(b.len() + 1) == 256 * pow256(b.len() as int),
            ;
        }
        b.push(byte);
        rest = rest / 256;
    }
    proof {
        lemma_pow256_bound(8);
        reveal_with_fuel(pow256, 9);
        assert(pow256(8) == 0x1_0000_0000_0000_0000);
        if rest > 0 {
            assert(pow256(8) * rest >= pow256(8)) by (nonlinear_arith)
                requires
                    rest > 0,
            ;
        }
    }
    b
}

proof fn lemma_le_push(b: Seq<u8>, x: u8)
    ensures
        le_value(b.push(x)) == le_value(b) + pow256(b.len() as int) * x,
    decreases b.len(),
{
    if b.len() == 0 {
        assert(b.push(x).drop_first() =~= Seq::<u8>::empty());
        assert(le_value(Seq::<u8>::empty()) == 0);
        assert(b.push(x)[0] == x);
        assert(le_value(b) == 0);
        assert(pow256(0) == 1);
    } else {
        lemma_le_push(b.drop_first(), x);
        assert(b.push(x).drop_first() =~= b.drop_first().push(x));
        assert(b.push(x)[0] == b[0]);
        assert(le_value(b.push(x)) == b[0] as nat + 256 * le_value(b.drop_first().push(x)));
        assert(pow256(b.len() as int) == 256 * pow256(b.len() - 1));
        assert(256 * (le_value(b.drop_first()) + pow256(b.len() - 1) * x) == 256 * le_value(
            b.drop_first(),
        ) + (256 * pow256(b.len() - 1)) * x) by (nonlinear_arith);
    }
}


/// Whether an entry fetched at `stored` (whole seconds from the epoch) is
/// older than [`CACHE_EXPIRE_SECS`] at the time `now_secs` seconds and
/// `now_nanos` nanoseconds.
pub open spec fn expired_spec(stored: u64, now_secs: u64, now_nanos: u32) -> bool {
    now_secs - stored > CACHE_EXPIRE_SECS || (now_secs - stored == CACHE_EXPIRE_SECS && now_nanos
        > 0)
}

/// Whether a cache entry is older than a day.
pub fn is_expired(stored: u64, now_secs: u64, now_nanos: u32) -> (b: bool)
    requires
        stored <= now_secs,
    ensures
        b == expired_spec(stored, now_secs, now_nanos),
{
    let age = now_secs - stored;
    age > CACHE_EXPIRE_SECS || (age == CACHE_EXPIRE_SECS && now_nanos > 0)
}

/// What the timestamp of a URL says about its cache entry.
pub enum Freshness {
    /// No timestamp: a cold miss.
    Missing,
    /// The entry is older than a day: it is removed.
    Expired,
    /// The entry is fresh: its body (or its absence) stands.
    Fresh,
}

/// What a stored timestamp says at a given time.
pub open spec fn freshness_spec(ts: Option<Seq<u8>>, now_secs: u64, now_nanos: u32) -> Freshness {
    match ts {
        None => Freshness::Missing,
        Some(d) => if expired_spec(le_value(d) as u64, now_secs, now_nanos) {
            Freshness::Expired
        } else {
            Freshness::Fresh
        },
    }
}

/// Judges the timestamp of a cache entry against the current time.
pub fn freshness(ts_data: Option<&[u8]>, now_secs: u64, now_nanos: u32) -> (f: Freshness)
    requires
        ts_data matches Some(d) ==> d.len() == 8 && le_value(d@) <= now_secs,
    ensures
        f == freshness_spec(
            match ts_data {
                Some(d) => Some(d@),
                None => None,
            },
            now_secs,
            now_nanos,
        ),
{
    match ts_data {
        None => Freshness::Missing,
        Some(d) => {
            let stored = time_from_bytes(d);
            if is_expired(stored, now_secs, now_nanos) {
                Freshness::Expired
            } else {
                Freshness::Fresh
            }
        },
    }
}

/// The entry that a lookup gives: the body of a fresh entry (or an error
/// where a fresh entry has no body); `Invalid` for a missing or expired one.
pub open spec fn lookup_spec(f: Freshness, body: Option<Vec<u8>>) -> Cached<Vec<u8>> {
    match f {
        Freshness::Fresh => match body {
            Some(b) => Cached::Valid(b),
            None => Cached::Error,
        },
        _ => Cached::Invalid,
    }
}

/// The entry that a lookup gives (see [`lookup_spec`]).
pub fn lookup_result(f: Freshness, body: Option<Vec<u8>>) -> (c: Cached<Vec<u8>>)
    ensures
        c == lookup_spec(f, body),
{
    match f {
        Freshness::Fresh => match body {
            Some(b) => Cached::Valid(b),
            None => Cached::Error,
        },
        _ => Cached::Invalid,
    }
}

/// What `fetch` does after looking in the cache.
pub enum FetchPlan {
    /// Answer with the cached body.
    Hit(Vec<u8>),
    /// The URL is known to give an error: answer that nothing was found.
    KnownMissing,
    /// Load the URL.
    Download,
}

/// Decides how to answer a request from the cache.
pub fn fetch_plan(cached: Cached<Vec<u8>>) -> (p: FetchPlan)
    ensures
        match cached {
            Cached::Valid(b) => p == FetchPlan::Hit(b),
            Cached::Error => p is KnownMissing,
            Cached::Invalid => p is Download,
        },
{
    match cached {
        Cached::Valid(b) => FetchPlan::Hit(b),
        Cached::Error => FetchPlan::KnownMissing,
        Cached::Invalid => FetchPlan::Download,
    }
}

/// The HTTP status `200 OK`.
pub const STATUS_OK: u16 = 200;

/// What to store and answer after loading a URL: the body on `200 OK`, an
/// error entry and no answer otherwise.
pub fn download_result(status: u16, body: Vec<u8>) -> (r: (Cached<Vec<u8>>, Option<Vec<u8>>))
    ensures
        status == STATUS_OK ==> r.0 == Cached::Valid(body) && (r.1 matches Some(c) && c@
            == body@),
        status != STATUS_OK ==> r.0 is Error && r.1 is None,
{
    if status == STATUS_OK {
        let copy = body.clone();
        (Cached::Valid(body), Some(copy))
    } else {
        (Cached::Error, None)
    }
}

/// A write to the cache.
pub enum CacheWrite {
    /// Store this body under the URL.
    Insert(Vec<u8>),
    /// Remove the body: the URL gave an error.
    Remove,
}

/// How an entry is written: a body is inserted, an error removes the body.
pub open spec fn write_spec(body: Cached<Vec<u8>>) -> CacheWrite {
    match body {
        Cached::Valid(b) => CacheWrite::Insert(b),
        _ => CacheWrite::Remove,
    }
}

/// The body that a write leaves under the URL.
pub open spec fn stored_body(w: CacheWrite) -> Option<Vec<u8>> {
    match w {
        CacheWrite::Insert(b) => Some(b),
        CacheWrite::Remove => None,
    }
}

/// How an entry is written (see [`write_spec`]); writing `Invalid` is not
/// supported.
pub fn cache_write(body: Cached<Vec<u8>>) -> (w: CacheWrite)
    requires
        !(body is Invalid),
    ensures
        w == write_spec(body),
{
    match body {
        Cached::Valid(b) => CacheWrite::Insert(b),
        _ => CacheWrite::Remove,
    }
}

/// The URL of a `ts:` key: the key without its first 3 bytes.
pub fn url_of_ts_key(key: &[u8]) -> (url: Vec<u8>)
    requires
        key.len() >= 3,
    ensures
        url@ == key@.skip(3),
{
    let mut v: Vec<u8> = Vec::new();
    let mut i: usize = 3;
    while i < key.len()
        invariant
            3 <= i <= key.len(),
            v@ == key@.subrange(3, i as int),
        decreases key.len() - i,
    {
        v.push(key[i]);
        i = i + 1;
    }
    v
}


/// Eight stored bytes are the only bytes that decode to their timestamp:
/// two byte strings of the same length with the same little-endian value
/// are equal. So a timestamp written by [`time_to_bytes`] reads back
/// unchanged through [`time_from_bytes`], and bytes read and written back
/// are the bytes that were stored.
pub proof fn law_timestamp_bytes_unique(a: Seq<u8>, b: Seq<u8>)
    requires
        a.len() == b.len(),
        le_value(a) == le_value(b),
    ensures
        a == b,
    decreases a.len(),
{
    if a.len() > 0 {
        let ra = le_value(a.drop_first());
        let rb = le_value(b.drop_first());
        assert(a[0] as nat + 256 * ra == b[0] as nat + 256 * rb);
        assert(a[0] == b[0] && ra == rb) by (nonlinear_arith)
            requires
                a[0] as nat + 256 * ra == b[0] as nat + 256 * rb,
                a[0] < 256,
                b[0] < 256,
        ;
        law_timestamp_bytes_unique(a.drop_first(), b.drop_first());
        assert(a =~= seq![a[0]] + a.drop_first());
        assert(b =~= seq![b[0]] + b.drop_first());
    } else {
        assert(a =~= b);
    }
}

/// The URL that a cache scan reads back from the bytes of a timestamp key
/// (the key without its first 3 bytes) is the URL the key was made for.
pub proof fn law_ts_key_gives_back_url(url: Seq<char>)
    ensures
        vstd::utf8::encode_utf8(ts_key_spec(url)).len() >= 3,
        vstd::utf8::encode_utf8(ts_key_spec(url)).skip(3) == vstd::utf8::encode_utf8(url),
{
    reveal_strlit("ts:");
    let k = ts_key_spec(url);
    assert(k.drop_first().drop_first().drop_first() =~= url);
    let e3 = vstd::utf8::encode_utf8(k.drop_first().drop_first().drop_first());
    let e2 = vstd::utf8::encode_utf8(k.drop_first().drop_first());
    let e1 = vstd::utf8::encode_utf8(k.drop_first());
    let e0 = vstd::utf8::encode_utf8(k);
    assert(e2 == vstd::utf8::encode_scalar(k[2] as u32) + e3);
    assert(e1 == vstd::utf8::encode_scalar(k[1] as u32) + e2);
    assert(e0 == vstd::utf8::encode_scalar(k[0] as u32) + e1);
    assert(vstd::utf8::encode_scalar(k[0] as u32).len() == 1);
    assert(vstd::utf8::encode_scalar(k[1] as u32).len() == 1);
    assert(vstd::utf8::encode_scalar(k[2] as u32).len() == 1);
    assert(e0.skip(3) =~= e3);
}


/// What a read gives back of a write: an entry written (a body, or an
/// error) with the time of writing is read back as what was written until a
/// day has passed, and as invalid afterwards.
pub proof fn law_read_back_write(
    written: Cached<Vec<u8>>,
    ts: Seq<u8>,
    written_at: u64,
    now_secs: u64,
    now_nanos: u32,
)
    requires
        !(written is Invalid),
        ts.len() == 8,
        le_value(ts) == written_at,
        written_at <= now_secs,
    ensures
        lookup_spec(freshness_spec(Some(ts), now_secs, now_nanos), stored_body(write_spec(written)))
            == if expired_spec(written_at, now_secs, now_nanos) {
            Cached::Invalid
        } else {
            written
        },
{
}

} // verus!
