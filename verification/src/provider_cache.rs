//! The on-disk cache in front of the online data providers: which cache a
//! provider uses, and what a cached fetch returns. A fresh cache entry is
//! served as it is; otherwise the provider is asked, and when that fails an
//! older entry still answers.
use vstd::prelude::*;
use vstd::utf8::{decode_utf8, encode_utf8, encode_utf8_decode_utf8, encode_utf8_valid_utf8, valid_utf8};

verus! {

/// The online providers that have a cache of their own.
#[derive(Debug, Clone, Copy, PartialEq, Eq, Structural)]
pub enum ProviderCache {
    Uex,
    StarCitizenTools,
    StarCitizenWikiApi,
}

pub open spec fn folder_name_spec(p: ProviderCache) -> Seq<char> {
    match p {
        ProviderCache::Uex => "uex"@,
        ProviderCache::StarCitizenTools => "starcitizen-tools"@,
        ProviderCache::StarCitizenWikiApi => "star-citizen-wiki-api"@,
    }
}

pub open spec fn label_spec(p: ProviderCache) -> Seq<char> {
    match p {
        ProviderCache::Uex => "UEX"@,
        ProviderCache::StarCitizenTools => "StarCitizen.Tools"@,
        ProviderCache::StarCitizenWikiApi => "api.star-citizen.wiki"@,
    }
}

/// No two providers share a cache directory: distinct providers have
/// distinct folder names.
pub proof fn lemma_folder_names_distinct(p: ProviderCache, q: ProviderCache)
    requires
        p != q,
    ensures
        folder_name_spec(p) != folder_name_spec(q),
{
    reveal_strlit("uex");
    reveal_strlit("starcitizen-tools");
    reveal_strlit("star-citizen-wiki-api");
    assert("uex"@.len() == 3);
    assert("starcitizen-tools"@[4] != "star-citizen-wiki-api"@[4]);
}

impl ProviderCache {
    /// The name of the provider's cache directory.
    pub fn folder_name(self) -> (r: &'static str)
        ensures
            r@ == folder_name_spec(self),
    {
        match self {
            ProviderCache::Uex => "uex",
            ProviderCache::StarCitizenTools => "starcitizen-tools",
            ProviderCache::StarCitizenWikiApi => "star-citizen-wiki-api",
        }
    }

    /// The provider's display name.
    pub fn label(self) -> (r: &'static str)
        ensures
            r@ == label_spec(self),
    {
        match self {
            ProviderCache::Uex => "UEX",
            ProviderCache::StarCitizenTools => "StarCitizen.Tools",
            ProviderCache::StarCitizenWikiApi => "api.star-citizen.wiki",
        }
    }
}

// ---------------------------------------------------------------------------
// Cached fetches
// ---------------------------------------------------------------------------

/// What a cached fetch of bytes produced.
#[derive(Debug)]
pub enum CachedBytes<E> {
    /// The cache entry was fresh enough and was served without asking the provider.
    Cached(Vec<u8>),
    /// The provider answered; the answer is to be stored in the cache.
    Fetched(Vec<u8>),
    /// The provider failed and the older cache entry answers instead.
    Stale(Vec<u8>),
    /// The provider failed and there was no cache entry.
    Failed(E),
}

/// The outcome of a fetch that was made, given the cache entry at hand.
pub open spec fn settle_fetch<E>(fetched: Result<Vec<u8>, E>, cached: Option<Vec<u8>>) -> CachedBytes<E> {
    match fetched {
        Ok(fresh) => CachedBytes::Fetched(fresh),
        Err(e) => match cached {
            Some(old) => CachedBytes::Stale(old),
            None => CachedBytes::Failed(e),
        },
    }
}

/// A cache entry is served without a fetch when it exists and is fresh enough.
pub open spec fn serves_cache(cached: Option<Vec<u8>>, fresh_enough: bool) -> bool {
    fresh_enough && cached is Some
}

/// Bytes from the cache or from the provider. `cached` is the cache entry
/// (if it could be read) and `fresh_enough` whether it is younger than the
/// time to live; `fetch` asks the provider and is called only when the
/// entry is not served as it is.
pub fn get_or_fetch_bytes<E, F: FnOnce() -> Result<Vec<u8>, E>>(
    cached: Option<Vec<u8>>,
    fresh_enough: bool,
    fetch: F,
) -> (r: CachedBytes<E>)
    requires
        !serves_cache(cached, fresh_enough) ==> call_requires(fetch, ()),
    ensures
        serves_cache(cached, fresh_enough) ==> r == CachedBytes::<E>::Cached(cached->0),
        !serves_cache(cached, fresh_enough) ==> exists|out: Result<Vec<u8>, E>|
            call_ensures(fetch, (), out) && r == settle_fetch(out, cached),
{
    if fresh_enough {
        match cached {
            Some(entry) => {
                return CachedBytes::Cached(entry);
            },
            None => {},
        }
    }
    let out = fetch();
    let ghost o = out;
    let r = match out {
        Ok(fresh) => CachedBytes::Fetched(fresh),
        Err(e) => match cached {
            Some(old) => CachedBytes::Stale(old),
            None => CachedBytes::Failed(e),
        },
    };
    assert(call_ensures(fetch, (), o) && r == settle_fetch(o, cached));
    r
}

/// `String::from_utf8`. Trusted: the standard library documents that it
/// returns the string when the bytes are valid UTF-8 and an error otherwise;
/// the string's characters are the UTF-8 decoding of the bytes.
#[verifier::external_body]
fn utf8_to_string(bytes: Vec<u8>) -> (r: Option<String>)
    ensures
        r is Some <==> valid_utf8(bytes@),
        r is Some ==> r->0@ == decode_utf8(bytes@),
{
    String::from_utf8(bytes).ok()
}

/// The text of UTF-8 bytes, or `None` when they are not valid UTF-8.
pub fn decode_text(bytes: Vec<u8>) -> (r: Option<String>)
    ensures
        r is Some <==> valid_utf8(bytes@),
        r is Some ==> r->0@ == decode_utf8(bytes@),
{
    utf8_to_string(bytes)
}

/// The UTF-8 bytes of a string.
pub fn text_bytes(s: &str) -> (r: Vec<u8>)
    ensures
        r@ == encode_utf8(s@),
{
    let b = s.as_bytes();
    let mut out: Vec<u8> = Vec::new();
    let mut i: usize = 0;
    while i < b.len()
        invariant
            i <= b.len(),
            b@ == encode_utf8(s@),
            out@ == b@.take(i as int),
        decreases b.len() - i,
    {
        out.push(b[i]);
        i += 1;
        assert(out@ =~= b@.take(i as int));
    }
    assert(b@.take(b.len() as int) == b@);
    out
}

/// Why a cached text could not be had.
#[derive(Debug)]
pub enum CachedTextError<E> {
    /// The provider failed and there was no cache entry.
    Fetch(E),
    /// The bytes at hand (from the cache) are not valid UTF-8.
    InvalidUtf8,
}

/// The result of a cached text fetch, and the bytes to store in the cache
/// when the provider answered.
#[derive(Debug)]
pub struct CachedText<E> {
    pub result: Result<String, CachedTextError<E>>,
    pub store: Option<Vec<u8>>,
}

/// The text outcome of served or fetched bytes.
pub open spec fn text_result_ok<E>(r: CachedText<E>, bytes: Seq<u8>) -> bool {
    if valid_utf8(bytes) {
        r.result is Ok && r.result->Ok_0@ == decode_utf8(bytes)
    } else {
        r.result is Err && r.result->Err_0 is InvalidUtf8
    }
}

/// What a served cache entry gives: nothing to store, and the entry's text.
pub open spec fn text_cache_serves<E>(r: CachedText<E>, entry: Vec<u8>) -> bool {
    r.store is None && text_result_ok(r, entry@)
}

/// What a fetch that was made gives, for the provider's answer `out` and the
/// cache entry at hand: the answer's text and its UTF-8 bytes to store, or
/// else the older entry's text, or else the provider's error.
pub open spec fn text_fetch_settles<E>(
    r: CachedText<E>,
    cached: Option<Vec<u8>>,
    out: Result<String, E>,
) -> bool {
    match out {
        Ok(text) => r.store is Some && r.store->0@ == encode_utf8(text@) && r.result is Ok
            && r.result->Ok_0@ == text@,
        Err(e) => r.store is None && match cached {
            Some(old) => text_result_ok(r, old@),
            None => r.result == Err::<String, CachedTextError<E>>(CachedTextError::Fetch(e)),
        },
    }
}

/// Text from the cache or from the provider, as `get_or_fetch_bytes` decides
/// over the text's UTF-8 bytes; bytes that are not valid UTF-8 are an error.
pub fn get_or_fetch_text<E, F: FnOnce() -> Result<String, E>>(
    cached: Option<Vec<u8>>,
    fresh_enough: bool,
    fetch: F,
) -> (r: CachedText<E>)
    requires
        !serves_cache(cached, fresh_enough) ==> call_requires(fetch, ()),
    ensures
        serves_cache(cached, fresh_enough) ==> text_cache_serves(r, cached->0),
        !serves_cache(cached, fresh_enough) ==> exists|out: Result<String, E>|
            #[trigger] call_ensures(fetch, (), out) && text_fetch_settles(r, cached, out),
{
    if fresh_enough {
        match cached {
            Some(entry) => {
                let text = decode_text(entry);
                return match text {
                    Some(t) => CachedText { result: Ok(t), store: None },
                    None => CachedText { result: Err(CachedTextError::InvalidUtf8), store: None },
                };
            },
            None => {},
        }
    }
    let out = fetch();
    let ghost o = out;
    let r = match out {
        Ok(text) => {
            let bytes = text_bytes(text.as_str());
            proof {
                encode_utf8_decode_utf8(text@);
            }
            CachedText { result: Ok(text), store: Some(bytes) }
        },
        Err(e) => match cached {
            Some(old) => {
                let decoded = decode_text(old);
                match decoded {
                    Some(t) => CachedText { result: Ok(t), store: None },
                    None => CachedText { result: Err(CachedTextError::InvalidUtf8), store: None },
                }
            },
            None => CachedText { result: Err(CachedTextError::Fetch(e)), store: None },
        },
    };
    assert(call_ensures(fetch, (), o) && text_fetch_settles(r, cached, o));
    r
}

// ---------------------------------------------------------------------------
// Laws
// ---------------------------------------------------------------------------

/// A stale cache entry remains an offline fallback: whenever a cache entry
/// exists, a cached fetch of bytes never ends in a failure.
pub proof fn law_cache_entry_prevents_failure<E>(
    cached: Option<Vec<u8>>,
    fetched: Result<Vec<u8>, E>,
)
    requires
        cached is Some,
    ensures
        !(settle_fetch(fetched, cached) is Failed),
{
}

/// A provider failure surfaces only when there is no cache entry, and then
/// as the provider's own error.
pub proof fn law_failure_without_cache_is_provider_error<E>(e: E)
    ensures
        settle_fetch(Err::<Vec<u8>, E>(e), None) == CachedBytes::<E>::Failed(e),
{
}

/// Text that the provider returns reads back unchanged from the bytes that
/// are stored for it.
pub proof fn law_stored_text_reads_back(text: Seq<char>)
    ensures
        valid_utf8(encode_utf8(text)),
        decode_utf8(encode_utf8(text)) == text,
{
    encode_utf8_valid_utf8(text);
    encode_utf8_decode_utf8(text);
}

/// Cached text reads back unchanged: when the provider answers `text`, the
/// bytes stored for it, served later as a fresh cache entry, give `text`
/// again.
pub proof fn law_cached_text_round_trip<E>(
    cached: Option<Vec<u8>>,
    text: String,
    first: CachedText<E>,
    second: CachedText<E>,
)
    requires
        text_fetch_settles(first, cached, Ok(text)),
        text_cache_serves(second, first.store->0),
    ensures
        first.result is Ok && first.result->Ok_0@ == text@,
        serves_cache(first.store, true),
        second.result is Ok && second.result->Ok_0@ == text@,
{
    encode_utf8_valid_utf8(text@);
    encode_utf8_decode_utf8(text@);
}

} // verus!
