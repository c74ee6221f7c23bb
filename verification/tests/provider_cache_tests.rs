use minerscan::provider_cache::{
    decode_text, get_or_fetch_bytes, get_or_fetch_text, text_bytes, CachedBytes, CachedTextError,
    ProviderCache,
};

#[test]
fn provider_folders_are_stable() {
    assert_eq!(ProviderCache::Uex.folder_name(), "uex");
    assert_eq!(
        ProviderCache::StarCitizenTools.folder_name(),
        "starcitizen-tools"
    );
    assert_eq!(
        ProviderCache::StarCitizenWikiApi.folder_name(),
        "star-citizen-wiki-api"
    );
}

#[test]
fn provider_labels() {
    assert_eq!(ProviderCache::Uex.label(), "UEX");
    assert_eq!(ProviderCache::StarCitizenTools.label(), "StarCitizen.Tools");
    assert_eq!(ProviderCache::StarCitizenWikiApi.label(), "api.star-citizen.wiki");
}

#[test]
fn fresh_cache_is_served_without_fetching() {
    let r: CachedBytes<String> = get_or_fetch_bytes(Some(vec![1, 2]), true, || -> Result<Vec<u8>, String> {
        panic!("fetch must not run")
    });
    assert!(matches!(r, CachedBytes::Cached(ref b) if b == &vec![1, 2]));
}

#[test]
fn stale_cache_is_the_offline_fallback() {
    let r = get_or_fetch_bytes(Some(vec![7]), false, || Err::<Vec<u8>, String>("offline".to_owned()));
    assert!(matches!(r, CachedBytes::Stale(ref b) if b == &vec![7]));
    let r = get_or_fetch_bytes(None, true, || Err::<Vec<u8>, String>("offline".to_owned()));
    assert!(matches!(r, CachedBytes::Failed(ref e) if e == "offline"));
    let r = get_or_fetch_bytes(Some(vec![7]), false, || Ok::<Vec<u8>, String>(vec![9]));
    assert!(matches!(r, CachedBytes::Fetched(ref b) if b == &vec![9]));
}

#[test]
fn text_round_trips_through_the_cache() {
    let r = get_or_fetch_text(None, false, || Ok::<String, String>("Grüße".to_owned()));
    assert_eq!(r.result.as_ref().ok().map(String::as_str), Some("Grüße"));
    assert_eq!(r.store, Some("Grüße".as_bytes().to_vec()));
    let cached = get_or_fetch_text(r.store.clone(), true, || Err::<String, String>("unused".to_owned()));
    assert_eq!(cached.result.as_ref().ok().map(String::as_str), Some("Grüße"));
    assert!(cached.store.is_none());
}

#[test]
fn invalid_cached_bytes_are_an_error() {
    let r = get_or_fetch_text(Some(vec![0xff, 0xfe]), true, || Err::<String, String>("unused".to_owned()));
    assert!(matches!(r.result, Err(CachedTextError::InvalidUtf8)));
    let r = get_or_fetch_text(None, false, || Err::<String, String>("down".to_owned()));
    assert!(matches!(r.result, Err(CachedTextError::Fetch(ref e)) if e == "down"));
}

#[test]
fn utf8_decoding() {
    assert_eq!(decode_text(vec![0x68, 0x69]), Some("hi".to_owned()));
    assert_eq!(decode_text(vec![0xc3]), None);
    assert_eq!(text_bytes("é"), vec![0xc3, 0xa9]);
}
