use minerscan::enrichment::{
    best_ranked_methods, normalize_name, percent_encode_query, quote_candidates, EnrichmentRequests,
    MineralIdentity, RefiningMethod,
};
use minerscan::event_log::EventLogger;
use minerscan::hotkeys::{parse_binding, plan_rebind, settle_rebind, Binding, HotkeyBindings};
use minerscan::models::{CaptureRegion, SignatureCategory, SignatureDefinition};
use minerscan::provider_cache::ProviderCache;
use minerscan::report::{data_uri, MediaInfo};
use minerscan::scanner::{
    apply_saved_flags, log_field, log_row, move_region, potential_candidate,
    sort_definitions_by_name, LogEventKind,
};

fn target(id: &str, name: &str, base: u32, enabled: bool) -> SignatureDefinition {
    SignatureDefinition {
        id: id.to_owned(),
        canonical_name: name.to_owned(),
        category: SignatureCategory::Resource,
        base_signature: base,
        multiplicative: true,
        enabled,
        source: "test".into(),
        game_version: "test".into(),
    }
}

fn method(code: &str, yield_rating: i64, cost_rating: i64, speed_rating: i64) -> RefiningMethod {
    RefiningMethod {
        code: code.to_owned(),
        name: code.to_owned(),
        yield_rating,
        cost_rating,
        speed_rating,
    }
}

fn media(source: &str, extract: Option<&str>) -> MediaInfo {
    MediaInfo {
        source: source.to_owned(),
        page_url: None,
        image_url: None,
        image_bytes: None,
        extract: extract.map(str::to_owned),
    }
}

#[test]
fn normalized_names_are_lower_trimmed_and_stable() {
    let once = normalize_name("  Quantainium (Raw) ");
    assert_eq!(once, "quantanium");
    assert_eq!(normalize_name(&once), once);
    assert_eq!(normalize_name("\tBEXALITE (Ore)\n"), "bexalite");
}

#[test]
fn percent_encoding_keeps_unreserved_and_escapes_the_rest() {
    assert_eq!(percent_encode_query("Agricium-ore_1.~"), "Agricium-ore_1.~");
    assert_eq!(percent_encode_query("a b/ü"), "a%20b%2F%C3%BC");
}

#[test]
fn folder_names_are_distinct() {
    let names = [
        ProviderCache::Uex.folder_name(),
        ProviderCache::StarCitizenTools.folder_name(),
        ProviderCache::StarCitizenWikiApi.folder_name(),
    ];
    assert_ne!(names[0], names[1]);
    assert_ne!(names[0], names[2]);
    assert_ne!(names[1], names[2]);
}

#[test]
fn capture_line_reads_back_the_sanitized_backend() {
    let mut logger = EventLogger::new("events.log".to_owned());
    logger.log_capture_backend("Desktop \"Dup\"\nline");
    let message = logger.take_pending().remove(0);
    let line = format!("[2025-01-01 10:00:00.000+01:00] {message}");
    assert_eq!(log_field(&line, "event").as_deref(), Some("CAPTURE"));
    assert_eq!(log_field(&line, "backend").as_deref(), Some("Desktop 'Dup' line"));
}

#[test]
fn requests_in_flight_are_not_repeated_until_finished() {
    let mut requests = EnrichmentRequests::default();
    assert!(requests.begin("Riccite"));
    assert!(!requests.begin("Riccite"));
    requests.finish(0);
    assert!(!requests.begin("Riccite"));
    requests.finish(1);
    assert!(requests.in_flight.is_none());
    assert!(requests.begin("Riccite"));
    assert!(requests.begin("Bexalite"));
    assert_eq!(requests.in_flight.as_deref(), Some("Bexalite"));
}

#[test]
fn move_region_at_the_bound_moves_away_from_it() {
    let region = CaptureRegion { x: i32::MAX, y: i32::MIN, width: 10, height: 10 };
    let moved = move_region(region, 100, 100, true, false, false, true);
    assert_eq!(moved.x, 90);
    assert_eq!(moved.y, 0);
}

#[test]
fn quote_candidates_prefer_the_current_release_line() {
    let versions = vec![Some("4.9.1".to_owned()), Some("4.10.0".to_owned()), None, Some("4.10".to_owned())];
    assert_eq!(quote_candidates(&versions), vec![1, 3]);
    let older = vec![Some("4.9".to_owned()), None];
    assert_eq!(quote_candidates(&older), vec![0, 1]);
    assert!(quote_candidates(&[]).is_empty());
}

#[test]
fn best_ranked_methods_follow_the_strategy() {
    let methods = vec![method("A", 3, 2, 1), method("B", 1, 1, 3), method("C", 2, 1, 3)];
    assert_eq!(best_ranked_methods(&methods, "cost"), vec![1, 2]);
    assert_eq!(best_ranked_methods(&methods, "time"), vec![1, 2]);
    assert_eq!(best_ranked_methods(&methods, "efficiency"), vec![0, 1, 2]);
    assert!(best_ranked_methods(&[], "cost").is_empty());
}

#[test]
fn potential_candidate_reports_a_disabled_target() {
    let definitions = vec![target("ric", "Riccite", 3385, false), target("bex", "Bexalite", 3600, true)];
    let found = potential_candidate(&[7200, 6770], &definitions).expect("disabled match");
    assert_eq!(found.name, "Riccite");
    assert_eq!(found.multiplier, 2);
    assert_eq!(found.observed_signature, 6770);
    assert!(potential_candidate(&[7200], &definitions).is_none());
}

#[test]
fn saved_flags_apply_and_targets_sort_by_name() {
    let mut definitions = vec![
        target("tar", "taranite", 1000, true),
        target("bex", "Bexalite", 3600, true),
        target("ag", "Agricium", 2000, false),
    ];
    apply_saved_flags(&mut definitions, &[("bex".to_owned(), false), ("ag".to_owned(), true)]);
    assert!(definitions[0].enabled);
    assert!(!definitions[1].enabled);
    assert!(definitions[2].enabled);
    let sorted = sort_definitions_by_name(definitions);
    let names: Vec<&str> = sorted.iter().map(|d| d.canonical_name.as_str()).collect();
    assert_eq!(names, vec!["Agricium", "Bexalite", "taranite"]);
}

#[test]
fn log_rows_sort_lines_into_columns() {
    let detection = log_row(
        "[t1] event=DETECTION name=\"Riccite\" category=\"Mineral\" rs=6770 multiplier=2",
    );
    assert_eq!(detection.time, "t1");
    assert_eq!(detection.event, LogEventKind::Detection);
    assert_eq!(detection.event.label(), "DETECTION");
    assert_eq!(detection.target, "Riccite");
    assert_eq!(detection.rs, "6770");
    assert_eq!(detection.count, "2");
    assert_eq!(detection.category, "Mineral");
    assert!(detection.clickable);

    let enrichment = log_row("[t2] event=ENRICHMENT name=\"Riccite\" refined_price=120 refined_location=\"Area18\"");
    assert_eq!(enrichment.event.label(), "ENRICH");
    assert_eq!(enrichment.category, "DATA");
    assert_eq!(enrichment.price, "120");
    assert_eq!(enrichment.route, "Area18");
    assert!(enrichment.clickable);

    let scanner = log_row("[t3] event=SCANNER state=running");
    assert_eq!(scanner.event, LogEventKind::Scanner);
    assert_eq!(scanner.target, "running");
    assert!(!scanner.clickable);

    let other = log_row("plain text");
    assert_eq!(other.event.label(), "INFO");
    assert_eq!(other.time, "-");
    assert_eq!(other.target, "plain text");
    assert_eq!(other.rs, "-");
}

#[test]
fn failed_rebind_rolls_back_to_the_current_bindings() {
    let hotkey = match parse_binding("ctrl+shift+F9", "scanner") {
        Ok(binding) => binding,
        Err(_) => panic!("valid hotkey"),
    };
    let current = HotkeyBindings {
        scanner: Binding::NativeNumpadEnter,
        calibration: Binding::NativeNumpadAdd,
        move_mode: Binding::NativeNumpadSubtract,
    };
    let next = HotkeyBindings { scanner: hotkey, ..current };
    let plan = plan_rebind(current, next);
    assert!(plan.release.is_empty());
    assert_eq!(plan.register.len(), 1);
    let failed = settle_rebind(next, current, false);
    assert!(failed.failed);
    assert_eq!(failed.restore.len(), 1);
    assert!(matches!(failed.in_force.scanner, Binding::Registered(_)));
    let done = settle_rebind(current, next, true);
    assert!(!done.failed);
    assert!(done.restore.is_empty());
    assert!(matches!(done.in_force.scanner, Binding::Registered(_)));
}

#[test]
fn identity_merges_keep_earlier_answers() {
    let mut identity = MineralIdentity::default();
    identity.uuid = Some("catalogue-uuid".to_owned());
    identity.record_catalogue();
    identity.merge_uex(Some("uex-uuid".to_owned()), Some("raw-uuid".to_owned()), true, vec!["w1".to_owned()]);
    assert_eq!(identity.uuid.as_deref(), Some("catalogue-uuid"));
    assert_eq!(identity.raw_uuid.as_deref(), Some("raw-uuid"));
    assert_eq!(identity.warnings.len(), 2);
    assert!(identity.warnings[0].starts_with("UEX mapped a refined commodity"));
    assert_eq!(identity.warnings[1], "w1");
    identity.merge_tools(media("tools", Some("From the tools wiki")));
    assert_eq!(identity.description.as_deref(), Some("From the tools wiki"));
    identity.merge_wiki(None, Some("From the API".to_owned()), Some(media("wiki", None)));
    assert_eq!(identity.description.as_deref(), Some("From the tools wiki"));
    assert_eq!(identity.media.as_ref().map(|m| m.source.as_str()), Some("wiki"));
    identity.merge_tools(media("tools-again", None));
    assert_eq!(identity.media.as_ref().map(|m| m.source.as_str()), Some("wiki"));
    assert_eq!(
        identity.providers_used,
        vec!["SCUnpacked", "UEX", "StarCitizen.Tools", "api.star-citizen.wiki", "StarCitizen.Tools"]
    );
}

#[test]
fn data_uri_names_gif_and_webp() {
    assert!(data_uri(b"GIF89a\x01\x00").starts_with("data:image/gif;base64,"));
    assert!(data_uri(b"RIFF\x10\x00\x00\x00WEBPVP8 ").starts_with("data:image/webp;base64,"));
}
