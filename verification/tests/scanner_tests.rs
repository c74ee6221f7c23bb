use minerscan::models::{CaptureRegion, SignatureCategory, SignatureDefinition};
use minerscan::scanner::{
    definition_match_multiplier, definition_matches_query, detection_cooldown_ms,
    first_live_detection, initial_definitions, is_duplicate_material_detection, log_field,
    log_timestamp, move_region, note_detection, sig, uex_commodity_url, DetectionMemory,
};

#[test]
fn resolves_rs_value_to_material_multiplier() {
    let definitions = initial_definitions();
    let bexalite = definitions
        .iter()
        .find(|definition| definition.canonical_name == "Bexalite")
        .expect("Bexalite seed");
    assert_eq!(definition_match_multiplier(bexalite, "7200"), Some(2));
    assert!(definition_matches_query(bexalite, "7,200"));
}

#[test]
fn target_search_supports_name_and_type() {
    let definitions = initial_definitions();
    let riccite = definitions
        .iter()
        .find(|definition| definition.canonical_name == "Riccite")
        .expect("Riccite seed");
    assert!(definition_matches_query(riccite, "ric"));
    assert!(definition_matches_query(riccite, "mineral"));
    assert!(!definition_matches_query(riccite, "7200"));
}

#[test]
fn duplicate_cooldown_suppresses_only_immediately_repeated_material() {
    let now: u64 = 10_000_000;
    let cooldown: u64 = 120 * 1000;
    assert!(is_duplicate_material_detection(
        Some("hephaestanite"),
        Some(now - 30 * 1000),
        "hephaestanite",
        cooldown,
        now,
    ));
    assert!(!is_duplicate_material_detection(
        Some("hephaestanite"),
        Some(now - 30 * 1000),
        "aluminium",
        cooldown,
        now,
    ));
    assert!(!is_duplicate_material_detection(
        Some("hephaestanite"),
        Some(now - 121 * 1000),
        "hephaestanite",
        cooldown,
        now,
    ));
}

#[test]
fn seed_table_has_every_row() {
    let definitions = initial_definitions();
    assert_eq!(definitions.len(), 29);
    let quantanium = definitions
        .iter()
        .find(|d| d.canonical_name == "Quantanium")
        .expect("Quantanium seed");
    assert_eq!(quantanium.category, SignatureCategory::Resource);
}

#[test]
fn sig_builds_a_multiplicative_seed_row() {
    let d = sig("test", "Test", SignatureCategory::Salvage, 2000, false);
    assert_eq!(d.id, "test");
    assert_eq!(d.canonical_name, "Test");
    assert_eq!(d.base_signature, 2000);
    assert!(d.multiplicative);
    assert!(!d.enabled);
}

#[test]
fn multiplier_query_rejects_non_multiples() {
    let d = sig("b", "Bexalite", SignatureCategory::Resource, 3600, true);
    assert_eq!(definition_match_multiplier(&d, "3600"), Some(1));
    assert_eq!(definition_match_multiplier(&d, "3601"), None);
    assert_eq!(definition_match_multiplier(&d, "bex"), None);
}

#[test]
fn cooldown_is_at_least_one_second() {
    assert_eq!(detection_cooldown_ms(0), 1000);
    assert_eq!(detection_cooldown_ms(120), 120_000);
    assert_eq!(detection_cooldown_ms(u64::MAX), u64::MAX);
}

#[test]
fn detection_memory_suppresses_repeats_within_cooldown() {
    let mut memory = DetectionMemory { last_key: None, last_at_ms: None };
    assert!(note_detection(&mut memory, "bexalite", 1_000, 120));
    assert_eq!(memory.last_key.as_deref(), Some("bexalite"));
    assert_eq!(memory.last_at_ms, Some(1_000));
    assert!(!note_detection(&mut memory, "bexalite", 60_000, 120));
    assert_eq!(memory.last_at_ms, Some(1_000));
    assert!(note_detection(&mut memory, "riccite", 61_000, 120));
    assert!(note_detection(&mut memory, "riccite", 61_000 + 120_000, 120));
}

#[test]
fn uex_url_uses_a_slug() {
    assert_eq!(
        uex_commodity_url(" Bexalite (Raw) "),
        "https://uexcorp.space/commodities/info/name/bexalite-raw"
    );
}

#[test]
fn log_line_fields_are_read_back() {
    let line = "[2025-01-01 10:00:00.000+01:00] event=DETECTION source=live-ocr name=\"Bexalite Ore\" rs=7200";
    assert_eq!(log_timestamp(line), "2025-01-01 10:00:00.000+01:00");
    assert_eq!(log_timestamp("no stamp"), "-");
    assert_eq!(log_field(line, "name").as_deref(), Some("Bexalite Ore"));
    assert_eq!(log_field(line, "rs").as_deref(), Some("7200"));
    assert_eq!(log_field(line, "missing"), None);
}

#[test]
fn move_mode_clamps_to_the_monitor() {
    let region = CaptureRegion { x: 0, y: 5, width: 100, height: 50 };
    let moved = move_region(region, 1920, 1080, true, false, false, true);
    assert_eq!(moved, CaptureRegion { x: 0, y: 6, width: 100, height: 50 });
    let edge = CaptureRegion { x: 1820, y: 1030, width: 100, height: 50 };
    let moved = move_region(edge, 1920, 1080, false, true, false, true);
    assert_eq!(moved, edge);
    let still = move_region(region, 1920, 1080, true, true, false, false);
    assert_eq!(still, region);
}

#[test]
fn first_live_detection_takes_the_first_matching_value() {
    let defs: Vec<SignatureDefinition> = vec![sig("r", "Riccite", SignatureCategory::Resource, 3385, true)];
    let found = first_live_detection(&[1234, 6770, 3385], &defs).expect("detection");
    assert_eq!(found.observed_signature, 6770);
    assert_eq!(found.multiplier, 2);
    assert!(first_live_detection(&[1234], &defs).is_none());
}
