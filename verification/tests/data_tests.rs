use minerscan::data::{
    resolve_commodities_path, resolve_trade_locations_path, DatasetFile,
    is_mineral, normalize_name, refinery_locations, stable_negative_id, MineralProfile,
    ScUnpackedCatalog, ScUnpackedCommodity, ScUnpackedCommodityTradeLocations,
    ScUnpackedTradeLocation,
};

#[test]
fn normalizes_raw_names() {
    assert_eq!(normalize_name("Bexalite (Raw)"), "bexalite");
    assert_eq!(normalize_name("Riccite (Ore)"), "riccite");
}

#[test]
fn accepts_mineral_groups() {
    let commodity = ScUnpackedCommodity {
        commodity_groups: vec!["Raw_Minerals".to_owned()],
        ..Default::default()
    };
    assert!(is_mineral(&commodity));
}

#[test]
fn rejects_other_groups() {
    let commodity = ScUnpackedCommodity {
        commodity_groups: vec!["Food".to_owned(), "Gas".to_owned()],
        ..Default::default()
    };
    assert!(!is_mineral(&commodity));
}

#[test]
fn quantainium_spelling_is_corrected() {
    assert_eq!(normalize_name("  Quantainium (Raw) "), "quantanium");
}

#[test]
fn stable_ids_are_fnv_based_and_negative() {
    // FNV-1a of the empty string is 0xcbf29ce484222325; masked to 62 bits.
    assert_eq!(stable_negative_id(""), -((0xcbf29ce484222325_u64 & 0x3fff_ffff_ffff_ffff) as i64));
    assert!(stable_negative_id("abc") < 0);
    assert_eq!(stable_negative_id("abc"), stable_negative_id("abc"));
    assert_ne!(stable_negative_id("abc"), stable_negative_id("abd"));
}

fn loc(uuid: &str, class: &str, name: Option<&str>) -> ScUnpackedTradeLocation {
    ScUnpackedTradeLocation {
        uuid: uuid.to_owned(),
        class_name: class.to_owned(),
        display_name: name.map(str::to_owned),
    }
}

#[test]
fn refinery_stations_come_from_raw_rows_only() {
    let rows = vec![
        ScUnpackedCommodityTradeLocations {
            commodity_key: "Raw_Bexalite".to_owned(),
            commodity_name: "Bexalite (Raw)".to_owned(),
            sold_at: vec![
                loc("u2", "x", Some("ARC-L4 Faint Glen Station")),
                loc("u3", "x", Some("Area18")),
                loc("u4", "x", Some("   ")),
            ],
            bought_at: vec![loc("u1", "Refinery_Deck", Some("Zeta Outpost")), loc("u2", "x", Some("Other Name Station"))],
        },
        ScUnpackedCommodityTradeLocations {
            commodity_key: "Bexalite".to_owned(),
            commodity_name: "Bexalite".to_owned(),
            sold_at: vec![loc("u9", "x", Some("Alpha Station"))],
            bought_at: vec![],
        },
        ScUnpackedCommodityTradeLocations {
            commodity_key: "Iron".to_owned(),
            commodity_name: "Iron (Ore)".to_owned(),
            sold_at: vec![loc("u5", "x", Some("levski")), loc("u6", "x", Some("Baijini Gateway"))],
            bought_at: vec![],
        },
    ];
    let found = refinery_locations(&rows);
    let names: Vec<&str> = found.iter().map(|r| r.location.as_str()).collect();
    assert_eq!(
        names,
        vec!["ARC-L4 Faint Glen Station", "Baijini Gateway", "levski", "Zeta Outpost"]
    );
    assert_eq!(found[0].stable_id, stable_negative_id("u2"));
    assert_eq!(found[3].stable_id, stable_negative_id("u1"));
}

#[test]
fn equal_station_names_are_ordered_by_uuid() {
    let rows = vec![ScUnpackedCommodityTradeLocations {
        commodity_key: "Ore_Iron".to_owned(),
        commodity_name: "Iron".to_owned(),
        sold_at: vec![loc("b", "x", Some("Port Station")), loc("a", "RefineryDeck", Some("PORT STATION"))],
        bought_at: vec![],
    }];
    let found = refinery_locations(&rows);
    let names: Vec<&str> = found.iter().map(|r| r.location.as_str()).collect();
    assert_eq!(names, vec!["PORT STATION", "Port Station"]);
}

fn commodity(uuid: &str, key: &str, name: &str, groups: &[&str]) -> ScUnpackedCommodity {
    ScUnpackedCommodity {
        uuid: uuid.to_owned(),
        key: key.to_owned(),
        name: name.to_owned(),
        commodity_groups: groups.iter().map(|g| (*g).to_owned()).collect(),
        ..Default::default()
    }
}

#[test]
fn catalog_counts_minerals_and_builds_profiles() {
    let mut raw = commodity("r1", "Raw_Bexalite", "Bexalite (Raw)", &["Raw_Minerals"]);
    raw.refined_version_uuid = Some("b1".to_owned());
    raw.refined_version_name = Some("Bexalite".to_owned());
    let refined = commodity("b1", "Bexalite", "Bexalite", &["Mineral"]);
    let food = commodity("f1", "Food", "Bexalite Bar", &["Food"]);
    let catalog = ScUnpackedCatalog {
        source_path: String::new(),
        commodities: vec![raw, refined, food],
    };
    assert_eq!(catalog.mineral_count(), 2);
    let profile: MineralProfile = catalog.profile_for_name("bexalite").expect("profile");
    assert_eq!(profile.refined.as_ref().map(|c| c.uuid.as_str()), Some("b1"));
    assert_eq!(profile.raw.as_ref().map(|c| c.uuid.as_str()), Some("r1"));
    assert!(catalog.profile_for_name("iron").is_none());
}

#[test]
fn dataset_files_are_found_by_name_or_location() {
    assert_eq!(resolve_commodities_path(true, Some("Commodities.JSON"), false, false), Some(DatasetFile::Source));
    assert_eq!(resolve_commodities_path(true, Some("other.json"), true, true), None);
    assert_eq!(resolve_commodities_path(false, Some("dir"), true, true), Some(DatasetFile::InResources));
    assert_eq!(resolve_commodities_path(false, None, false, true), Some(DatasetFile::InSource));
    assert_eq!(resolve_commodities_path(false, None, false, false), None);
    assert_eq!(
        resolve_trade_locations_path(true, Some("commodity_trade_locations.json"), false, false),
        Some(DatasetFile::Source)
    );
    assert_eq!(resolve_trade_locations_path(true, Some("commodities.json"), false, false), None);
}
