use minerscan::data::{MineralProfile, ScUnpackedCommodity, ScUnpackedRefineryLocation};
use minerscan::enrichment::{
    EnrichmentRequests,
    first_step, next_step, EnrichmentStep, ProviderSwitches,
    load_refining_methods,
    check_enrichment, default_refining_methods, first_non_empty, is_raw_name, map_uex_commodity,
    merge_refining_methods, non_empty, normalize_name, percent_encode_query, profile_summary,
    provider_url, refinery_deferred_note, refinery_material_key, refinery_options,
    refined_market_deferred_note, reselect_refinery, sort_refining_methods, tools_page_url,
    tools_query_url, uex_prices_url, yield_row_key, EnrichmentProgress, RefineryOption,
    RefineryYieldRow, RefiningMethodRow, UexCommodity,
};

#[test]
fn normalizes_uex_raw_names() {
    assert_eq!(normalize_name("Bexalite (Raw)"), "bexalite");
    assert_eq!(normalize_name("Riccite (Ore)"), "riccite");
}

#[test]
fn local_method_baseline_is_complete() {
    let methods = default_refining_methods();
    assert_eq!(methods.len(), 9);
    assert!(methods.iter().any(|m| m.code == "DIN"));
    assert!(methods.iter().any(|m| m.code == "GAS"));
}

#[test]
fn url_encoding_handles_spaces() {
    assert_eq!(percent_encode_query("Bexalite Raw"), "Bexalite%20Raw");
}

#[test]
fn url_encoding_escapes_reserved_and_non_ascii_bytes() {
    assert_eq!(percent_encode_query("a/b~c"), "a%2Fb~c");
    assert_eq!(percent_encode_query("é"), "%C3%A9");
}

#[test]
fn small_text_helpers() {
    assert_eq!(refinery_material_key("Iron (Ore)"), "iron");
    assert!(is_raw_name("Iron (Ore)"));
    assert!(!is_raw_name("Iron"));
    assert_eq!(non_empty("  x "), Some("x".to_owned()));
    assert_eq!(non_empty("   "), None);
    assert_eq!(
        first_non_empty(&[None, Some("b".to_owned()), Some("c".to_owned())]),
        Some("b".to_owned())
    );
}

fn row(code: &str, name: Option<&str>, y: Option<i64>, c: Option<i64>, s: Option<i64>) -> RefiningMethodRow {
    RefiningMethodRow {
        code: Some(code.to_owned()),
        name: name.map(str::to_owned),
        rating_yield: y,
        rating_cost: c,
        rating_speed: s,
    }
}

#[test]
fn method_rows_update_and_extend_the_baseline() {
    let mut methods = default_refining_methods();
    merge_refining_methods(
        &mut methods,
        &[
            row("din", Some("Dinyx"), None, Some(2), None),
            row("NEW", None, None, None, None),
        ],
    );
    let din = methods.iter().find(|m| m.code == "DIN").expect("Dinyx");
    assert_eq!(din.name, "Dinyx");
    assert_eq!((din.yield_rating, din.cost_rating, din.speed_rating), (3, 2, 1));
    let new = methods.iter().find(|m| m.code == "NEW").expect("new method");
    assert_eq!(new.name, "Unknown method");
    assert_eq!((new.yield_rating, new.cost_rating, new.speed_rating), (0, 99, 0));
    let sorted = sort_refining_methods(&methods);
    let names: Vec<&str> = sorted.iter().map(|m| m.name.as_str()).collect();
    assert_eq!(names[0], "Cormack");
    assert_eq!(names[names.len() - 1], "XCR Reaction");
}

fn uex(id: i64, parent: Option<i64>, name: &str, raw: i64, refined: i64) -> UexCommodity {
    UexCommodity {
        id,
        id_parent: parent,
        uuid: None,
        name: name.to_owned(),
        is_raw: raw,
        is_refined: refined,
    }
}

#[test]
fn uex_mapping_finds_refined_and_raw_commodities() {
    let list = vec![
        uex(1, None, "Bexalite", 0, 1),
        uex(2, None, "Bexalite (Raw)", 1, 0),
        uex(3, None, "Iron", 0, 1),
    ];
    let mapping = map_uex_commodity("bexalite", &list).expect("mapping");
    assert_eq!(mapping.refined.as_ref().map(|c| c.id), Some(1));
    assert_eq!(mapping.raw.as_ref().map(|c| c.id), Some(2));
    assert!(map_uex_commodity("Gold", &list).is_none());
    let child = vec![uex(7, None, "Taranite", 0, 1), uex(8, Some(7), "Taranite", 0, 0)];
    let mapping = map_uex_commodity("Taranite", &child).expect("mapping");
    assert_eq!(mapping.refined.as_ref().map(|c| c.id), Some(7));
    assert_eq!(mapping.raw.as_ref().map(|c| c.id), Some(8));
}

#[test]
fn display_label_joins_location_and_system() {
    let a = RefineryOption {
        terminal_id: 1,
        location: "MIC-L5".to_owned(),
        terminal: String::new(),
        system: "Stanton".to_owned(),
    };
    assert_eq!(a.display_label(), "MIC-L5 · Stanton");
    let b = RefineryOption {
        terminal_id: 1,
        location: "Levski".to_owned(),
        terminal: String::new(),
        system: String::new(),
    };
    assert_eq!(b.display_label(), "Levski");
}

fn yield_row(id: Option<i64>, station: Option<&str>, terminal: Option<&str>, system: Option<&str>) -> RefineryYieldRow {
    RefineryYieldRow {
        terminal_id: id,
        space_station_name: station.map(str::to_owned),
        city_name: None,
        outpost_name: None,
        orbit_name: None,
        terminal_name: terminal.map(str::to_owned),
        star_system_name: system.map(str::to_owned),
    }
}

#[test]
fn refinery_options_merge_local_stations_and_yield_rows() {
    let locations = vec![
        ScUnpackedRefineryLocation { stable_id: -5, location: "Zeta Station".to_owned() },
        ScUnpackedRefineryLocation { stable_id: -6, location: "MIC-L5 Modern Icarus Station".to_owned() },
    ];
    let seed = vec![
        yield_row(Some(244), Some(" MIC-L5 Modern Icarus Station "), Some("Refinery"), Some("Stanton")),
        yield_row(Some(0), Some("Ignored Station"), None, None),
        yield_row(Some(9), None, None, None),
    ];
    let update = vec![yield_row(Some(245), Some("MIC-L5 Modern Icarus Station"), None, Some("Stanton"))];
    let options = refinery_options(&locations, &[seed, update]);
    let labels: Vec<String> = options.iter().map(|o| o.display_label()).collect();
    assert_eq!(
        labels,
        vec![
            "MIC-L5 Modern Icarus Station · Stanton".to_owned(),
            "Unknown refinery".to_owned(),
            "Zeta Station".to_owned(),
        ]
    );
    assert_eq!(options[0].terminal_id, 245);
    assert_eq!(options[0].terminal, "Refinery");
    assert_eq!(options[1].terminal_id, 9);
    assert_eq!(options[2].terminal_id, -5);
    assert_eq!(yield_row_key(&yield_row(Some(3), Some("Levski (Raw)"), None, None)), Some("levski".to_owned()));
    assert_eq!(yield_row_key(&yield_row(Some(-3), Some("Levski"), None, None)), None);
}

#[test]
fn selected_refinery_is_found_again() {
    let options = vec![
        RefineryOption { terminal_id: 1, location: "A".to_owned(), terminal: String::new(), system: "Pyro".to_owned() },
        RefineryOption { terminal_id: 2, location: "B".to_owned(), terminal: String::new(), system: String::new() },
    ];
    assert_eq!(reselect_refinery(&options, Some(2), ""), Some(1));
    assert_eq!(reselect_refinery(&options, Some(9), "a · pyro"), Some(0));
    assert_eq!(reselect_refinery(&options, None, "b"), Some(1));
    assert_eq!(reselect_refinery(&options, None, ""), None);
    assert_eq!(reselect_refinery(&options, Some(9), "c"), None);
}

#[test]
fn provider_urls_are_built_from_the_base() {
    assert_eq!(provider_url("https://api.uexcorp.uk/2.0//", "commodities"), "https://api.uexcorp.uk/2.0/commodities");
    assert_eq!(
        uex_prices_url("https://api.uexcorp.uk/2.0", true, 42),
        "https://api.uexcorp.uk/2.0/commodities_raw_prices?id_commodity=42"
    );
    assert_eq!(
        uex_prices_url("https://api.uexcorp.uk/2.0/", false, 7),
        "https://api.uexcorp.uk/2.0/commodities_prices?id_commodity=7"
    );
    assert_eq!(
        tools_query_url("https://starcitizen.tools/api.php", "Bexalite Raw"),
        "https://starcitizen.tools/api.php?action=query&format=json&prop=extracts%7Cpageimages&exintro=1&explaintext=1&pithumbsize=640&titles=Bexalite%20Raw"
    );
    assert_eq!(tools_page_url("ARC-L1 Wide Forest Station"), "https://starcitizen.tools/ARC-L1_Wide_Forest_Station");
}

fn progress() -> EnrichmentProgress {
    EnrichmentProgress {
        use_uex: true,
        uex_succeeded: true,
        refined_mapped: true,
        refined_market_found: true,
        raw_mapped: true,
        raw_uuid_known: false,
        refinery_found: true,
    }
}

#[test]
fn enrichment_completeness() {
    let groups = vec!["Mineral".to_owned()];
    assert!(check_enrichment(&progress(), &groups).complete);
    let missing_market = EnrichmentProgress { refined_market_found: false, ..progress() };
    let c = check_enrichment(&missing_market, &groups);
    assert!(!c.complete && c.refined_market_missing && !c.refinery_missing);
    let missing_refinery = EnrichmentProgress { refinery_found: false, ..progress() };
    let c = check_enrichment(&missing_refinery, &groups);
    assert!(!c.complete && c.refinery_missing);
    let failed = EnrichmentProgress { uex_succeeded: false, ..progress() };
    let c = check_enrichment(&failed, &groups);
    assert!(!c.complete && !c.refined_market_missing);
    let local = EnrichmentProgress {
        use_uex: false,
        uex_succeeded: false,
        refined_mapped: false,
        refined_market_found: false,
        raw_mapped: false,
        raw_uuid_known: false,
        refinery_found: false,
    };
    assert!(check_enrichment(&local, &vec!["Food".to_owned()]).complete);
    assert!(!check_enrichment(&local, &groups).complete);
    assert!(refinery_deferred_note().contains("deferred"));
    assert!(refined_market_deferred_note().starts_with("UEX mapped"));
}

#[test]
fn profile_summary_prefers_the_refined_record() {
    let refined = ScUnpackedCommodity {
        uuid: "b1".to_owned(),
        description: "  Shiny.  ".to_owned(),
        tier: Some("A".to_owned()),
        commodity_groups: vec!["Mineral".to_owned()],
        ..Default::default()
    };
    let raw = ScUnpackedCommodity {
        uuid: "r1".to_owned(),
        description: "Raw".to_owned(),
        ..Default::default()
    };
    let profile = MineralProfile { canonical_name: "Bexalite".to_owned(), refined: Some(refined), raw: Some(raw) };
    let s = profile_summary(&profile);
    assert_eq!(s.uuid.as_deref(), Some("b1"));
    assert_eq!(s.raw_uuid.as_deref(), Some("r1"));
    assert_eq!(s.description.as_deref(), Some("Shiny."));
    assert_eq!(s.tier.as_deref(), Some("A"));
    assert_eq!(s.commodity_groups, vec!["Mineral".to_owned()]);
    let raw_only = MineralProfile {
        canonical_name: "X".to_owned(),
        refined: None,
        raw: Some(ScUnpackedCommodity { uuid: "r2".to_owned(), description: " ".to_owned(), ..Default::default() }),
    };
    let s = profile_summary(&raw_only);
    assert_eq!(s.uuid, None);
    assert_eq!(s.raw_uuid.as_deref(), Some("r2"));
    assert_eq!(s.description, None);
}

#[test]
fn method_datasets_are_applied_in_order_and_sorted() {
    let seed = vec![row("DIN", Some("Dinyx"), None, None, None)];
    let update = vec![row("DIN", Some("Zinyx"), Some(1), None, None), row("AAA", Some("Alpha"), None, None, None)];
    let methods = load_refining_methods(&[seed, update]);
    assert_eq!(methods.len(), 10);
    assert_eq!(methods[0].name, "Alpha");
    assert_eq!(methods[methods.len() - 1].name, "Zinyx");
    assert_eq!(methods[methods.len() - 1].yield_rating, 1);
    assert_eq!(load_refining_methods(&[]).len(), 9);
}

fn steps(sw: ProviderSwitches, refinery_from_uex: bool) -> Vec<EnrichmentStep> {
    let mut out = Vec::new();
    let mut step = first_step(sw);
    let mut refinery_known = false;
    while step != EnrichmentStep::Done {
        out.push(step);
        if step == EnrichmentStep::Uex {
            refinery_known = refinery_from_uex;
        }
        if step == EnrichmentStep::ConfiguredRefinery {
            refinery_known = true;
        }
        step = next_step(sw, step, refinery_known);
    }
    out
}

#[test]
fn only_enabled_providers_are_contacted() {
    let off = ProviderSwitches { use_uex: false, use_star_citizen_wiki_api: false, use_starcitizen_tools: false };
    assert_eq!(steps(off, false), vec![EnrichmentStep::ConfiguredRefinery, EnrichmentStep::Values]);
    let uex = ProviderSwitches { use_uex: true, ..off };
    assert_eq!(steps(uex, true), vec![EnrichmentStep::Uex, EnrichmentStep::Values]);
    assert_eq!(
        steps(uex, false),
        vec![EnrichmentStep::Uex, EnrichmentStep::ConfiguredRefinery, EnrichmentStep::Values]
    );
    let all = ProviderSwitches { use_uex: true, use_star_citizen_wiki_api: true, use_starcitizen_tools: true };
    assert_eq!(
        steps(all, false),
        vec![
            EnrichmentStep::Uex,
            EnrichmentStep::ConfiguredRefinery,
            EnrichmentStep::WikiApi,
            EnrichmentStep::Tools,
            EnrichmentStep::Locations,
            EnrichmentStep::Values,
        ]
    );
    let tools = ProviderSwitches { use_starcitizen_tools: true, ..off };
    assert_eq!(
        steps(tools, false),
        vec![EnrichmentStep::ConfiguredRefinery, EnrichmentStep::Tools, EnrichmentStep::Locations, EnrichmentStep::Values]
    );
}

#[test]
fn a_mineral_in_flight_is_not_requested_again() {
    let mut requests = EnrichmentRequests::default();
    assert!(requests.begin("Bexalite"));
    assert!(!requests.begin("Bexalite"));
    assert!(requests.begin("Iron"));
    assert_eq!(requests.in_flight.as_deref(), Some("Iron"));
    requests.finish(0);
    assert_eq!(requests.in_flight.as_deref(), Some("Iron"));
    requests.finish(1);
    assert_eq!(requests.in_flight, None);
    assert!(requests.begin("Iron"));
}
