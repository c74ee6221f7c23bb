use minerscan::matcher::{match_signature, resolve_signature};
use minerscan::models::{SignatureCategory, SignatureDefinition};

fn def(name: &str, base: u32) -> SignatureDefinition {
    SignatureDefinition {
        id: name.to_lowercase(),
        canonical_name: name.to_owned(),
        category: SignatureCategory::Resource,
        base_signature: base,
        multiplicative: true,
        enabled: true,
        source: "test".into(),
        game_version: "test".into(),
    }
}

#[test]
fn detects_cluster_multiplier() {
    let matches = match_signature(13_540, &[def("Riccite", 3385)]);
    assert_eq!(matches.len(), 1);
    assert_eq!(matches[0].multiplier, 4);
}

#[test]
fn ignores_non_match() {
    assert!(match_signature(9999, &[def("Riccite", 3385)]).is_empty());
}

#[test]
fn resolves_disabled_signature_without_alerting() {
    let mut bexalite = def("Bexalite", 3600);
    bexalite.enabled = false;
    assert!(match_signature(7200, &[bexalite.clone()]).is_empty());
    let resolved = resolve_signature(7200, &[bexalite]);
    assert_eq!(resolved.len(), 1);
    assert_eq!(resolved[0].name, "Bexalite");
    assert_eq!(resolved[0].multiplier, 2);
}

#[test]
fn matches_are_ranked_by_multiplier_then_base() {
    let defs = [def("Big", 7200), def("Small", 3600), def("Tiny", 1800)];
    let matches = match_signature(7200, &defs);
    let names: Vec<&str> = matches.iter().map(|m| m.name.as_str()).collect();
    assert_eq!(names, vec!["Big", "Small", "Tiny"]);
    assert_eq!(matches[0].multiplier, 1);
    assert_eq!(matches[2].multiplier, 4);
}

#[test]
fn resource_clusters_stop_at_twelve() {
    assert_eq!(match_signature(3385 * 12, &[def("Riccite", 3385)]).len(), 1);
    assert!(match_signature(3385 * 13, &[def("Riccite", 3385)]).is_empty());
}

#[test]
fn zero_base_never_matches() {
    assert!(resolve_signature(0, &[def("Zero", 0)]).is_empty());
}
