use minerscan::report::{
    location_from_media, render_report, MarketPlace, RefineryReport, ReportFields, data_uri, esc, esc_attr, latest_report, location_card, media_data_uri, minutes_label,
    report_file_name, sanitize_filename, LocationInfo, MediaInfo, ReportFile,
};

#[test]
fn report_filename_is_safe() {
    assert_eq!(sanitize_filename("Bexalite / Raw"), "Bexalite___Raw");
}

#[test]
fn empty_names_become_mineral() {
    assert_eq!(sanitize_filename(""), "Mineral");
    assert_eq!(sanitize_filename("a-b_c"), "a-b_c");
    assert_eq!(sanitize_filename("ä"), "_");
}

#[test]
fn html_escaping() {
    assert_eq!(esc("a<b>&\"c\"'"), "a&lt;b&gt;&amp;&quot;c&quot;'");
    assert_eq!(esc_attr("x&y"), "x&amp;y");
    assert_eq!(esc("&amp;"), "&amp;amp;");
}

const PNG_SIGNATURE: [u8; 8] = [0x89, 0x50, 0x4e, 0x47, 0x0d, 0x0a, 0x1a, 0x0a];

#[test]
fn data_uri_detects_the_format_and_encodes_base64() {
    assert_eq!(data_uri(&PNG_SIGNATURE), "data:image/png;base64,iVBORw0KGgo=");
    assert_eq!(data_uri(&[0xff, 0xd8, 0xff]), "data:image/jpeg;base64,/9j/");
    assert_eq!(data_uri(b"GIF89a"), "data:image/gif;base64,R0lGODlh");
    assert_eq!(data_uri(b"hello"), "data:application/octet-stream;base64,aGVsbG8=");
    assert_eq!(data_uri(&[]), "data:application/octet-stream;base64,");
}

#[test]
fn media_uri_only_with_an_image() {
    let mut media = MediaInfo { source: "x".to_owned(), ..Default::default() };
    assert_eq!(media_data_uri(&media), None);
    media.image_bytes = Some(vec![0x61]);
    assert_eq!(media_data_uri(&media).as_deref(), Some("data:application/octet-stream;base64,YQ=="));
}

#[test]
fn location_cards() {
    assert_eq!(location_card("RAW SALE LOCATION", None, None, None), "");
    assert_eq!(location_card("RAW SALE LOCATION", None, Some(" Unknown "), None), "");
    assert_eq!(location_card("RAW SALE LOCATION", None, Some("--"), None), "");
    let card = location_card("RAW SALE LOCATION", None, Some(" Area18 "), Some("Stanton"));
    assert_eq!(
        card,
        "<div class=\"card loc\"><h3>RAW SALE LOCATION</h3><strong>Area18</strong><div class=\"muted\">Stanton</div><p>No enriched location description available.</p><div class=\"source\"> </div></div>"
    );
    let detail = LocationInfo {
        name: "A&B".to_owned(),
        system: "Pyro".to_owned(),
        description: Some("Big".to_owned()),
        page_url: None,
        image_url: Some("http://x/?a=1&b=2".to_owned()),
        image_bytes: Some(b"hello".to_vec()),
        source: Some("Wiki".to_owned()),
    };
    let card = location_card("REFINING LOCATION", Some(&detail), Some("ignored"), Some("ignored"));
    assert_eq!(
        card,
        "<div class=\"card loc\"><h3>REFINING LOCATION</h3><img class=\"locimg\" src=\"data:application/octet-stream;base64,aGVsbG8=\" alt=\"A&amp;B\"><strong>A&amp;B</strong><div class=\"muted\">Pyro</div><p>Big</p><div class=\"source\">Source: Wiki <a href=\"http://x/?a=1&amp;b=2\">Source page</a></div></div>"
    );
}

#[test]
fn minute_labels() {
    assert_eq!(minutes_label(0), "0 min");
    assert_eq!(minutes_label(59), "59 min");
    assert_eq!(minutes_label(60), "1 h 0 min");
    assert_eq!(minutes_label(135), "2 h 15 min");
}

#[test]
fn report_file_names() {
    assert_eq!(
        report_file_name("Bexalite / Raw", "101500", 1_700_000_000),
        "Bexalite___Raw_101500_Mineral_1700000000.html"
    );
    assert_eq!(report_file_name("", "000000", -5), "Mineral_000000_Mineral_-5.html");
}

fn file(path: &str, ext: Option<&str>, t: Option<i128>) -> ReportFile {
    ReportFile { path: path.to_owned(), extension: ext.map(str::to_owned), modified_ns: t }
}

#[test]
fn newest_html_report_is_found() {
    let files = vec![
        file("a.html", Some("html"), Some(5)),
        file("b.txt", Some("txt"), None),
        file("c.HTML", Some("HTML"), Some(9)),
        file("d.html", Some("html"), Some(9)),
    ];
    assert_eq!(latest_report(&files).as_deref(), Some("c.HTML"));
    assert_eq!(latest_report(&[file("b.txt", Some("txt"), Some(1))]), None);
    let unreadable = vec![file("a.html", Some("html"), Some(5)), file("e.html", Some("html"), None)];
    assert_eq!(latest_report(&unreadable), None);
    assert_eq!(latest_report(&[]), None);
}

#[test]
fn report_contains_inline_logo() {
    let html = render_report(
        &ReportFields {
            name: "Bexalite".into(),
            generated_at: "now".into(),
            ..Default::default()
        },
        &PNG_SIGNATURE,
    );
    assert!(html.contains("data:image/"));
    assert!(html.contains(";base64,"));
    assert!(html.contains("Bexalite"));
}

#[test]
fn report_page_sections() {
    let fields = ReportFields {
        name: "Bex<alite>".into(),
        generated_at: "2025-01-01 10:00:00".into(),
        analysis_scu: "10.00".into(),
        description: None,
        uuid: Some("u-1".into()),
        providers: vec!["SCUnpacked".into(), "UEX".into()],
        raw_price: Some("1200".into()),
        raw_market: Some(MarketPlace { location: "Area18".into(), system: "Stanton".into() }),
        refinery: Some(RefineryReport {
            location: "MIC-L5".into(),
            terminal: "Refinery".into(),
            system: "Stanton".into(),
            yield_bonus: "+8".into(),
            method_name: None,
            output_scu: "6.80".into(),
            cost: Some("350".into()),
            minutes: Some(75),
            estimate_basis: "Configured".into(),
        }),
        warnings: vec!["a & b".into()],
        ..Default::default()
    };
    let html = render_report(&fields, &PNG_SIGNATURE);
    assert!(html.starts_with("<!doctype html>\n<html lang=\"en\">"));
    assert!(html.contains("<title>Bex&lt;alite&gt; - StarSync MinerScan Report</title>"));
    assert!(html.contains("<div class=\"muted\">Generated 2025-01-01 10:00:00 | Analysis basis 10.00 SCU</div>"));
    assert!(html.contains("<p>No description available.</p><div class=\"source\">UUID u-1<br>Providers: SCUnpacked + UEX</div>"));
    assert!(html.contains("<div class=\"value\">1200 aUEC / SCU</div><div class=\"metric\"><span>Basis value</span><strong>--</strong>"));
    assert!(html.contains("<strong>+8%</strong>"));
    assert!(html.contains("<span>Method</span><strong>--</strong>"));
    assert!(html.contains("<strong>6.80 SCU</strong>"));
    assert!(html.contains("<strong>350 aUEC</strong>"));
    assert!(html.contains("<strong>1 h 15 min</strong>"));
    assert!(html.contains("<div class=\"value\">No current quote</div>"));
    assert!(html.contains("<h2>LOCATIONS</h2>"));
    assert!(html.contains("<h3>RAW SALE LOCATION</h3><strong>Area18</strong>"));
    assert!(html.contains("<h3>REFINING LOCATION</h3><strong>MIC-L5</strong>"));
    assert!(!html.contains("REFINED SALE LOCATION"));
    assert!(html.contains("<section><h2>Data notes</h2><ul><li>a &amp; b</li></ul></section>"));
    assert!(html.ends_with("\n</div></body></html>"));
}

#[test]
fn report_without_refinery_or_locations() {
    let html = render_report(&ReportFields { name: "X".into(), ..Default::default() }, &[]);
    assert!(html.contains("<p>No refinery recommendation available.</p>"));
    assert!(!html.contains("LOCATIONS"));
    assert!(!html.contains("Data notes"));
    assert!(html.contains("src=\"data:application/octet-stream;base64,\""));
}

#[test]
fn escaped_text_never_carries_markup() {
    let escaped = esc("<script>alert(\"x\")</script>");
    assert!(!escaped.contains('<') && !escaped.contains('>') && !escaped.contains('"'));
    let name = sanitize_filename("../../etc/passwd");
    assert!(name.chars().all(|c| c.is_ascii_alphanumeric() || c == '-' || c == '_'));
}

#[test]
fn locations_take_their_details_from_media() {
    assert!(location_from_media("   ", "Stanton", None).is_none());
    let bare = location_from_media(" Area18 ", "Stanton", None).expect("location");
    assert_eq!(bare.name, "Area18");
    assert_eq!(bare.system, "Stanton");
    assert!(bare.description.is_none() && bare.source.is_none());
    let media = MediaInfo {
        source: "StarCitizen.Tools".to_owned(),
        page_url: Some("https://starcitizen.tools/Area18".to_owned()),
        image_url: None,
        image_bytes: Some(vec![1, 2]),
        extract: Some("A city.".to_owned()),
    };
    let rich = location_from_media("Area18", "Stanton", Some(media)).expect("location");
    assert_eq!(rich.description.as_deref(), Some("A city."));
    assert_eq!(rich.source.as_deref(), Some("StarCitizen.Tools"));
    assert_eq!(rich.image_bytes, Some(vec![1, 2]));
}

#[test]
fn sanitizing_twice_changes_nothing() {
    for name in ["Bexalite / Raw", "", "ok_name-1", "ü"] {
        let once = sanitize_filename(name);
        assert_eq!(sanitize_filename(&once), once);
    }
}
