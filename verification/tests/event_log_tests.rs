use minerscan::event_log::{recent_lines, sanitize_log_value, EnrichmentLogFields, EventLogger};
use minerscan::models::{DetectionCandidate, SignatureCategory};

#[test]
fn log_values_stay_on_one_line() {
    assert_eq!(sanitize_log_value("a \"b\"\r\nc"), "a 'b'  c");
}

#[test]
fn logger_queues_messages_in_order() {
    let mut logger = EventLogger::new("events.log".to_owned());
    assert_eq!(logger.path(), "events.log");
    logger.log_status("RUNNING");
    logger.log_capture_backend("GDI \"fallback\"");
    let detection = DetectionCandidate {
        target_id: "bexalite".to_owned(),
        name: "Bexalite".to_owned(),
        category: SignatureCategory::Resource,
        observed_signature: 7200,
        base_signature: 3600,
        multiplier: 2,
    };
    logger.log_detection(&detection, "live-ocr", None);
    logger.log_detection(&detection, "manual-test", Some("0.875"));
    let lines = logger.take_pending();
    assert_eq!(
        lines,
        vec![
            "event=SCANNER state=RUNNING".to_owned(),
            "event=CAPTURE backend=\"GDI 'fallback'\"".to_owned(),
            "event=DETECTION source=live-ocr target_id=bexalite name=\"Bexalite\" category=Mineral rs=7200 base_rs=3600 multiplier=2 confidence=n/a".to_owned(),
            "event=DETECTION source=manual-test target_id=bexalite name=\"Bexalite\" category=Mineral rs=7200 base_rs=3600 multiplier=2 confidence=0.875".to_owned(),
        ]
    );
    assert!(logger.take_pending().is_empty());
}

#[test]
fn enrichment_line_reports_missing_values_as_na() {
    let mut logger = EventLogger::new("x".to_owned());
    logger.log_enrichment(&EnrichmentLogFields {
        name: "Bexalite".to_owned(),
        scu: "10.00".to_owned(),
        raw_price: Some("1200".to_owned()),
        refined_price: None,
        raw_location: Some("Area\"18".to_owned()),
        refined_location: None,
        refinery: Some("MIC-L5".to_owned()),
        method: None,
        net: None,
        providers: vec!["SCUnpacked".to_owned(), "UEX".to_owned()],
    });
    assert_eq!(
        logger.take_pending(),
        vec!["event=ENRICHMENT name=\"Bexalite\" scu=10.00 raw_price=1200 refined_price=n/a raw_location=\"Area'18\" refined_location=\"n/a\" refinery=\"MIC-L5\" method=\"n/a\" net=n/a providers=\"SCUnpacked+UEX\"".to_owned()]
    );
}

#[test]
fn recent_lines_are_the_tail() {
    let text = "one\r\ntwo\n\nthree\n";
    assert_eq!(recent_lines(text, 2), vec!["".to_owned(), "three".to_owned()]);
    assert_eq!(recent_lines(text, 10), vec!["one".to_owned(), "two".to_owned(), "".to_owned(), "three".to_owned()]);
    assert_eq!(recent_lines("", 3), Vec::<String>::new());
    assert_eq!(recent_lines("a\nb", 0), Vec::<String>::new());
    assert_eq!(recent_lines("a\nb\r", 1), vec!["b\r".to_owned()]);
}

#[test]
fn sanitized_values_have_no_quotes_or_breaks() {
    let value = sanitize_log_value("x\"\n\ry");
    assert_eq!(value.chars().count(), 5);
    assert!(!value.contains('"') && !value.contains('\n') && !value.contains('\r'));
}
