use minerscan::capture::{CaptureBackend, CaptureConfig, NullCaptureBackend};
use minerscan::database_update::{pick_candidate, validate_dataset, DatabaseEntry, DatabaseInboxState, DatasetProblem};
use minerscan::live_scan::{
    backend_label, capture_rect, interval_wait_ns, ocr_plan, pause_wait_ns, CaptureRect, PreviewPlan,
};
use minerscan::models::CaptureRegion;
use minerscan::native_window::{
    hide_main_window, is_main_window_minimized, is_main_window_visible, show_main_window,
};
use minerscan::tray::{menu_state, tray_action, TrayAction, TrayMenuIds};

#[test]
fn capture_defaults() {
    let config = CaptureConfig::default();
    assert_eq!(config.target_fps, 30);
    assert_eq!(config.region, CaptureRegion { x: 1240, y: 462, width: 230, height: 74 });
    let mut backend = NullCaptureBackend;
    assert!(backend.start(config).is_ok());
    assert!(backend.stop().is_ok());
}

#[test]
fn live_scan_decisions() {
    let rect = capture_rect(CaptureRegion { x: -5, y: 7, width: 10, height: 74 });
    assert_eq!(rect, CaptureRect { x: 0, y: 7, width: 20, height: 74 });
    let plan = ocr_plan(230, 74, true);
    assert_eq!(plan.preview, PreviewPlan::FullFrame);
    assert!(plan.upscale);
    let plan = ocr_plan(800, 300, true);
    assert_eq!(plan.preview, PreviewPlan::Thumbnail);
    assert!(!plan.upscale);
    assert_eq!(ocr_plan(10, 10, false).preview, PreviewPlan::Skip);
    assert_eq!(backend_label(true), "DXGI ROI Desktop Duplication");
    assert_eq!(backend_label(false), "GDI fallback");
    assert_eq!(pause_wait_ns(0, Some(30_000_000)), Some(30_000_000));
    assert_eq!(pause_wait_ns(0, Some(10_000_000_000)), Some(100_000_000));
    assert_eq!(pause_wait_ns(5, Some(5)), None);
    assert_eq!(pause_wait_ns(5, None), None);
    assert_eq!(interval_wait_ns(5_000_000, 0), 15_000_000);
    assert_eq!(interval_wait_ns(5_000_000, 250), 245_000_000);
    assert_eq!(interval_wait_ns(300_000_000, 250), 0);
}

#[test]
fn native_window_fallbacks() {
    assert!(!hide_main_window());
    assert!(!show_main_window());
    assert!(is_main_window_visible());
    assert!(!is_main_window_minimized());
}

#[test]
fn tray_menu() {
    let s = menu_state(true, false);
    assert!(!s.start_enabled && s.stop_enabled && !s.last_report_enabled);
    let ids = TrayMenuIds {
        show: "1".to_owned(),
        close: "2".to_owned(),
        start: "3".to_owned(),
        stop: "4".to_owned(),
        last_report: "5".to_owned(),
    };
    assert_eq!(tray_action("2", &ids), Some(TrayAction::Close));
    assert_eq!(tray_action("5", &ids), Some(TrayAction::LastReport));
    assert_eq!(tray_action("9", &ids), None);
}

fn entry(path: &str, is_file: bool, ext: Option<&str>, has_dataset: bool, t: i128) -> DatabaseEntry {
    DatabaseEntry {
        path: path.to_owned(),
        name: Some(path.to_owned()),
        is_file,
        is_dir: !is_file,
        extension: ext.map(str::to_owned),
        has_dataset,
        modified_ns: t,
    }
}

#[test]
fn database_inbox() {
    let state = DatabaseInboxState { root: "db".to_owned(), installed: None, candidate: None };
    assert_eq!(state.action_label(), "INSTALL");
    let state = DatabaseInboxState { installed: Some("db/installed".to_owned()), ..state };
    assert_eq!(state.action_label(), "UPDATE");
    let entries = vec![
        entry("installed", false, None, true, 99),
        entry(".install-staging", false, None, true, 98),
        entry("old.zip", true, Some("zip"), false, 3),
        entry("notes.txt", true, Some("txt"), false, 50),
        entry("extracted", false, None, true, 7),
        entry("empty", false, None, false, 60),
        entry("new.ZIP", true, Some("ZIP"), false, 7),
    ];
    assert_eq!(pick_candidate(&entries).as_deref(), Some("extracted"));
    assert_eq!(pick_candidate(&entries[..2]), None);
    assert_eq!(validate_dataset(false, true, true), Err(DatasetProblem::NotFound));
    assert_eq!(
        validate_dataset(true, true, false),
        Err(DatasetProblem::MissingFile("commodity_trade_locations.json".to_owned()))
    );
    assert_eq!(validate_dataset(true, true, true), Ok(()));
}
