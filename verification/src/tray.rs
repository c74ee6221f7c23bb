//! The system tray menu: its actions, which entries are enabled, and which
//! action a menu event stands for.
use vstd::prelude::*;

use crate::text::str_eq;

verus! {

/// What a tray menu entry asks for.
#[derive(Debug, Clone, Copy, PartialEq, Eq, Structural)]
pub enum TrayAction {
    Show,
    Close,
    StartScanner,
    StopScanner,
    LastReport,
}

/// Which of the scanner and report entries are enabled.
#[derive(Debug, Clone, Copy, PartialEq, Eq, Structural)]
pub struct TrayMenuState {
    pub start_enabled: bool,
    pub stop_enabled: bool,
    pub last_report_enabled: bool,
}

/// Start is offered while the scanner is stopped, Stop while it runs, and
/// Last Report once a report exists.
pub fn menu_state(scanner_active: bool, has_report: bool) -> (r: TrayMenuState)
    ensures
        r.start_enabled == !scanner_active,
        r.stop_enabled == scanner_active,
        r.last_report_enabled == has_report,
{
    TrayMenuState {
        start_enabled: !scanner_active,
        stop_enabled: scanner_active,
        last_report_enabled: has_report,
    }
}

/// The identifiers of the tray menu entries.
#[derive(Debug, Clone)]
pub struct TrayMenuIds {
    pub show: String,
    pub close: String,
    pub start: String,
    pub stop: String,
    pub last_report: String,
}

/// The action of a menu event: the first entry (Show, Close, Start, Stop,
/// Last Report) whose identifier is the event's.
pub open spec fn tray_action_spec(event: Seq<char>, ids: TrayMenuIds) -> Option<TrayAction> {
    if event == ids.show@ {
        Some(TrayAction::Show)
    } else if event == ids.close@ {
        Some(TrayAction::Close)
    } else if event == ids.start@ {
        Some(TrayAction::StartScanner)
    } else if event == ids.stop@ {
        Some(TrayAction::StopScanner)
    } else if event == ids.last_report@ {
        Some(TrayAction::LastReport)
    } else {
        None
    }
}

pub fn tray_action(event: &str, ids: &TrayMenuIds) -> (r: Option<TrayAction>)
    ensures
        r == tray_action_spec(event@, *ids),
{
    if str_eq(event, ids.show.as_str()) {
        Some(TrayAction::Show)
    } else if str_eq(event, ids.close.as_str()) {
        Some(TrayAction::Close)
    } else if str_eq(event, ids.start.as_str()) {
        Some(TrayAction::StartScanner)
    } else if str_eq(event, ids.stop.as_str()) {
        Some(TrayAction::StopScanner)
    } else if str_eq(event, ids.last_report.as_str()) {
        Some(TrayAction::LastReport)
    } else {
        None
    }
}

} // verus!
