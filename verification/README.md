# minerscan

The verified core of StarSync MinerScan, a companion tool for Star Citizen
mining: it reads scanner signature values from OCR text, resolves them
against a signature table (including cluster multipliers), suppresses
repeated detections, enriches a mineral with catalogue, market and refinery
data, and renders a self-contained HTML report.

## Layout

- `src/` — the library, verified with Verus.
  - `text.rs`, `order.rs` — character-level text model and stable ordering.
  - `models.rs`, `matcher.rs`, `ocr.rs`, `scanner.rs` — signatures, matching,
    OCR value extraction, target search, duplicate suppression, move mode,
    saved target flags and the order of the target list, the log viewer's
    columns.
  - `data.rs` — the SCUnpacked catalogue, mineral profiles, refinery stations.
  - `enrichment.rs` — refining methods, the refinery directory, provider
    addresses, UEX commodity mapping, the order of an enrichment, how the
    providers' answers are merged, the candidates for the best quote and
    method, and the completeness verdict.
  - `provider_cache.rs` — what a cached provider fetch returns.
  - `report.rs`, `event_log.rs` — the HTML report and the event log.
  - `hotkeys.rs`, `tray.rs`, `live_scan.rs`, `capture.rs`,
    `database_update.rs`, `native_window.rs` — decisions of the desktop
    front end.
- `tests/` — tests of the library.
- `app/` — a console front end: files, network, settings, and the
  floating-point refining and market figures.
