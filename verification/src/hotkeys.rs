//! Global hotkeys: reading a binding from the settings text and deciding
//! which scanner action a key event stands for.
use global_hotkey::hotkey::{HotKey, HotKeyParseError};
use vstd::prelude::*;

use crate::text::{chars_of, lower, lower_chars, string_of, trim, trim_chars};

verus! {

#[verifier::external_type_specification]
#[verifier::external_body]
pub struct ExHotKey(HotKey);

#[verifier::external_type_specification]
#[verifier::external_body]
pub struct ExHotKeyParseError(HotKeyParseError);

/// What a hotkey toggles.
#[derive(Debug, Clone, Copy, PartialEq, Eq, Structural)]
pub enum HotkeyAction {
    ToggleScanner,
    ToggleCalibration,
    ToggleMoveMode,
}

/// A hotkey registered with the operating system, with its identifier.
#[derive(Debug, Clone, Copy)]
pub struct RegisteredHotkey {
    pub hotkey: HotKey,
    pub id: u32,
}

/// How an action is bound: one of the numpad keys observed natively, or a
/// hotkey registered with the operating system.
#[derive(Debug, Clone, Copy)]
pub enum Binding {
    NativeNumpadEnter,
    NativeNumpadAdd,
    NativeNumpadSubtract,
    Registered(RegisteredHotkey),
}

/// A binding text that is neither a numpad name nor a valid hotkey.
#[derive(Debug)]
pub struct InvalidHotkey {
    /// Which action the binding was for.
    pub label: String,
    /// The binding text as given.
    pub value: String,
    /// Why the hotkey parser refused it.
    pub cause: HotKeyParseError,
}

/// The hotkey parser of the `global-hotkey` crate accepts the text.
pub uninterp spec fn hotkey_text_parses(text: Seq<char>) -> bool;

/// `HotKey::from_str` of the `global-hotkey` crate, with the parsed hotkey's
/// identifier. Trusted: whether a text parses depends on the text alone and
/// is named by `hotkey_text_parses`. The identifier and the hotkey itself
/// are not stated: the crate maps the "CmdOrCtrl" modifier differently per
/// operating system, so they are not a function of the text.
#[verifier::external_body]
fn parse_hotkey(text: &str) -> (r: Result<(HotKey, u32), HotKeyParseError>)
    ensures
        r is Ok <==> hotkey_text_parses(text@),
{
    match text.parse::<HotKey>() {
        Ok(h) => Ok((h, h.id)),
        Err(e) => Err(e),
    }
}

pub open spec fn is_enter_name(n: Seq<char>) -> bool {
    n == "numpadenter"@ || n == "numpad enter"@ || n == "num enter"@
}

pub open spec fn is_add_name(n: Seq<char>) -> bool {
    n == "numpadadd"@ || n == "numpad add"@ || n == "num +"@ || n == "numpad +"@
}

pub open spec fn is_subtract_name(n: Seq<char>) -> bool {
    n == "numpadsubtract"@ || n == "numpad subtract"@ || n == "num -"@ || n == "numpad -"@
}

/// The numpad key a binding text names, compared trimmed and ASCII
/// case-insensitively: 0 for Enter, 1 for Add, 2 for Subtract.
pub open spec fn numpad_name(value: Seq<char>) -> Option<int> {
    let n = lower(trim(value, false));
    if is_enter_name(n) {
        Some(0)
    } else if is_add_name(n) {
        Some(1)
    } else if is_subtract_name(n) {
        Some(2)
    } else {
        None
    }
}

fn text_is(v: &Vec<char>, s: &str) -> (r: bool)
    ensures
        r == (v@ == s@),
{
    let w = chars_of(s);
    if v.len() != w.len() {
        return false;
    }
    let mut i: usize = 0;
    while i < v.len()
        invariant
            v.len() == w.len(),
            w@ == s@,
            i <= v.len(),
            forall|k: int| 0 <= k < i ==> v@[k] == w@[k],
        decreases v.len() - i,
    {
        if v[i] != w[i] {
            return false;
        }
        i += 1;
    }
    assert(v@ =~= w@);
    true
}

/// Reads a binding from its settings text. The numpad names (trimmed, any
/// ASCII case) give the native numpad bindings; any other text must be a
/// hotkey the hotkey parser accepts.
pub fn parse_binding(value: &str, label: &str) -> (r: Result<Binding, InvalidHotkey>)
    ensures
        numpad_name(value@) == Some(0int) ==> r matches Ok(Binding::NativeNumpadEnter),
        numpad_name(value@) == Some(1int) ==> r matches Ok(Binding::NativeNumpadAdd),
        numpad_name(value@) == Some(2int) ==> r matches Ok(Binding::NativeNumpadSubtract),
        numpad_name(value@) is None ==> (r is Ok <==> hotkey_text_parses(trim(value@, false))),
        numpad_name(value@) is None ==> (r is Ok ==> r->Ok_0 is Registered),
        r is Err ==> r->Err_0.label@ == label@ && r->Err_0.value@ == value@,
{
    let trimmed = trim_chars(&chars_of(value), false);
    let n = lower_chars(&trimmed);
    if text_is(&n, "numpadenter") || text_is(&n, "numpad enter") || text_is(&n, "num enter") {
        return Ok(Binding::NativeNumpadEnter);
    }
    if text_is(&n, "numpadadd") || text_is(&n, "numpad add") || text_is(&n, "num +") || text_is(
        &n,
        "numpad +",
    ) {
        return Ok(Binding::NativeNumpadAdd);
    }
    if text_is(&n, "numpadsubtract") || text_is(&n, "numpad subtract") || text_is(&n, "num -")
        || text_is(&n, "numpad -") {
        return Ok(Binding::NativeNumpadSubtract);
    }
    let text = string_of(&trimmed);
    match parse_hotkey(text.as_str()) {
        Ok((hotkey, id)) => Ok(Binding::Registered(RegisteredHotkey { hotkey, id })),
        Err(cause) => Err(
            InvalidHotkey {
                label: string_of(&chars_of(label)),
                value: string_of(&chars_of(value)),
                cause,
            },
        ),
    }
}

/// The binding is the registered hotkey with identifier `id`.
pub open spec fn binding_has_id(b: Binding, id: u32) -> bool {
    match b {
        Binding::Registered(h) => h.id == id,
        _ => false,
    }
}

pub fn registered_matches(binding: Binding, id: u32) -> (r: bool)
    ensures
        r == binding_has_id(binding, id),
{
    match binding {
        Binding::Registered(h) => h.id == id,
        _ => false,
    }
}

pub open spec fn registered_of(b: Binding) -> Seq<HotKey> {
    match b {
        Binding::Registered(h) => seq![h.hotkey],
        _ => seq![],
    }
}

/// The hotkeys to register with the operating system: those of the
/// registered bindings, in the order scanner, calibration, move mode.
pub fn registered_hotkeys(scanner: Binding, calibration: Binding, move_mode: Binding) -> (r: Vec<
    HotKey,
>)
    ensures
        r@ == registered_of(scanner) + registered_of(calibration) + registered_of(move_mode),
{
    let mut out: Vec<HotKey> = Vec::new();
    match scanner {
        Binding::Registered(h) => out.push(h.hotkey),
        _ => {},
    }
    match calibration {
        Binding::Registered(h) => out.push(h.hotkey),
        _ => {},
    }
    match move_mode {
        Binding::Registered(h) => out.push(h.hotkey),
        _ => {},
    }
    assert(out@ =~= registered_of(scanner) + registered_of(calibration) + registered_of(move_mode));
    out
}

/// The action of a registered-hotkey event: only presses count, and the
/// first binding (scanner, calibration, move mode) with the event's
/// identifier decides.
pub open spec fn hotkey_event_action(
    scanner: Binding,
    calibration: Binding,
    move_mode: Binding,
    pressed: bool,
    id: u32,
) -> Option<HotkeyAction> {
    if !pressed {
        None
    } else if binding_has_id(scanner, id) {
        Some(HotkeyAction::ToggleScanner)
    } else if binding_has_id(calibration, id) {
        Some(HotkeyAction::ToggleCalibration)
    } else if binding_has_id(move_mode, id) {
        Some(HotkeyAction::ToggleMoveMode)
    } else {
        None
    }
}

pub fn event_action(
    scanner: Binding,
    calibration: Binding,
    move_mode: Binding,
    pressed: bool,
    id: u32,
) -> (r: Option<HotkeyAction>)
    ensures
        r == hotkey_event_action(scanner, calibration, move_mode, pressed, id),
{
    if !pressed {
        None
    } else if registered_matches(scanner, id) {
        Some(HotkeyAction::ToggleScanner)
    } else if registered_matches(calibration, id) {
        Some(HotkeyAction::ToggleCalibration)
    } else if registered_matches(move_mode, id) {
        Some(HotkeyAction::ToggleMoveMode)
    } else {
        None
    }
}

/// Which native numpad keys are in use: Enter for the scanner, Add for
/// calibration, Subtract for move mode.
#[derive(Debug, Clone, Copy, PartialEq, Eq, Structural)]
pub struct NativeKeys {
    pub scanner: bool,
    pub calibration: bool,
    pub move_mode: bool,
}

pub fn native_keys(scanner: Binding, calibration: Binding, move_mode: Binding) -> (r: NativeKeys)
    ensures
        r.scanner == (scanner is NativeNumpadEnter),
        r.calibration == (calibration is NativeNumpadAdd),
        r.move_mode == (move_mode is NativeNumpadSubtract),
{
    NativeKeys {
        scanner: match scanner {
            Binding::NativeNumpadEnter => true,
            _ => false,
        },
        calibration: match calibration {
            Binding::NativeNumpadAdd => true,
            _ => false,
        },
        move_mode: match move_mode {
            Binding::NativeNumpadSubtract => true,
            _ => false,
        },
    }
}

/// Virtual-key codes of the keys the native observer watches.
pub const VK_RETURN: u32 = 0x0d;

pub const VK_ADD: u32 = 0x6b;

pub const VK_SUBTRACT: u32 = 0x6d;

/// The action of a key press seen by the native observer: numpad Enter is
/// the extended Return key; the first enabled match decides.
pub open spec fn native_key_action(keys: NativeKeys, vk_code: u32, extended: bool) -> Option<
    HotkeyAction,
> {
    if keys.scanner && vk_code == VK_RETURN && extended {
        Some(HotkeyAction::ToggleScanner)
    } else if keys.calibration && vk_code == VK_ADD {
        Some(HotkeyAction::ToggleCalibration)
    } else if keys.move_mode && vk_code == VK_SUBTRACT {
        Some(HotkeyAction::ToggleMoveMode)
    } else {
        None
    }
}

pub fn native_action(keys: NativeKeys, vk_code: u32, extended: bool) -> (r: Option<HotkeyAction>)
    ensures
        r == native_key_action(keys, vk_code, extended),
{
    if keys.scanner && vk_code == VK_RETURN && extended {
        Some(HotkeyAction::ToggleScanner)
    } else if keys.calibration && vk_code == VK_ADD {
        Some(HotkeyAction::ToggleCalibration)
    } else if keys.move_mode && vk_code == VK_SUBTRACT {
        Some(HotkeyAction::ToggleMoveMode)
    } else {
        None
    }
}

/// The state of the arrow keys (left, right, up, down). Without a native
/// keyboard observer no key reads as pressed.
pub fn arrow_state() -> (r: (bool, bool, bool, bool))
    ensures
        r == (false, false, false, false),
{
    (false, false, false, false)
}

// ---------------------------------------------------------------------------
// Laws
// ---------------------------------------------------------------------------

/// A native binding never claims a registered-hotkey event, and an event
/// that is not a press never triggers an action.
pub proof fn law_native_bindings_ignore_hotkey_events(
    scanner: Binding,
    calibration: Binding,
    move_mode: Binding,
    pressed: bool,
    id: u32,
)
    requires
        !(scanner is Registered),
        !(calibration is Registered),
        !(move_mode is Registered),
    ensures
        hotkey_event_action(scanner, calibration, move_mode, pressed, id) is None,
        hotkey_event_action(scanner, calibration, move_mode, false, id) is None,
{
}

/// The observer is passive for keys it does not watch: with no native
/// binding in use, no key press is turned into an action.
pub proof fn law_unused_native_keys_are_ignored(vk_code: u32, extended: bool)
    ensures
        native_key_action(
            NativeKeys { scanner: false, calibration: false, move_mode: false },
            vk_code,
            extended,
        ) is None,
{
}

// ---------------------------------------------------------------------------
// Rebinding
// ---------------------------------------------------------------------------

/// The bindings of the three actions.
#[derive(Debug, Clone, Copy)]
pub struct HotkeyBindings {
    pub scanner: Binding,
    pub calibration: Binding,
    pub move_mode: Binding,
}

/// The hotkeys the operating system holds for these bindings.
pub open spec fn bindings_registered(b: HotkeyBindings) -> Seq<HotKey> {
    registered_of(b.scanner) + registered_of(b.calibration) + registered_of(b.move_mode)
}

/// What a rebind asks of the operating system, in order: release the
/// hotkeys of the current bindings, then register those of the new ones.
#[derive(Debug)]
pub struct RebindPlan {
    pub release: Vec<HotKey>,
    pub register: Vec<HotKey>,
}

pub fn plan_rebind(current: HotkeyBindings, next: HotkeyBindings) -> (r: RebindPlan)
    ensures
        r.release@ == bindings_registered(current),
        r.register@ == bindings_registered(next),
{
    RebindPlan {
        release: registered_hotkeys(current.scanner, current.calibration, current.move_mode),
        register: registered_hotkeys(next.scanner, next.calibration, next.move_mode),
    }
}

/// How a rebind ends: the bindings in force after it, the hotkeys to
/// register again, and whether it failed.
#[derive(Debug)]
pub struct RebindOutcome {
    pub in_force: HotkeyBindings,
    pub restore: Vec<HotKey>,
    pub failed: bool,
}

/// The bindings in force after a rebind: the new ones when their hotkeys
/// were registered, else the current ones.
pub open spec fn rebind_in_force(current: HotkeyBindings, next: HotkeyBindings, registered: bool) -> HotkeyBindings {
    if registered {
        next
    } else {
        current
    }
}

/// The hotkeys to register again after a rebind: those of the current
/// bindings when the new ones could not be registered, else none.
pub open spec fn rebind_restore(current: HotkeyBindings, registered: bool) -> Seq<HotKey> {
    if registered {
        seq![]
    } else {
        bindings_registered(current)
    }
}

/// The decision after the registration of the new hotkeys (`registered`;
/// true when there was nothing to register): keep the new bindings, or roll
/// back to the current ones and register their hotkeys again.
pub fn settle_rebind(current: HotkeyBindings, next: HotkeyBindings, registered: bool) -> (r: RebindOutcome)
    ensures
        r.in_force == rebind_in_force(current, next, registered),
        r.restore@ == rebind_restore(current, registered),
        r.failed == !registered,
{
    if registered {
        RebindOutcome { in_force: next, restore: Vec::new(), failed: false }
    } else {
        RebindOutcome {
            in_force: current,
            restore: registered_hotkeys(current.scanner, current.calibration, current.move_mode),
            failed: true,
        }
    }
}

/// A rebind leaves the operating system holding exactly the hotkeys of the
/// bindings in force: the new hotkeys when they were registered, the old
/// ones again after a rollback.
pub proof fn law_rebind_keeps_hotkeys_in_force(
    current: HotkeyBindings,
    next: HotkeyBindings,
    registered: bool,
)
    ensures
        (if registered {
            bindings_registered(next)
        } else {
            rebind_restore(current, registered)
        }) == bindings_registered(rebind_in_force(current, next, registered)),
        !registered ==> rebind_in_force(current, next, registered) == current,
{
}

} // verus!
