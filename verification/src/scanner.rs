//! Scanner-side decisions: target search, duplicate suppression, the seed
//! signature table, log-line fields and moving the capture region.
use vstd::prelude::*;

use crate::event_log::{capture_message, law_sanitized_values_stay_on_one_line, sanitize_log_spec};
use crate::matcher::{match_signature, matches_spec, resolve_signature};
use crate::order::{is_stable_order, lemma_stable_order_distinct, stable_order};
use crate::models::{
    category_label, CaptureRegion, DetectionCandidate, SignatureCategory, SignatureDefinition,
};
use crate::text::{
    all_digits, char_is_digit, char_is_ws, chars_of, contains, contains_chars, matches_at, extend_chars, find,
    find_chars, first_ws, first_ws_index, is_digit, lemma_find_unique, lemma_first_ws_exact, is_ws, parse_digits, parse_u32_digits, replace,
    replace_chars, single, pair, slice_chars, str_eq, string_of, to_lowercase, trim, trim_chars,
    unicode_lowercase, lower, lower_chars, views,
};

verus! {

// ---------------------------------------------------------------------------
// Duplicate suppression
// ---------------------------------------------------------------------------

/// The same material was detected again within the cooldown. Times are
/// monotonic clock readings in milliseconds; an earlier reading later than
/// `now` counts as no time elapsed.
pub fn is_duplicate_material_detection(
    last_material: Option<&str>,
    last_at_ms: Option<u64>,
    current_material: &str,
    cooldown_ms: u64,
    now_ms: u64,
) -> (r: bool)
    ensures
        r == (last_material is Some && last_material->0@ == current_material@ && last_at_ms is Some
            && (if now_ms >= last_at_ms->0 { now_ms - last_at_ms->0 } else { 0 }) < cooldown_ms),
{
    let same = match last_material {
        Some(m) => str_eq(m, current_material),
        None => false,
    };
    if !same {
        return false;
    }
    match last_at_ms {
        Some(at) => now_ms.saturating_sub(at) < cooldown_ms,
        None => false,
    }
}

/// The duplicate-suppression window for a cooldown given in seconds: at
/// least one second, in milliseconds (saturating).
pub open spec fn cooldown_ms_spec(secs: u64) -> int {
    let s = if secs < 1 { 1 } else { secs as int };
    if s * 1000 > u64::MAX { u64::MAX as int } else { s * 1000 }
}

pub fn detection_cooldown_ms(secs: u64) -> (r: u64)
    ensures
        r == cooldown_ms_spec(secs),
{
    let s = if secs < 1 { 1 } else { secs };
    if s > u64::MAX / 1000 {
        u64::MAX
    } else {
        s * 1000
    }
}

/// The last live detection that was reported: its material key and when.
#[derive(Debug, Clone)]
pub struct DetectionMemory {
    pub last_key: Option<String>,
    pub last_at_ms: Option<u64>,
}

pub open spec fn key_view(k: Option<String>) -> Option<Seq<char>> {
    match k {
        Some(s) => Some(s@),
        None => None,
    }
}

/// A detection of `key` at `now_ms` repeats the remembered one within the
/// cooldown.
pub open spec fn repeats_within(
    last_key: Option<Seq<char>>,
    last_at_ms: Option<u64>,
    key: Seq<char>,
    now_ms: u64,
    cooldown_ms: int,
) -> bool {
    last_key == Some(key) && last_at_ms is Some && (if now_ms >= last_at_ms->0 {
        now_ms - last_at_ms->0
    } else {
        0
    }) < cooldown_ms
}

/// Records a live detection of `key` at `now_ms`. A repeat of the last
/// reported material within the cooldown is suppressed (`false`, memory
/// unchanged); anything else is reported (`true`) and remembered.
pub fn note_detection(memory: &mut DetectionMemory, key: &str, now_ms: u64, cooldown_secs: u64) -> (r:
    bool)
    ensures
        r == !repeats_within(
            key_view(old(memory).last_key),
            old(memory).last_at_ms,
            key@,
            now_ms,
            cooldown_ms_spec(cooldown_secs),
        ),
        r ==> key_view(final(memory).last_key) == Some(key@) && final(memory).last_at_ms == Some(
            now_ms,
        ),
        !r ==> key_view(final(memory).last_key) == key_view(old(memory).last_key)
            && final(memory).last_at_ms == old(memory).last_at_ms,
{
    let cooldown = detection_cooldown_ms(cooldown_secs);
    let duplicate = match &memory.last_key {
        Some(k) => is_duplicate_material_detection(
            Some(k.as_str()),
            memory.last_at_ms,
            key,
            cooldown,
            now_ms,
        ),
        None => false,
    };
    if duplicate {
        return false;
    }
    memory.last_key = Some(string_of(&chars_of(key)));
    memory.last_at_ms = Some(now_ms);
    true
}

/// Duplicate suppression only ever holds back an immediate repeat: a
/// different material is always reported, and so is the same material once
/// the cooldown has passed.
pub proof fn law_only_repeats_within_cooldown_are_suppressed(
    last_key: Option<Seq<char>>,
    last_at_ms: Option<u64>,
    key: Seq<char>,
    now_ms: u64,
    cooldown_secs: u64,
)
    ensures
        last_key != Some(key) ==> !repeats_within(
            last_key,
            last_at_ms,
            key,
            now_ms,
            cooldown_ms_spec(cooldown_secs),
        ),
        last_at_ms is Some && now_ms >= last_at_ms->0 && now_ms - last_at_ms->0 >= cooldown_ms_spec(
            cooldown_secs,
        ) ==> !repeats_within(last_key, last_at_ms, key, now_ms, cooldown_ms_spec(cooldown_secs)),
{
}

/// Right after a material is reported, the same material at the same time
/// is a repeat within the cooldown.
pub proof fn law_reported_material_is_suppressed_next(key: Seq<char>, now_ms: u64, cooldown_secs: u64)
    ensures
        repeats_within(Some(key), Some(now_ms), key, now_ms, cooldown_ms_spec(cooldown_secs)),
{
}

// ---------------------------------------------------------------------------
// Target search
// ---------------------------------------------------------------------------

pub open spec fn query_char_ok(c: char) -> bool {
    is_digit(c) || is_ws(c) || c == ',' || c == '.'
}

/// The decimal digits of a query, in order.
pub open spec fn query_digits(s: Seq<char>) -> Seq<char>
    decreases s.len(),
{
    if s.len() == 0 {
        seq![]
    } else if is_digit(s.last()) {
        query_digits(s.drop_last()).push(s.last())
    } else {
        query_digits(s.drop_last())
    }
}

/// A query read as a signature value: only digits, whitespace and digit
/// separators, at least one digit, and a value that fits in `u32`.
pub open spec fn query_value(q: Seq<char>) -> Option<u32> {
    if query_digits(q).len() == 0 || exists|i: int| 0 <= i < q.len() && !query_char_ok(#[trigger] q[i]) {
        None
    } else {
        parse_u32_digits(query_digits(q))
    }
}

pub open spec fn saturating_mul(a: u32, b: int) -> int {
    if a * b > u32::MAX {
        u32::MAX as int
    } else {
        a * b
    }
}

/// The smallest multiplier from `m` up to `max` that reaches `value`.
pub open spec fn first_multiplier(base: u32, value: u32, m: int, max: int) -> Option<u32>
    decreases max + 1 - m,
{
    if m > max || m < 0 {
        None
    } else if saturating_mul(base, m) == value {
        Some(m as u32)
    } else {
        first_multiplier(base, value, m + 1, max)
    }
}

/// Clusters recognised by the target search: up to 12 for multiplicative
/// definitions, else the single signature only.
pub open spec fn search_max_multiplier(d: SignatureDefinition) -> int {
    if d.multiplicative {
        12
    } else {
        1
    }
}

/// The multiplier at which a definition produces the value typed as query.
pub open spec fn match_multiplier(d: SignatureDefinition, q: Seq<char>) -> Option<u32> {
    match query_value(q) {
        Some(v) => first_multiplier(d.base_signature, v, 1, search_max_multiplier(d)),
        None => None,
    }
}

proof fn lemma_query_digits(s: Seq<char>)
    ensures
        all_digits(query_digits(s)),
    decreases s.len(),
{
    if s.len() > 0 {
        lemma_query_digits(s.drop_last());
    }
}

proof fn lemma_query_digits_append(x: Seq<char>, y: Seq<char>)
    ensures
        query_digits(x + y) == query_digits(x) + query_digits(y),
    decreases y.len(),
{
    if y.len() == 0 {
        assert(x + y =~= x);
        assert(query_digits(x) + query_digits(y) =~= query_digits(x));
    } else {
        lemma_query_digits_append(x, y.drop_last());
        assert((x + y).drop_last() =~= x + y.drop_last());
        assert((x + y).last() == y.last());
        if is_digit(y.last()) {
            assert(query_digits(x) + query_digits(y.drop_last()).push(y.last()) =~= (query_digits(x)
                + query_digits(y.drop_last())).push(y.last()));
        }
    }
}

/// Spacing and digit separators inside a value query do not matter: a
/// query with a whitespace character, `,` or `.` inserted anywhere gives
/// the same multiplier as without it, so "7 200", "7,200" and "7200" search
/// alike.
pub proof fn law_query_spacing_is_ignored(d: SignatureDefinition, a: Seq<char>, c: char, b: Seq<char>)
    requires
        is_ws(c) || c == ',' || c == '.',
    ensures
        match_multiplier(d, a + seq![c] + b) == match_multiplier(d, a + b),
{
    let t = a + seq![c] + b;
    let u = a + b;
    lemma_query_digits_append(a + seq![c], b);
    lemma_query_digits_append(a, seq![c]);
    assert(seq![c].drop_last() =~= Seq::<char>::empty());
    assert(seq![c].last() == c);
    assert(!is_digit(c));
    assert(query_digits(Seq::<char>::empty()) =~= Seq::<char>::empty());
    assert(query_digits(seq![c]) =~= Seq::<char>::empty());
    assert(query_digits(a) + Seq::<char>::empty() =~= query_digits(a));
    lemma_query_digits_append(a, b);
    assert(query_char_ok(c));
    assert((exists|i: int| 0 <= i < t.len() && !query_char_ok(#[trigger] t[i])) <==> (exists|i: int|
        0 <= i < u.len() && !query_char_ok(#[trigger] u[i]))) by {
        if exists|i: int| 0 <= i < t.len() && !query_char_ok(#[trigger] t[i]) {
            let i = choose|i: int| 0 <= i < t.len() && !query_char_ok(#[trigger] t[i]);
            if i < a.len() {
                assert(u[i] == t[i]);
            } else {
                assert(i > a.len());
                assert(u[i - 1] == t[i]);
            }
        }
        if exists|i: int| 0 <= i < u.len() && !query_char_ok(#[trigger] u[i]) {
            let i = choose|i: int| 0 <= i < u.len() && !query_char_ok(#[trigger] u[i]);
            if i < a.len() {
                assert(t[i] == u[i]);
            } else {
                assert(t[i + 1] == u[i]);
            }
        }
    }
}

/// A query of decimal digits alone is read as the number they form.
pub proof fn law_digit_query_value(q: Seq<char>)
    requires
        q.len() > 0,
        forall|i: int| 0 <= i < q.len() ==> '0' <= #[trigger] q[i] <= '9',
    ensures
        query_value(q) == parse_u32_digits(q),
{
    lemma_query_digits_all(q);
    assert forall|i: int| 0 <= i < q.len() implies query_char_ok(#[trigger] q[i]) by {}
}

proof fn lemma_query_digits_all(q: Seq<char>)
    requires
        forall|i: int| 0 <= i < q.len() ==> '0' <= #[trigger] q[i] <= '9',
    ensures
        query_digits(q) == q,
    decreases q.len(),
{
    if q.len() > 0 {
        assert forall|i: int| 0 <= i < q.drop_last().len() implies '0' <= #[trigger] q.drop_last()[i] <= '9' by {
            assert(q.drop_last()[i] == q[i]);
        }
        lemma_query_digits_all(q.drop_last());
        assert(q.drop_last().push(q.last()) =~= q);
    }
}

pub fn definition_match_multiplier(definition: &SignatureDefinition, query: &str) -> (r: Option<u32>)
    ensures
        r == match_multiplier(*definition, query@),
{
    let q = chars_of(query);
    let mut digits: Vec<char> = Vec::new();
    let mut ok = true;
    let mut i: usize = 0;
    while i < q.len()
        invariant
            q@ == query@,
            i <= q.len(),
            digits@ == query_digits(q@.take(i as int)),
            ok == (forall|k: int| 0 <= k < i ==> query_char_ok(#[trigger] q@[k])),
        decreases q.len() - i,
    {
        let c = q[i];
        assert(q@.take(i + 1).drop_last() == q@.take(i as int));
        if char_is_digit(c) {
            digits.push(c);
        } else if !(char_is_ws(c) || c == ',' || c == '.') {
            ok = false;
        }
        i += 1;
    }
    assert(q@.take(q.len() as int) == q@);
    if digits.len() == 0 || !ok {
        return None;
    }
    proof {
        lemma_query_digits(q@);
    }
    let value = match parse_digits(&digits) {
        Some(v) => v,
        None => return None,
    };
    assert(query_value(query@) == Some(value));
    let max: u64 = if definition.multiplicative { 12 } else { 1 };
    let base = definition.base_signature as u64;
    let mut m: u64 = 1;
    while m <= max
        invariant
            1 <= m <= max + 1,
            max <= 12,
            query_value(query@) == Some(value),
            max == search_max_multiplier(*definition),
            base == definition.base_signature,
            first_multiplier(definition.base_signature, value, 1, max as int) == first_multiplier(
                definition.base_signature,
                value,
                m as int,
                max as int,
            ),
        decreases max + 1 - m,
    {
        assert(base * m <= 0xffff_ffff * 12) by (nonlinear_arith)
            requires
                base <= 0xffff_ffff,
                m <= 12,
        ;
        let product = base * m;
        let saturated = if product > u32::MAX as u64 { u32::MAX as u64 } else { product };
        if saturated == value as u64 {
            return Some(m as u32);
        }
        m += 1;
    }
    None
}

/// A target matches a search query when the query is blank, when its
/// lower-cased name or category label contains the lower-cased trimmed
/// query, or when the query is a signature value of the target.
pub fn definition_matches_query(definition: &SignatureDefinition, query: &str) -> (r: bool)
    ensures
        r == (trim(query@, false).len() == 0 || contains(
            unicode_lowercase(definition.canonical_name@),
            unicode_lowercase(trim(query@, false)),
        ) || contains(
            unicode_lowercase(category_label(definition.category)),
            unicode_lowercase(trim(query@, false)),
        ) || match_multiplier(*definition, query@) is Some),
{
    let q = chars_of(query);
    let trimmed = trim_chars(&q, false);
    if trimmed.len() == 0 {
        return true;
    }
    let trimmed_text = string_of(&trimmed);
    let lowered = to_lowercase(trimmed_text.as_str());
    let needle = chars_of(lowered.as_str());
    let name = to_lowercase(definition.canonical_name.as_str());
    if contains_chars(&chars_of(name.as_str()), &needle) {
        return true;
    }
    let label = to_lowercase(definition.category.label());
    if contains_chars(&chars_of(label.as_str()), &needle) {
        return true;
    }
    definition_match_multiplier(definition, query).is_some()
}

// ---------------------------------------------------------------------------
// Seed signature table
// ---------------------------------------------------------------------------

pub open spec fn seed_source() -> Seq<char> {
    "MinerScan seed dataset - verify against extracted LIVE data"@
}

pub open spec fn seed_version() -> Seq<char> {
    "seed/2026-09"@
}

/// A seed definition: multiplicative, with the seed source and version.
pub fn sig(id: &str, name: &str, category: SignatureCategory, base: u32, enabled: bool) -> (r:
    SignatureDefinition)
    ensures
        r.id@ == id@,
        r.canonical_name@ == name@,
        r.category == category,
        r.base_signature == base,
        r.multiplicative,
        r.enabled == enabled,
        r.source@ == seed_source(),
        r.game_version@ == seed_version(),
{
    SignatureDefinition {
        id: id.to_owned(),
        canonical_name: name.to_owned(),
        category,
        base_signature: base,
        multiplicative: true,
        enabled,
        source: "MinerScan seed dataset - verify against extracted LIVE data".to_owned(),
        game_version: "seed/2026-09".to_owned(),
    }
}

/// Row `i` of the seed table: id, name, category, base signature, enabled.
pub open spec fn seed_row(i: int) -> (Seq<char>, Seq<char>, SignatureCategory, u32, bool) {
    if i == 0 { ("quantanium"@, "Quantanium"@, SignatureCategory::Resource, 3170, true) }
    else if i == 1 { ("stileron"@, "Stileron"@, SignatureCategory::Resource, 3185, false) }
    else if i == 2 { ("savrilum"@, "Savrilium"@, SignatureCategory::Resource, 3200, false) }
    else if i == 3 { ("ouratite"@, "Ouratite"@, SignatureCategory::Resource, 3370, false) }
    else if i == 4 { ("riccite"@, "Riccite"@, SignatureCategory::Resource, 3385, true) }
    else if i == 5 { ("lindinium"@, "Lindinium"@, SignatureCategory::Resource, 3400, true) }
    else if i == 6 { ("beryl"@, "Beryl"@, SignatureCategory::Resource, 3540, false) }
    else if i == 7 { ("taranite"@, "Taranite"@, SignatureCategory::Resource, 3555, false) }
    else if i == 8 { ("borase"@, "Borase"@, SignatureCategory::Resource, 3570, false) }
    else if i == 9 { ("gold"@, "Gold"@, SignatureCategory::Resource, 3585, false) }
    else if i == 10 { ("bexalite"@, "Bexalite"@, SignatureCategory::Resource, 3600, false) }
    else if i == 11 { ("laranite"@, "Laranite"@, SignatureCategory::Resource, 3825, false) }
    else if i == 12 { ("aslarite"@, "Aslarite"@, SignatureCategory::Resource, 3840, false) }
    else if i == 13 { ("titanium"@, "Titanium"@, SignatureCategory::Resource, 3855, false) }
    else if i == 14 { ("tungsten"@, "Tungsten"@, SignatureCategory::Resource, 3870, false) }
    else if i == 15 { ("agricium"@, "Agricium"@, SignatureCategory::Resource, 3885, false) }
    else if i == 16 { ("torite"@, "Torite"@, SignatureCategory::Resource, 3900, false) }
    else if i == 17 { ("hephaestanite"@, "Hephaestanite"@, SignatureCategory::Resource, 4180, false) }
    else if i == 18 { ("tin"@, "Tin"@, SignatureCategory::Resource, 4195, false) }
    else if i == 19 { ("quartz"@, "Quartz"@, SignatureCategory::Resource, 4210, false) }
    else if i == 20 { ("corundum"@, "Corundum"@, SignatureCategory::Resource, 4225, false) }
    else if i == 21 { ("copper"@, "Copper"@, SignatureCategory::Resource, 4240, false) }
    else if i == 22 { ("silicon"@, "Silicon"@, SignatureCategory::Resource, 4255, false) }
    else if i == 23 { ("iron"@, "Iron"@, SignatureCategory::Resource, 4270, false) }
    else if i == 24 { ("aluminium"@, "Aluminium"@, SignatureCategory::Resource, 4285, false) }
    else if i == 25 { ("ice"@, "Ice"@, SignatureCategory::Resource, 4300, false) }
    else if i == 26 { ("salvage-panels"@, "Salvage Panels"@, SignatureCategory::Salvage, 2000, true) }
    else if i == 27 { ("asteroid-i"@, "I-Type Asteroid"@, SignatureCategory::AsteroidClass, 4000, false) }
    else { ("asteroid-s"@, "S-Type Asteroid"@, SignatureCategory::AsteroidClass, 4720, false) }
}

pub open spec fn is_seed_row(d: SignatureDefinition, i: int) -> bool {
    let (id, name, category, base, enabled) = seed_row(i);
    &&& d.id@ == id
    &&& d.canonical_name@ == name
    &&& d.category == category
    &&& d.base_signature == base
    &&& d.enabled == enabled
    &&& d.multiplicative
    &&& d.source@ == seed_source()
    &&& d.game_version@ == seed_version()
}

/// The seed signature table, one definition per row of `seed_row`.
pub fn initial_definitions() -> (r: Vec<SignatureDefinition>)
    ensures
        r@.len() == 29,
        forall|i: int| 0 <= i < 29 ==> is_seed_row(#[trigger] r@[i], i),
{
    let mut v: Vec<SignatureDefinition> = Vec::new();
    v.push(sig("quantanium", "Quantanium", SignatureCategory::Resource, 3170, true));
    v.push(sig("stileron", "Stileron", SignatureCategory::Resource, 3185, false));
    v.push(sig("savrilum", "Savrilium", SignatureCategory::Resource, 3200, false));
    v.push(sig("ouratite", "Ouratite", SignatureCategory::Resource, 3370, false));
    v.push(sig("riccite", "Riccite", SignatureCategory::Resource, 3385, true));
    v.push(sig("lindinium", "Lindinium", SignatureCategory::Resource, 3400, true));
    v.push(sig("beryl", "Beryl", SignatureCategory::Resource, 3540, false));
    v.push(sig("taranite", "Taranite", SignatureCategory::Resource, 3555, false));
    v.push(sig("borase", "Borase", SignatureCategory::Resource, 3570, false));
    v.push(sig("gold", "Gold", SignatureCategory::Resource, 3585, false));
    v.push(sig("bexalite", "Bexalite", SignatureCategory::Resource, 3600, false));
    v.push(sig("laranite", "Laranite", SignatureCategory::Resource, 3825, false));
    v.push(sig("aslarite", "Aslarite", SignatureCategory::Resource, 3840, false));
    v.push(sig("titanium", "Titanium", SignatureCategory::Resource, 3855, false));
    v.push(sig("tungsten", "Tungsten", SignatureCategory::Resource, 3870, false));
    v.push(sig("agricium", "Agricium", SignatureCategory::Resource, 3885, false));
    v.push(sig("torite", "Torite", SignatureCategory::Resource, 3900, false));
    v.push(sig("hephaestanite", "Hephaestanite", SignatureCategory::Resource, 4180, false));
    v.push(sig("tin", "Tin", SignatureCategory::Resource, 4195, false));
    v.push(sig("quartz", "Quartz", SignatureCategory::Resource, 4210, false));
    v.push(sig("corundum", "Corundum", SignatureCategory::Resource, 4225, false));
    v.push(sig("copper", "Copper", SignatureCategory::Resource, 4240, false));
    v.push(sig("silicon", "Silicon", SignatureCategory::Resource, 4255, false));
    v.push(sig("iron", "Iron", SignatureCategory::Resource, 4270, false));
    v.push(sig("aluminium", "Aluminium", SignatureCategory::Resource, 4285, false));
    v.push(sig("ice", "Ice", SignatureCategory::Resource, 4300, false));
    v.push(sig("salvage-panels", "Salvage Panels", SignatureCategory::Salvage, 2000, true));
    v.push(sig("asteroid-i", "I-Type Asteroid", SignatureCategory::AsteroidClass, 4000, false));
    v.push(sig("asteroid-s", "S-Type Asteroid", SignatureCategory::AsteroidClass, 4720, false));
    v
}


// ---------------------------------------------------------------------------
// Provider links and log lines
// ---------------------------------------------------------------------------

/// The slug of a commodity name on the UEX site: trimmed, lower-cased,
/// spaces and underscores to hyphens, parentheses removed, doubled hyphens
/// collapsed once.
pub open spec fn uex_slug(name: Seq<char>) -> Seq<char> {
    let a = unicode_lowercase(trim(name, false));
    let b = replace(a, seq![' '], seq!['-']);
    let c = replace(b, seq!['_'], seq!['-']);
    let d = replace(c, seq!['('], seq![]);
    let e = replace(d, seq![')'], seq![]);
    replace(e, seq!['-', '-'], seq!['-'])
}

pub open spec fn uex_commodity_prefix() -> Seq<char> {
    "https://uexcorp.space/commodities/info/name/"@
}

pub fn uex_commodity_url(name: &str) -> (r: String)
    ensures
        r@ == uex_commodity_prefix() + uex_slug(name@),
{
    let trimmed = trim_chars(&chars_of(name), false);
    let lowered = to_lowercase(string_of(&trimmed).as_str());
    let a = chars_of(lowered.as_str());
    let none: Vec<char> = Vec::new();
    let b = replace_chars(&a, &single(' '), &single('-'));
    let c = replace_chars(&b, &single('_'), &single('-'));
    let d = replace_chars(&c, &single('('), &none);
    let e = replace_chars(&d, &single(')'), &none);
    let slug = replace_chars(&e, &pair('-', '-'), &single('-'));
    assert(none@ == Seq::<char>::empty());
    let mut out = chars_of("https://uexcorp.space/commodities/info/name/");
    extend_chars(&mut out, &slug);
    string_of(&out)
}

/// The timestamp of an event-log line: the text between a leading `[` and
/// the first `]`, or `-` when the line has no such prefix.
pub open spec fn log_timestamp_spec(line: Seq<char>) -> Seq<char> {
    if line.len() > 0 && line[0] == '[' && find(line.drop_first(), seq![']']) is Some {
        line.drop_first().take(find(line.drop_first(), seq![']'])->0)
    } else {
        "-"@
    }
}

pub fn log_timestamp(line: &str) -> (r: String)
    ensures
        r@ == log_timestamp_spec(line@),
{
    let v = chars_of(line);
    if v.len() > 0 && v[0] == '[' {
        let rest = slice_chars(&v, 1, v.len());
        assert(rest@ == line@.drop_first());
        if let Some(end) = find_chars(&rest, &single(']')) {
            return string_of(&slice_chars(&rest, 0, end));
        }
    }
    "-".to_owned()
}

/// The value of `key=...` in an event-log line: the quoted text when the
/// value starts with `"` (absent without a closing quote), else the text up
/// to the next whitespace.
pub open spec fn log_field_spec(line: Seq<char>, key: Seq<char>) -> Option<Seq<char>> {
    let needle = key.push('=');
    match find(line, needle) {
        None => None,
        Some(i) => {
            field_value(line.skip(i + needle.len()))
        },
    }
}

/// The value at the start of the text following `key=`.
pub open spec fn field_value(tail: Seq<char>) -> Option<Seq<char>> {
    if tail.len() > 0 && tail[0] == '"' {
        match find(tail.drop_first(), seq!['"']) {
            Some(end) => Some(tail.drop_first().take(end)),
            None => None,
        }
    } else {
        Some(tail.take(first_ws(tail)))
    }
}

fn read_field_value(tail: &[char]) -> (r: Option<String>)
    ensures
        match r {
            Some(s) => field_value(tail@) == Some(s@),
            None => field_value(tail@) is None,
        },
{
    if tail.len() > 0 && tail[0] == '"' {
        let stripped = slice_chars(tail, 1, tail.len());
        assert(stripped@ == tail@.drop_first());
        match find_chars(&stripped, &single('"')) {
            Some(end) => Some(string_of(&slice_chars(&stripped, 0, end))),
            None => None,
        }
    } else {
        let end = first_ws_index(tail);
        Some(string_of(&slice_chars(tail, 0, end)))
    }
}

pub fn log_field(line: &str, key: &str) -> (r: Option<String>)
    ensures
        match r {
            Some(s) => log_field_spec(line@, key@) == Some(s@),
            None => log_field_spec(line@, key@) is None,
        },
{
    let v = chars_of(line);
    let mut needle = chars_of(key);
    needle.push('=');
    let start = match find_chars(v.as_slice(), needle.as_slice()) {
        Some(i) => {
            assert(matches_at(v@, i as int, needle@));
            assert(v@.len() == v.len() && needle@.len() == needle.len());
            i + needle.len()
        },
        None => return None,
    };
    let tail = slice_chars(&v, start, v.len());
    assert(tail@ == line@.skip(start as int));
    read_field_value(&tail)
}

/// The kind of event a log line records, as the log viewer lists it.
#[derive(Debug, Clone, Copy, PartialEq, Eq, Structural)]
pub enum LogEventKind {
    Detection,
    Enrichment,
    Scanner,
    Info,
}

pub open spec fn event_label_spec(k: LogEventKind) -> Seq<char> {
    match k {
        LogEventKind::Detection => "DETECTION"@,
        LogEventKind::Enrichment => "ENRICH"@,
        LogEventKind::Scanner => "SCANNER"@,
        LogEventKind::Info => "INFO"@,
    }
}

impl LogEventKind {
    /// The label of the event column.
    pub fn label(self) -> (r: &'static str)
        ensures
            r@ == event_label_spec(self),
    {
        match self {
            LogEventKind::Detection => "DETECTION",
            LogEventKind::Enrichment => "ENRICH",
            LogEventKind::Scanner => "SCANNER",
            LogEventKind::Info => "INFO",
        }
    }
}

/// One log line sorted into the viewer's columns.
#[derive(Debug, Clone)]
pub struct LogRow {
    pub time: String,
    pub event: LogEventKind,
    pub target: String,
    pub rs: String,
    pub count: String,
    pub category: String,
    pub price: String,
    pub route: String,
    /// The target can be clicked to enrich it.
    pub clickable: bool,
}

/// The columns of a log row, as texts.
pub struct LogRowView {
    pub time: Seq<char>,
    pub event: LogEventKind,
    pub target: Seq<char>,
    pub rs: Seq<char>,
    pub count: Seq<char>,
    pub category: Seq<char>,
    pub price: Seq<char>,
    pub route: Seq<char>,
    pub clickable: bool,
}

impl LogRow {
    pub open spec fn row_view(&self) -> LogRowView {
        LogRowView {
            time: self.time@,
            event: self.event,
            target: self.target@,
            rs: self.rs@,
            count: self.count@,
            category: self.category@,
            price: self.price@,
            route: self.route@,
            clickable: self.clickable,
        }
    }
}

/// A field of the line, or "-" when it has none.
pub open spec fn field_or_dash(line: Seq<char>, key: Seq<char>) -> Seq<char> {
    match log_field_spec(line, key) {
        Some(v) => v,
        None => "-"@,
    }
}

/// How the log viewer sorts a line into columns: detections show the
/// target, its signature, cluster size and category; enrichments the target,
/// refined price and location; scanner events the state; any other line is
/// shown whole as the target. Detections and enrichments of a named target
/// can be clicked.
pub open spec fn log_row_spec(line: Seq<char>) -> LogRowView {
    let dash = "-"@;
    let time = log_timestamp_spec(line);
    if contains(line, "event=DETECTION"@) {
        let target = field_or_dash(line, "name"@);
        LogRowView {
            time,
            event: LogEventKind::Detection,
            target,
            rs: field_or_dash(line, "rs"@),
            count: field_or_dash(line, "multiplier"@),
            category: field_or_dash(line, "category"@),
            price: dash,
            route: dash,
            clickable: target != dash,
        }
    } else if contains(line, "event=ENRICHMENT"@) {
        let target = field_or_dash(line, "name"@);
        LogRowView {
            time,
            event: LogEventKind::Enrichment,
            target,
            rs: dash,
            count: dash,
            category: "DATA"@,
            price: field_or_dash(line, "refined_price"@),
            route: field_or_dash(line, "refined_location"@),
            clickable: target != dash,
        }
    } else if contains(line, "event=SCANNER"@) {
        LogRowView {
            time,
            event: LogEventKind::Scanner,
            target: field_or_dash(line, "state"@),
            rs: dash,
            count: dash,
            category: dash,
            price: dash,
            route: dash,
            clickable: false,
        }
    } else {
        LogRowView {
            time,
            event: LogEventKind::Info,
            target: line,
            rs: dash,
            count: dash,
            category: dash,
            price: dash,
            route: dash,
            clickable: false,
        }
    }
}

fn dash() -> (r: String)
    ensures
        r@ == "-"@,
{
    "-".to_owned()
}

fn field_or_dash_of(line: &str, key: &str) -> (r: String)
    ensures
        r@ == field_or_dash(line@, key@),
{
    match log_field(line, key) {
        Some(v) => v,
        None => dash(),
    }
}

/// Sorts one event-log line into the viewer's columns.
pub fn log_row(line: &str) -> (r: LogRow)
    ensures
        r.row_view() == log_row_spec(line@),
{
    proof {
        reveal_strlit("-");
    }
    let v = chars_of(line);
    let time = log_timestamp(line);
    if contains_chars(&v, &chars_of("event=DETECTION")) {
        let target = field_or_dash_of(line, "name");
        let clickable = !str_eq(target.as_str(), "-");
        LogRow {
            time,
            event: LogEventKind::Detection,
            target,
            rs: field_or_dash_of(line, "rs"),
            count: field_or_dash_of(line, "multiplier"),
            category: field_or_dash_of(line, "category"),
            price: dash(),
            route: dash(),
            clickable,
        }
    } else if contains_chars(&v, &chars_of("event=ENRICHMENT")) {
        let target = field_or_dash_of(line, "name");
        let clickable = !str_eq(target.as_str(), "-");
        LogRow {
            time,
            event: LogEventKind::Enrichment,
            target,
            rs: dash(),
            count: dash(),
            category: "DATA".to_owned(),
            price: field_or_dash_of(line, "refined_price"),
            route: field_or_dash_of(line, "refined_location"),
            clickable,
        }
    } else if contains_chars(&v, &chars_of("event=SCANNER")) {
        LogRow {
            time,
            event: LogEventKind::Scanner,
            target: field_or_dash_of(line, "state"),
            rs: dash(),
            count: dash(),
            category: dash(),
            price: dash(),
            route: dash(),
            clickable: false,
        }
    } else {
        LogRow {
            time,
            event: LogEventKind::Info,
            target: line.to_owned(),
            rs: dash(),
            count: dash(),
            category: dash(),
            price: dash(),
            route: dash(),
            clickable: false,
        }
    }
}

/// Reading a capture line back: in a line made of a prefix holding no `=`
/// (the timestamp) and the capture message, the `event` field is `CAPTURE`
/// and the `backend` field is the sanitised backend name, whatever the name
/// holds.
pub proof fn law_capture_line_fields(prefix: Seq<char>, backend: Seq<char>)
    requires
        forall|i: int| 0 <= i < prefix.len() ==> prefix[i] != '=',
    ensures
        log_field_spec(prefix + capture_message(backend), "event"@) == Some("CAPTURE"@),
        log_field_spec(prefix + capture_message(backend), "backend"@) == Some(
            sanitize_log_spec(backend),
        ),
{
    reveal_strlit("event=CAPTURE backend=\"");
    reveal_strlit("\"");
    reveal_strlit("event");
    reveal_strlit("backend");
    reveal_strlit("CAPTURE");
    let head = "event=CAPTURE backend=\""@;
    let sb = sanitize_log_spec(backend);
    let m = capture_message(backend);
    let line = prefix + m;
    let p = prefix.len() as int;
    assert(head.len() == 23);
    assert forall|k: int| 0 <= k < 23 implies #[trigger] line[p + k] == head[k] by {
        assert(line[p + k] == m[k]);
    }
    // The `event` field.
    let ne = "event"@.push('=');
    assert(line.subrange(p, p + 6) =~= ne) by {
        assert forall|k: int| 0 <= k < 6 implies line.subrange(p, p + 6)[k] == ne[k] by {
            assert(line[p + k] == head[k]);
        }
    }
    assert forall|j: int| 0 <= j < p implies !matches_at(line, j, ne) by {
        if matches_at(line, j, ne) {
            assert(line.subrange(j, j + 6)[5] == ne[5]);
            if j + 5 < p {
                assert(line[j + 5] == prefix[j + 5]);
            } else {
                assert(line[p + (j + 5 - p)] == head[j + 5 - p]);
            }
        }
    }
    lemma_find_unique(line, ne, p);
    let te = line.skip(p + 6);
    assert forall|k: int| 0 <= k < 7 implies !is_ws(#[trigger] te[k]) by {
        assert(line[p + (6 + k)] == head[6 + k]);
    }
    assert(is_ws(te[7])) by {
        assert(line[p + 13] == head[13]);
    }
    lemma_first_ws_exact(te, 7);
    assert(te.take(7) =~= "CAPTURE"@) by {
        assert forall|k: int| 0 <= k < 7 implies te.take(7)[k] == "CAPTURE"@[k] by {
            assert(line[p + (6 + k)] == head[6 + k]);
        }
    }
    // The `backend` field.
    let nb = "backend"@.push('=');
    assert(line.subrange(p + 14, p + 22) =~= nb) by {
        assert forall|k: int| 0 <= k < 8 implies line.subrange(p + 14, p + 22)[k] == nb[k] by {
            assert(line[p + (14 + k)] == head[14 + k]);
        }
    }
    assert forall|j: int| 0 <= j < p + 14 implies !matches_at(line, j, nb) by {
        if matches_at(line, j, nb) {
            assert(line.subrange(j, j + 8)[7] == nb[7]);
            assert(line.subrange(j, j + 8)[6] == nb[6]);
            if j + 7 < p {
                assert(line[j + 7] == prefix[j + 7]);
            } else {
                assert(line[p + (j + 7 - p)] == head[j + 7 - p]);
                if j + 7 - p == 5 {
                    assert(line[p + 4] == head[4]);
                }
            }
        }
    }
    lemma_find_unique(line, nb, p + 14);
    let tb = line.skip(p + 22);
    assert(tb[0] == '"') by {
        assert(line[p + 22] == head[22]);
    }
    let rest = tb.drop_first();
    assert(rest =~= sb + seq!['"']) by {
        assert(line =~= prefix + head + sb + seq!['"']);
    }
    law_sanitized_values_stay_on_one_line(backend);
    assert(rest.subrange(sb.len() as int, sb.len() + 1int) =~= seq!['"']);
    assert forall|j: int| 0 <= j < sb.len() implies !matches_at(rest, j, seq!['"']) by {
        if matches_at(rest, j, seq!['"']) {
            assert(rest.subrange(j, j + 1)[0] == '"');
            assert(rest[j] == sb[j]);
        }
    }
    lemma_find_unique(rest, seq!['"'], sb.len() as int);
    assert(rest.take(sb.len() as int) =~= sb);
}

// ---------------------------------------------------------------------------
// Calibration move mode and live detections
// ---------------------------------------------------------------------------

pub open spec fn clamp(v: int, lo: int, hi: int) -> int {
    if v < lo {
        lo
    } else if v > hi {
        hi
    } else {
        v
    }
}

/// Upper bound of a coordinate on the monitor: the free space, cast to `i32`
/// (wrapping for spans above `i32::MAX`), never below zero.
pub open spec fn coordinate_max(monitor_span: u32, region_span: u32) -> int {
    let free = if monitor_span >= region_span { monitor_span - region_span } else { 0 };
    let m = free as i32;
    if m < 0 {
        0
    } else {
        m as int
    }
}

/// One step of the arrow-key move mode: the region moves by one pixel per
/// pressed direction, clamped to the monitor; without a net direction it
/// stays where it is.
pub fn move_region(
    region: CaptureRegion,
    monitor_width: u32,
    monitor_height: u32,
    left: bool,
    right: bool,
    up: bool,
    down: bool,
) -> (r: CaptureRegion)
    requires
        right && !left ==> region.x < i32::MAX,
        left && !right ==> region.x > i32::MIN,
        down && !up ==> region.y < i32::MAX,
        up && !down ==> region.y > i32::MIN,
    ensures
        ({
            let dx = (if right { 1int } else { 0 }) - (if left { 1int } else { 0 });
            let dy = (if down { 1int } else { 0 }) - (if up { 1int } else { 0 });
            if dx == 0 && dy == 0 {
                r == region
            } else {
                &&& r.x == clamp(region.x + dx, 0, coordinate_max(monitor_width, region.width))
                &&& r.y == clamp(region.y + dy, 0, coordinate_max(monitor_height, region.height))
                &&& r.width == region.width
                &&& r.height == region.height
            }
        }),
{
    let dx: i32 = (if right { 1i32 } else { 0 }) - (if left { 1i32 } else { 0 });
    let dy: i32 = (if down { 1i32 } else { 0 }) - (if up { 1i32 } else { 0 });
    if dx == 0 && dy == 0 {
        return region;
    }
    let free_x = monitor_width.saturating_sub(region.width);
    let free_y = monitor_height.saturating_sub(region.height);
    let max_x_raw = #[verifier::truncate] (free_x as i32);
    let max_y_raw = #[verifier::truncate] (free_y as i32);
    let max_x = if max_x_raw < 0 { 0 } else { max_x_raw };
    let max_y = if max_y_raw < 0 { 0 } else { max_y_raw };
    let nx = region.x + dx;
    let ny = region.y + dy;
    let x = if nx < 0 { 0 } else if nx > max_x { max_x } else { nx };
    let y = if ny < 0 { 0 } else if ny > max_y { max_y } else { ny };
    CaptureRegion { x, y, width: region.width, height: region.height }
}

/// The first detection among OCR value candidates: the first value with any
/// alerting match, reported by its best-ranked match.
pub open spec fn first_detection(values: Seq<u32>, defs: Seq<SignatureDefinition>) -> Option<
    DetectionCandidate,
>
    decreases values.len(),
{
    if values.len() == 0 {
        None
    } else if matches_spec(values[0], defs, true).len() > 0 {
        Some(matches_spec(values[0], defs, true)[0])
    } else {
        first_detection(values.drop_first(), defs)
    }
}

pub fn first_live_detection(values: &[u32], definitions: &[SignatureDefinition]) -> (r: Option<
    DetectionCandidate,
>)
    ensures
        r == first_detection(values@, definitions@),
{
    let mut i: usize = 0;
    assert(values@.skip(0) == values@);
    while i < values.len()
        invariant
            i <= values.len(),
            first_detection(values@, definitions@) == first_detection(values@.skip(i as int), definitions@),
        decreases values.len() - i,
    {
        let mut found = match_signature(values[i], definitions);
        assert(values@.skip(i as int)[0] == values@[i as int]);
        if found.len() > 0 {
            return Some(found.remove(0));
        }
        assert(values@.skip(i as int).drop_first() == values@.skip(i + 1));
        i += 1;
    }
    None
}

/// The first definition with id `id` exists and is enabled.
pub open spec fn target_enabled(defs: Seq<SignatureDefinition>, id: Seq<char>) -> bool
    decreases defs.len(),
{
    if defs.len() == 0 {
        false
    } else if defs[0].id@ == id {
        defs[0].enabled
    } else {
        target_enabled(defs.drop_first(), id)
    }
}

pub fn is_target_enabled(definitions: &[SignatureDefinition], id: &str) -> (r: bool)
    ensures
        r == target_enabled(definitions@, id@),
{
    let mut i: usize = 0;
    assert(definitions@.skip(0) == definitions@);
    while i < definitions.len()
        invariant
            i <= definitions.len(),
            target_enabled(definitions@, id@) == target_enabled(definitions@.skip(i as int), id@),
        decreases definitions.len() - i,
    {
        assert(definitions@.skip(i as int)[0] == definitions@[i as int]);
        if str_eq(definitions[i].id.as_str(), id) {
            return definitions[i].enabled;
        }
        assert(definitions@.skip(i as int).drop_first() == definitions@.skip(i + 1));
        i += 1;
    }
    false
}

/// The first of the candidates whose target is not enabled.
pub open spec fn first_not_enabled(cs: Seq<DetectionCandidate>, defs: Seq<SignatureDefinition>) -> Option<
    DetectionCandidate,
>
    decreases cs.len(),
{
    if cs.len() == 0 {
        None
    } else if !target_enabled(defs, cs[0].target_id@) {
        Some(cs[0])
    } else {
        first_not_enabled(cs.drop_first(), defs)
    }
}

/// The potential candidate shown beside the live detection: for the first
/// OCR value that has one, the best-ranked match among all definitions
/// whose target is not enabled. Its observed signature is that value.
pub open spec fn potential_candidate_spec(values: Seq<u32>, defs: Seq<SignatureDefinition>) -> Option<
    DetectionCandidate,
>
    decreases values.len(),
{
    if values.len() == 0 {
        None
    } else {
        match first_not_enabled(matches_spec(values[0], defs, false), defs) {
            Some(c) => Some(c),
            None => potential_candidate_spec(values.drop_first(), defs),
        }
    }
}

fn first_not_enabled_of(cands: Vec<DetectionCandidate>, definitions: &[SignatureDefinition]) -> (r: Option<
    DetectionCandidate,
>)
    ensures
        r == first_not_enabled(cands@, definitions@),
{
    let mut found = cands;
    let ghost all = found@;
    let mut i: usize = 0;
    assert(all.skip(0) == all);
    while i < found.len()
        invariant
            found@ == all,
            all == cands@,
            i <= found.len(),
            first_not_enabled(all, definitions@) == first_not_enabled(all.skip(i as int), definitions@),
        decreases found.len() - i,
    {
        assert(all.skip(i as int)[0] == all[i as int]);
        let enabled = is_target_enabled(definitions, found[i].target_id.as_str());
        if !enabled {
            assert(!target_enabled(definitions@, all[i as int].target_id@));
            assert(first_not_enabled(all.skip(i as int), definitions@) == Some(all[i as int]));
            let c = found.remove(i);
            return Some(c);
        }
        assert(all.skip(i as int).drop_first() == all.skip(i + 1));
        i += 1;
    }
    None
}

pub fn potential_candidate(values: &[u32], definitions: &[SignatureDefinition]) -> (r: Option<
    DetectionCandidate,
>)
    ensures
        r == potential_candidate_spec(values@, definitions@),
{
    let mut i: usize = 0;
    assert(values@.skip(0) == values@);
    while i < values.len()
        invariant
            i <= values.len(),
            potential_candidate_spec(values@, definitions@) == potential_candidate_spec(
                values@.skip(i as int),
                definitions@,
            ),
        decreases values.len() - i,
    {
        assert(values@.skip(i as int)[0] == values@[i as int]);
        let found = resolve_signature(values[i], definitions);
        if let Some(c) = first_not_enabled_of(found, definitions) {
            return Some(c);
        }
        assert(values@.skip(i as int).drop_first() == values@.skip(i + 1));
        i += 1;
    }
    None
}

// ---------------------------------------------------------------------------
// Saved target flags and the order of the target list
// ---------------------------------------------------------------------------

pub open spec fn flags_view(v: Seq<(String, bool)>) -> Seq<(Seq<char>, bool)> {
    v.map_values(|e: (String, bool)| (e.0@, e.1))
}

/// The saved on/off flag of a target: that of the first saved entry with
/// its id, if any.
pub open spec fn saved_flag(saved: Seq<(Seq<char>, bool)>, id: Seq<char>) -> Option<bool>
    decreases saved.len(),
{
    if saved.len() == 0 {
        None
    } else if saved[0].0 == id {
        Some(saved[0].1)
    } else {
        saved_flag(saved.drop_first(), id)
    }
}

/// A definition with its saved flag applied; without one it is unchanged.
pub open spec fn with_saved_flag(d: SignatureDefinition, saved: Seq<(Seq<char>, bool)>) -> SignatureDefinition {
    match saved_flag(saved, d.id@) {
        Some(e) => SignatureDefinition { enabled: e, ..d },
        None => d,
    }
}

fn find_saved_flag(saved: &[(String, bool)], id: &str) -> (r: Option<bool>)
    ensures
        r == saved_flag(flags_view(saved@), id@),
{
    let ghost fs = flags_view(saved@);
    let mut i: usize = 0;
    assert(fs.skip(0) == fs);
    while i < saved.len()
        invariant
            i <= saved.len(),
            fs == flags_view(saved@),
            saved_flag(fs, id@) == saved_flag(fs.skip(i as int), id@),
        decreases saved.len() - i,
    {
        assert(fs.skip(i as int)[0] == fs[i as int]);
        if str_eq(saved[i].0.as_str(), id) {
            return Some(saved[i].1);
        }
        assert(fs.skip(i as int).drop_first() == fs.skip(i + 1));
        i += 1;
    }
    None
}

/// Applies the saved on/off flags (by target id) to the definitions.
pub fn apply_saved_flags(definitions: &mut Vec<SignatureDefinition>, saved: &[(String, bool)])
    ensures
        final(definitions)@.len() == old(definitions)@.len(),
        forall|i: int|
            0 <= i < old(definitions)@.len() ==> #[trigger] final(definitions)@[i] == with_saved_flag(
                old(definitions)@[i],
                flags_view(saved@),
            ),
{
    let ghost orig = definitions@;
    let mut i: usize = 0;
    while i < definitions.len()
        invariant
            i <= definitions.len(),
            definitions@.len() == orig.len(),
            forall|k: int| 0 <= k < i ==> #[trigger] definitions@[k] == with_saved_flag(orig[k], flags_view(saved@)),
            forall|k: int| i <= k < orig.len() ==> #[trigger] definitions@[k] == orig[k],
        decreases definitions.len() - i,
    {
        let flag = find_saved_flag(saved, definitions[i].id.as_str());
        if let Some(e) = flag {
            definitions[i].enabled = e;
        }
        i += 1;
    }
}

/// The key the target list is sorted by: the ASCII lower-cased name.
pub open spec fn name_keys(ds: Seq<SignatureDefinition>) -> Seq<Seq<char>> {
    ds.map_values(|d: SignatureDefinition| lower(d.canonical_name@))
}

/// The definitions sorted by name, ignoring ASCII case; definitions with
/// equal keys keep their order.
pub fn sort_definitions_by_name(definitions: Vec<SignatureDefinition>) -> (r: Vec<SignatureDefinition>)
    ensures
        exists|order: Seq<usize>|
            is_stable_order(name_keys(definitions@), order) && r@ == order.map_values(
                |i: usize| definitions@[i as int],
            ),
{
    let ghost orig = definitions@;
    let ghost keys_view = name_keys(orig);
    let n = definitions.len();
    let mut keys: Vec<Vec<char>> = Vec::new();
    let mut k: usize = 0;
    while k < n
        invariant
            k <= n,
            n == orig.len(),
            definitions@ == orig,
            keys_view == name_keys(orig),
            views(keys@) == keys_view.take(k as int),
        decreases n - k,
    {
        let key = lower_chars(&chars_of(definitions[k].canonical_name.as_str()));
        assert(key@ == keys_view[k as int]);
        let ghost prev = keys@;
        keys.push(key);
        assert(views(keys@) =~= views(prev).push(key@));
        k += 1;
        assert(views(keys@) =~= keys_view.take(k as int));
    }
    assert(keys_view.take(n as int) =~= keys_view);
    let order = stable_order(&keys);
    let mut rest = definitions;
    let mut slots: Vec<Option<SignatureDefinition>> = Vec::new();
    let mut m: usize = 0;
    while m < n
        invariant
            m <= n,
            n == orig.len(),
            rest@ == orig.skip(m as int),
            slots@.len() == m,
            forall|t: int| 0 <= t < m ==> #[trigger] slots@[t] == Some(orig[t]),
        decreases n - m,
    {
        assert(rest@[0] == orig[m as int]);
        let d = rest.remove(0);
        slots.push(Some(d));
        m += 1;
        assert(rest@ =~= orig.skip(m as int));
    }
    let mut out: Vec<SignatureDefinition> = Vec::new();
    let mut j: usize = 0;
    while j < n
        invariant
            j <= n,
            n == orig.len(),
            order@.len() == n,
            is_stable_order(keys_view, order@),
            slots@.len() == n,
            forall|t: int| j <= t < n ==> #[trigger] slots@[order@[t] as int] == Some(orig[order@[t] as int]),
            out@ == order@.take(j as int).map_values(|i: usize| orig[i as int]),
        decreases n - j,
    {
        let idx = order[j];
        assert(order@[j as int] < n);
        let ghost before_slots = slots@;
        let taken = slots[idx].take();
        assert(taken == Some(orig[idx as int]));
        assert forall|t: int| j + 1 <= t < n implies #[trigger] slots@[order@[t] as int] == Some(
            orig[order@[t] as int],
        ) by {
            lemma_stable_order_distinct(keys_view, order@, j as int, t);
            assert(slots@[order@[t] as int] == before_slots[order@[t] as int]);
        }
        match taken {
            Some(d) => out.push(d),
            None => {},
        }
        j += 1;
        assert(out@ =~= order@.take(j as int).map_values(|i: usize| orig[i as int]));
    }
    assert(order@.take(n as int) =~= order@);
    out
}

} // verus!
