//! The SCUnpacked commodity catalogue: mineral records, name normalisation
//! and the raw/refined profile of a mineral.
use vstd::prelude::*;
use vstd::string::StringSliceAdditionalSpecFns;

use vstd::utf8::encode_utf8;

use crate::order::{before, is_stable_order, lemma_stable_order_distinct, stable_order, text_lt};
use crate::text::{
    chars_of, contains, contains_chars, eq_ignore_ascii_case, is_match_at, is_upper, is_ws,
    lemma_lower_chars, lemma_lower_no_upper, lemma_replace_absent, lemma_trim_ends,
    lemma_trim_of_trimmed, lower, lower_chars, replace, replace_chars, starts_with, str_eq,
    string_of, trim, trim_chars, views,
};

verus! {

/// One commodity record of the catalogue (the fields the scanner reads).
#[derive(Debug, Clone)]
pub struct ScUnpackedCommodity {
    pub uuid: String,
    pub key: String,
    pub name: String,
    pub description: String,
    pub refined_version_uuid: Option<String>,
    pub refined_version_name: Option<String>,
    pub tier: Option<String>,
    pub commodity_groups: Vec<String>,
}

/// The content of a commodity record.
pub struct CommodityView {
    pub uuid: Seq<char>,
    pub key: Seq<char>,
    pub name: Seq<char>,
    pub description: Seq<char>,
    pub refined_version_uuid: Option<Seq<char>>,
    pub refined_version_name: Option<Seq<char>>,
    pub tier: Option<Seq<char>>,
    pub commodity_groups: Seq<Seq<char>>,
}

pub open spec fn opt_view(o: Option<String>) -> Option<Seq<char>> {
    match o {
        Some(s) => Some(s@),
        None => None,
    }
}

pub open spec fn strings_view(v: Seq<String>) -> Seq<Seq<char>> {
    v.map_values(|s: String| s@)
}

impl View for ScUnpackedCommodity {
    type V = CommodityView;

    open spec fn view(&self) -> CommodityView {
        CommodityView {
            uuid: self.uuid@,
            key: self.key@,
            name: self.name@,
            description: self.description@,
            refined_version_uuid: opt_view(self.refined_version_uuid),
            refined_version_name: opt_view(self.refined_version_name),
            tier: opt_view(self.tier),
            commodity_groups: strings_view(self.commodity_groups@),
        }
    }
}

impl Default for ScUnpackedCommodity {
    fn default() -> (r: Self)
        ensures
            r@ == (CommodityView {
                uuid: seq![],
                key: seq![],
                name: seq![],
                description: seq![],
                refined_version_uuid: None,
                refined_version_name: None,
                tier: None,
                commodity_groups: seq![],
            }),
    {
        let r = ScUnpackedCommodity {
            uuid: String::new(),
            key: String::new(),
            name: String::new(),
            description: String::new(),
            refined_version_uuid: None,
            refined_version_name: None,
            tier: None,
            commodity_groups: Vec::new(),
        };
        assert(strings_view(r.commodity_groups@) =~= seq![]);
        r
    }
}

pub fn copy_string_opt(o: &Option<String>) -> (r: Option<String>)
    ensures
        opt_view(r) == opt_view(*o),
{
    match o {
        Some(s) => Some(s.clone()),
        None => None,
    }
}

pub fn copy_strings(v: &Vec<String>) -> (r: Vec<String>)
    ensures
        strings_view(r@) == strings_view(v@),
{
    let mut out: Vec<String> = Vec::new();
    let mut i: usize = 0;
    while i < v.len()
        invariant
            i <= v.len(),
            out@.len() == i,
            forall|k: int| 0 <= k < i ==> #[trigger] out@[k]@ == v@[k]@,
        decreases v.len() - i,
    {
        out.push(v[i].clone());
        i += 1;
    }
    assert(strings_view(out@) =~= strings_view(v@));
    out
}

impl ScUnpackedCommodity {
    /// A copy with the same content.
    pub fn copy(&self) -> (r: Self)
        ensures
            r@ == self@,
    {
        ScUnpackedCommodity {
            uuid: self.uuid.clone(),
            key: self.key.clone(),
            name: self.name.clone(),
            description: self.description.clone(),
            refined_version_uuid: copy_string_opt(&self.refined_version_uuid),
            refined_version_name: copy_string_opt(&self.refined_version_name),
            tier: copy_string_opt(&self.tier),
            commodity_groups: copy_strings(&self.commodity_groups),
        }
    }
}

/// The raw and refined records of one mineral.
#[derive(Debug, Clone)]
pub struct MineralProfile {
    pub canonical_name: String,
    pub refined: Option<ScUnpackedCommodity>,
    pub raw: Option<ScUnpackedCommodity>,
}

pub open spec fn commodity_opt_view(o: Option<ScUnpackedCommodity>) -> Option<CommodityView> {
    match o {
        Some(c) => Some(c@),
        None => None,
    }
}

/// The commodity catalogue and where it was read from.
#[derive(Debug, Clone)]
pub struct ScUnpackedCatalog {
    pub source_path: String,
    pub commodities: Vec<ScUnpackedCommodity>,
}

pub open spec fn commodities_view(v: Seq<ScUnpackedCommodity>) -> Seq<CommodityView> {
    v.map_values(|c: ScUnpackedCommodity| c@)
}

/// A refinery-capable station derived from the trade-location dataset.
#[derive(Debug, Clone)]
pub struct ScUnpackedRefineryLocation {
    pub stable_id: i64,
    pub location: String,
}

// ---------------------------------------------------------------------------
// Names and groups
// ---------------------------------------------------------------------------

/// Name normalisation: "(Raw)" and "(Ore)" removed, the "Quantainium"
/// spelling corrected, whitespace trimmed, ASCII lower-cased.
pub open spec fn normalize_name_spec(s: Seq<char>) -> Seq<char> {
    let a = replace(s, "(Raw)"@, seq![]);
    let b = replace(a, "(Ore)"@, seq![]);
    let c = replace(b, "Quantainium"@, "Quantanium"@);
    lower(trim(c, false))
}

pub fn normalize_name(value: &str) -> (r: String)
    ensures
        r@ == normalize_name_spec(value@),
{
    proof {
        reveal_strlit("(Raw)");
        reveal_strlit("(Ore)");
        reveal_strlit("Quantainium");
    }
    let v = chars_of(value);
    let none: Vec<char> = Vec::new();
    let a = replace_chars(&v, &chars_of("(Raw)"), &none);
    let b = replace_chars(&a, &chars_of("(Ore)"), &none);
    let c = replace_chars(&b, &chars_of("Quantainium"), &chars_of("Quantanium"));
    let t = trim_chars(&c, false);
    assert(none@ == Seq::<char>::empty());
    string_of(&lower_chars(&t))
}

/// A normalised name holds no ASCII upper-case letter, starts and ends with
/// no whitespace, and normalising it again changes nothing.
pub proof fn law_normalize_name(s: Seq<char>)
    ensures
        forall|i: int| 0 <= i < normalize_name_spec(s).len() ==> !is_upper(
            #[trigger] normalize_name_spec(s)[i],
        ),
        normalize_name_spec(s).len() > 0 ==> !is_ws(normalize_name_spec(s)[0]) && !is_ws(
            normalize_name_spec(s).last(),
        ),
        normalize_name_spec(normalize_name_spec(s)) == normalize_name_spec(s),
{
    reveal_strlit("(Raw)");
    reveal_strlit("(Ore)");
    reveal_strlit("Quantainium");
    let n = normalize_name_spec(s);
    let a = replace(s, "(Raw)"@, seq![]);
    let b = replace(a, "(Ore)"@, seq![]);
    let c = replace(b, "Quantainium"@, "Quantanium"@);
    let t = trim(c, false);
    lemma_trim_ends(c, false);
    lemma_lower_chars(t);
    assert(n == lower(t));
    if n.len() > 0 {
        assert(!is_ws(n[0]) && !is_ws(n[n.len() - 1]));
    }
    assert("(Raw)"@[1] == 'R');
    assert("(Ore)"@[1] == 'O');
    assert("Quantainium"@[0] == 'Q');
    lemma_replace_absent(n, "(Raw)"@, seq![], 1);
    lemma_replace_absent(n, "(Ore)"@, seq![], 1);
    lemma_replace_absent(n, "Quantainium"@, "Quantanium"@, 0);
    lemma_trim_of_trimmed(n, false);
    lemma_lower_no_upper(n);
}

pub open spec fn mineral_group(g: Seq<char>) -> bool {
    g == "Mineral"@ || g == "Metal"@ || g == "Raw_Minerals"@ || g == "UnrefinedOres"@
}

/// A commodity is a mineral when one of its groups is a mineral group.
pub open spec fn is_mineral_spec(c: CommodityView) -> bool {
    exists|i: int| 0 <= i < c.commodity_groups.len() && mineral_group(#[trigger] c.commodity_groups[i])
}

pub open spec fn any_mineral_group(groups: Seq<Seq<char>>) -> bool {
    exists|i: int| 0 <= i < groups.len() && mineral_group(#[trigger] groups[i])
}

/// One of the groups is a mineral group.
pub fn has_mineral_group(groups: &Vec<String>) -> (r: bool)
    ensures
        r == any_mineral_group(strings_view(groups@)),
{
    let mut i: usize = 0;
    while i < groups.len()
        invariant
            i <= groups.len(),
            forall|k: int| 0 <= k < i ==> !mineral_group(#[trigger] strings_view(groups@)[k]),
        decreases groups.len() - i,
    {
        let g = groups[i].as_str();
        if str_eq(g, "Mineral") || str_eq(g, "Metal") || str_eq(g, "Raw_Minerals") || str_eq(
            g,
            "UnrefinedOres",
        ) {
            assert(mineral_group(strings_view(groups@)[i as int]));
            return true;
        }
        i += 1;
    }
    false
}

pub fn is_mineral(commodity: &ScUnpackedCommodity) -> (r: bool)
    ensures
        r == is_mineral_spec(commodity@),
{
    let r = has_mineral_group(&commodity.commodity_groups);
    assert(commodity@.commodity_groups =~= strings_view(commodity.commodity_groups@));
    r
}

/// Number of mineral records in a sequence.
pub open spec fn mineral_count_spec(cs: Seq<CommodityView>) -> nat
    decreases cs.len(),
{
    if cs.len() == 0 {
        0
    } else if is_mineral_spec(cs.last()) {
        mineral_count_spec(cs.drop_last()) + 1
    } else {
        mineral_count_spec(cs.drop_last())
    }
}

// ---------------------------------------------------------------------------
// Stable identifiers
// ---------------------------------------------------------------------------

pub open spec fn fnv_prime() -> u64 {
    0x100000001b3
}

/// 64-bit FNV-1a over a byte string.
pub open spec fn fnv1a(bytes: Seq<u8>) -> u64
    decreases bytes.len(),
{
    if bytes.len() == 0 {
        0xcbf29ce484222325
    } else {
        let h = fnv1a(bytes.drop_last()) ^ (bytes.last() as u64);
        ((h as nat * fnv_prime() as nat) % 0x1_0000_0000_0000_0000) as u64
    }
}

/// A negative identifier derived from a text: the FNV-1a hash of its UTF-8
/// bytes, masked to 62 bits, at least 1, negated.
pub open spec fn stable_negative_id_spec(bytes: Seq<u8>) -> int {
    let m = (fnv1a(bytes) & 0x3fff_ffff_ffff_ffff) as int;
    if m < 1 {
        -1
    } else {
        -m
    }
}

pub fn stable_negative_id(value: &str) -> (r: i64)
    ensures
        r == stable_negative_id_spec(value.spec_bytes()),
        r < 0,
{
    let bytes = value.as_bytes();
    let mut hash: u64 = 0xcbf29ce484222325;
    let mut i: usize = 0;
    while i < bytes.len()
        invariant
            bytes@ == value.spec_bytes(),
            i <= bytes.len(),
            hash == fnv1a(bytes@.take(i as int)),
        decreases bytes.len() - i,
    {
        assert(bytes@.take(i + 1).drop_last() == bytes@.take(i as int));
        hash ^= bytes[i] as u64;
        hash = hash.wrapping_mul(0x100000001b3);
        i += 1;
    }
    assert(bytes@.take(bytes.len() as int) == bytes@);
    let masked = hash & 0x3fff_ffff_ffff_ffff;
    assert(masked <= 0x3fff_ffff_ffff_ffff) by (bit_vector)
        requires
            masked == hash & 0x3fff_ffff_ffff_ffff,
    ;
    let m = masked as i64;
    let m = if m < 1 { 1 } else { m };
    -m
}

// ---------------------------------------------------------------------------
// Profiles
// ---------------------------------------------------------------------------

/// A raw-ore record: it points at a refined version, its key starts with
/// "Raw_" or "Ore_", or its name says "(Raw)" or "(Ore)".
pub open spec fn raw_like(c: CommodityView) -> bool {
    c.refined_version_uuid is Some || starts_with(c.key, "Raw_"@) || starts_with(c.key, "Ore_"@)
        || contains(c.name, "(Raw)"@) || contains(c.name, "(Ore)"@)
}

pub open spec fn base_name(c: CommodityView) -> Seq<char> {
    match c.refined_version_name {
        Some(n) => n,
        None => c.name,
    }
}

/// A mineral record belongs to the normalised name `needle`.
pub open spec fn profile_member(c: CommodityView, needle: Seq<char>) -> bool {
    is_mineral_spec(c) && (normalize_name_spec(base_name(c)) == needle || normalize_name_spec(c.name)
        == needle)
}

/// The last member record that is raw (`raw`) or refined (`!raw`).
pub open spec fn last_member(cs: Seq<CommodityView>, needle: Seq<char>, raw: bool) -> Option<CommodityView>
    decreases cs.len(),
{
    if cs.len() == 0 {
        None
    } else if profile_member(cs.last(), needle) && raw_like(cs.last()) == raw {
        Some(cs.last())
    } else {
        last_member(cs.drop_last(), needle, raw)
    }
}

/// The first record with the given UUID.
pub open spec fn first_with_uuid(cs: Seq<CommodityView>, uuid: Seq<char>) -> Option<CommodityView>
    decreases cs.len(),
{
    if cs.len() == 0 {
        None
    } else if cs[0].uuid == uuid {
        Some(cs[0])
    } else {
        first_with_uuid(cs.drop_first(), uuid)
    }
}

/// The (refined, raw) records of a mineral name; without a refined member
/// the refined record is looked up by the raw record's refined UUID.
pub open spec fn profile_spec(cs: Seq<CommodityView>, name: Seq<char>) -> Option<
    (Option<CommodityView>, Option<CommodityView>),
> {
    let needle = normalize_name_spec(name);
    let refined = last_member(cs, needle, false);
    let raw = last_member(cs, needle, true);
    if refined is None && raw is None {
        None
    } else if refined is None && raw->0.refined_version_uuid is Some {
        Some((first_with_uuid(cs, raw->0.refined_version_uuid->0), raw))
    } else {
        Some((refined, raw))
    }
}

fn is_raw_like(c: &ScUnpackedCommodity) -> (r: bool)
    ensures
        r == raw_like(c@),
{
    if c.refined_version_uuid.is_some() {
        return true;
    }
    let key = chars_of(c.key.as_str());
    let name = chars_of(c.name.as_str());
    is_match_at(&key, 0, &chars_of("Raw_")) || is_match_at(&key, 0, &chars_of("Ore_"))
        || contains_chars(&name, &chars_of("(Raw)")) || contains_chars(&name, &chars_of("(Ore)"))
}

impl ScUnpackedCatalog {
    pub open spec fn view_commodities(&self) -> Seq<CommodityView> {
        commodities_view(self.commodities@)
    }

    pub fn mineral_count(&self) -> (r: usize)
        ensures
            r == mineral_count_spec(self.view_commodities()),
    {
        let cs = &self.commodities;
        let mut n: usize = 0;
        let mut i: usize = 0;
        while i < cs.len()
            invariant
                cs@ == self.commodities@,
                i <= cs.len(),
                n == mineral_count_spec(commodities_view(cs@.take(i as int))),
                n <= i,
            decreases cs.len() - i,
        {
            assert(commodities_view(cs@.take(i + 1)).drop_last() == commodities_view(cs@.take(i as int)));
            if is_mineral(&cs[i]) {
                n += 1;
            }
            i += 1;
        }
        assert(cs@.take(cs.len() as int) == cs@);
        n
    }

    /// The raw and refined records of a mineral name.
    pub fn profile_for_name(&self, name: &str) -> (r: Option<MineralProfile>)
        ensures
            match r {
                Some(p) => p.canonical_name@ == name@ && profile_spec(self.view_commodities(), name@)
                    == Some((commodity_opt_view(p.refined), commodity_opt_view(p.raw))),
                None => profile_spec(self.view_commodities(), name@) is None,
            },
    {
        let needle_s = normalize_name(name);
        let needle = needle_s.as_str();
        let cs = &self.commodities;
        let ghost all = commodities_view(cs@);
        let mut refined: Option<ScUnpackedCommodity> = None;
        let mut raw: Option<ScUnpackedCommodity> = None;
        let mut i: usize = 0;
        while i < cs.len()
            invariant
                cs@ == self.commodities@,
                all == commodities_view(cs@),
                needle@ == normalize_name_spec(name@),
                i <= cs.len(),
                commodity_opt_view(refined) == last_member(all.take(i as int), needle@, false),
                commodity_opt_view(raw) == last_member(all.take(i as int), needle@, true),
            decreases cs.len() - i,
        {
            let c = &cs[i];
            assert(all.take(i + 1).drop_last() == all.take(i as int));
            assert(all.take(i + 1).last() == c@);
            if is_mineral(c) {
                let base = match &c.refined_version_name {
                    Some(n) => n.as_str(),
                    None => c.name.as_str(),
                };
                let nb = normalize_name(base);
                let nn = normalize_name(c.name.as_str());
                if str_eq(nb.as_str(), needle) || str_eq(nn.as_str(), needle) {
                    if is_raw_like(c) {
                        raw = Some(c.copy());
                    } else {
                        refined = Some(c.copy());
                    }
                }
            }
            i += 1;
        }
        assert(all.take(cs.len() as int) == all);
        if refined.is_none() && raw.is_none() {
            return None;
        }
        if refined.is_none() {
            let mut uuid_opt: Option<&str> = None;
            if let Some(raw_commodity) = &raw {
                if let Some(uuid) = &raw_commodity.refined_version_uuid {
                    uuid_opt = Some(uuid.as_str());
                }
            }
            if let Some(uuid) = uuid_opt {
                assert(commodity_opt_view(raw) is Some);
                assert(uuid@ == commodity_opt_view(raw)->0.refined_version_uuid->0);
                let mut j: usize = 0;
                let mut found = false;
                assert(all.skip(0) == all);
                while j < cs.len() && !found
                    invariant
                        cs@ == self.commodities@,
                        all == commodities_view(cs@),
                        j <= cs.len(),
                        found ==> commodity_opt_view(refined) == first_with_uuid(all, uuid@),
                        !found ==> refined is None && first_with_uuid(all, uuid@)
                            == first_with_uuid(all.skip(j as int), uuid@),
                    decreases cs.len() - j + (if found { 0int } else { 1int }),
                {
                    assert(all.skip(j as int)[0] == cs@[j as int]@);
                    assert(all.skip(j as int).drop_first() == all.skip(j + 1));
                    if str_eq(cs[j].uuid.as_str(), uuid) {
                        refined = Some(cs[j].copy());
                        found = true;
                    } else {
                        j += 1;
                    }
                }
                if !found {
                    assert(all.skip(j as int) == Seq::<CommodityView>::empty());
                }
            }
        }
        Some(MineralProfile { canonical_name: name.to_owned(), refined, raw })
    }
}

// ---------------------------------------------------------------------------
// Refinery stations from the trade-location table
// ---------------------------------------------------------------------------

/// A trade location as the SCUnpacked trade-location table lists it.
#[derive(Debug, Clone)]
pub struct ScUnpackedTradeLocation {
    pub uuid: String,
    pub class_name: String,
    pub display_name: Option<String>,
}

/// The locations where one commodity is sold and bought.
#[derive(Debug, Clone)]
pub struct ScUnpackedCommodityTradeLocations {
    pub commodity_key: String,
    pub commodity_name: String,
    pub sold_at: Vec<ScUnpackedTradeLocation>,
    pub bought_at: Vec<ScUnpackedTradeLocation>,
}

/// A raw or ore commodity, by its key or its name.
pub open spec fn raw_trade_row(key: Seq<char>, name: Seq<char>) -> bool {
    starts_with(key, "Raw_"@) || starts_with(key, "Ore_"@) || contains(name, "(Raw)"@) || contains(
        name,
        "(Ore)"@,
    )
}

/// A location name or class that looks like a refinery station.
pub open spec fn station_like(display_name: Seq<char>, class_name: Seq<char>) -> bool {
    contains(display_name, " Station"@) || contains(display_name, "Gateway"@) || lower(display_name)
        == lower("Levski"@) || contains(lower(class_name), "refin"@)
}

/// The (uuid, name) of a location that counts as a refinery station: it has
/// a display name that is not blank, and that name or its class looks like
/// a station.
pub open spec fn station_of(l: ScUnpackedTradeLocation) -> Option<(Seq<char>, Seq<char>)> {
    match l.display_name {
        Some(n) => if trim(n@, false).len() != 0 && station_like(n@, l.class_name@) {
            Some((l.uuid@, n@))
        } else {
            None
        },
        None => None,
    }
}

/// Adds a station unless one with the same uuid is already known.
pub open spec fn add_station(acc: Seq<(Seq<char>, Seq<char>)>, s: (Seq<char>, Seq<char>)) -> Seq<
    (Seq<char>, Seq<char>),
> {
    if exists|i: int| 0 <= i < acc.len() && (#[trigger] acc[i]).0 == s.0 {
        acc
    } else {
        acc.push(s)
    }
}

pub open spec fn add_locations(
    acc: Seq<(Seq<char>, Seq<char>)>,
    ls: Seq<ScUnpackedTradeLocation>,
) -> Seq<(Seq<char>, Seq<char>)>
    decreases ls.len(),
{
    if ls.len() == 0 {
        acc
    } else {
        let prev = add_locations(acc, ls.drop_last());
        match station_of(ls.last()) {
            Some(s) => add_station(prev, s),
            None => prev,
        }
    }
}

/// The stations of the raw-commodity rows, first sold-at then bought-at
/// locations of each row in turn, each uuid kept with the first name seen.
pub open spec fn collected_stations(rows: Seq<ScUnpackedCommodityTradeLocations>) -> Seq<
    (Seq<char>, Seq<char>),
>
    decreases rows.len(),
{
    if rows.len() == 0 {
        seq![]
    } else {
        let acc = collected_stations(rows.drop_last());
        let r = rows.last();
        if raw_trade_row(r.commodity_key@, r.commodity_name@) {
            add_locations(add_locations(acc, r.sold_at@), r.bought_at@)
        } else {
            acc
        }
    }
}

pub open spec fn distinct_uuids(acc: Seq<(Seq<char>, Seq<char>)>) -> bool {
    forall|i: int, j: int| 0 <= i < j < acc.len() ==> (#[trigger] acc[i]).0 != (#[trigger] acc[j]).0
}

/// Station `a` comes before station `b`: by lower-cased name, then by uuid.
pub open spec fn station_before(a: (Seq<char>, Seq<char>), b: (Seq<char>, Seq<char>)) -> bool {
    text_lt(lower(a.1), lower(b.1)) || (lower(a.1) == lower(b.1) && text_lt(a.0, b.0))
}

/// `r` lists the collected stations, each once, ordered by lower-cased name
/// and then by uuid, with the name and stable identifier of each.
pub open spec fn refinery_listing(
    stations: Seq<(Seq<char>, Seq<char>)>,
    r: Seq<ScUnpackedRefineryLocation>,
) -> bool {
    exists|perm: Seq<int>|
        {
            &&& perm.len() == stations.len()
            &&& r.len() == stations.len()
            &&& forall|i: int| 0 <= i < perm.len() ==> 0 <= #[trigger] perm[i] < stations.len()
            &&& forall|i: int|
                0 <= i < r.len() ==> (#[trigger] r[i]).location@ == stations[perm[i]].1
                    && r[i].stable_id == stable_negative_id_spec(
                    encode_utf8(stations[perm[i]].0),
                )
            &&& forall|i: int, j: int|
                0 <= i < j < perm.len() ==> station_before(
                    stations[#[trigger] perm[i]],
                    stations[#[trigger] perm[j]],
                )
        }
}

proof fn lemma_add_station_distinct(acc: Seq<(Seq<char>, Seq<char>)>, s: (Seq<char>, Seq<char>))
    requires
        distinct_uuids(acc),
    ensures
        distinct_uuids(add_station(acc, s)),
{
}

fn push_station(
    acc: &mut Vec<(String, String)>,
    loc: &ScUnpackedTradeLocation,
)
    requires
        distinct_uuids(pairs_view(old(acc)@)),
    ensures
        pairs_view(final(acc)@) == match station_of(*loc) {
            Some(s) => add_station(pairs_view(old(acc)@), s),
            None => pairs_view(old(acc)@),
        },
        distinct_uuids(pairs_view(final(acc)@)),
{
    let name = match &loc.display_name {
        Some(n) => n,
        None => {
            return;
        },
    };
    let nv = chars_of(name.as_str());
    let trimmed = trim_chars(&nv, false);
    if trimmed.len() == 0 {
        return;
    }
    let class_lower = lower_chars(&chars_of(loc.class_name.as_str()));
    let station = contains_chars(&nv, &chars_of(" Station")) || contains_chars(&nv, &chars_of("Gateway"))
        || eq_ignore_ascii_case(&nv, &chars_of("Levski")) || contains_chars(
        &class_lower,
        &chars_of("refin"),
    );
    if !station {
        return;
    }
    let ghost s = (loc.uuid@, name@);
    assert(station_of(*loc) == Some(s));
    let mut i: usize = 0;
    while i < acc.len()
        invariant
            i <= acc.len(),
            acc@ == old(acc)@,
            distinct_uuids(pairs_view(old(acc)@)),
            s == (loc.uuid@, name@),
            station_of(*loc) == Some(s),
            forall|k: int| 0 <= k < i ==> (#[trigger] pairs_view(acc@)[k]).0 != s.0,
        decreases acc.len() - i,
    {
        assert(pairs_view(acc@)[i as int].0 == acc@[i as int].0@);
        let same = str_eq(acc[i].0.as_str(), loc.uuid.as_str());
        if same {
            assert(acc@[i as int].0@ == loc.uuid@);
            assert(s.0 == loc.uuid@);
            assert(pairs_view(acc@)[i as int].0 == s.0);
            return;
        }
        i += 1;
    }
    let ghost before = pairs_view(acc@);
    acc.push((loc.uuid.clone(), name.clone()));
    assert(pairs_view(acc@) =~= before.push(s));
    proof {
        lemma_add_station_distinct(before, s);
    }
}

pub open spec fn uuids_of(st: Seq<(Seq<char>, Seq<char>)>) -> Seq<Seq<char>> {
    st.map_values(|p: (Seq<char>, Seq<char>)| p.0)
}

pub open spec fn pairs_view(v: Seq<(String, String)>) -> Seq<(Seq<char>, Seq<char>)> {
    v.map_values(|p: (String, String)| (p.0@, p.1@))
}

fn push_locations(acc: &mut Vec<(String, String)>, locs: &Vec<ScUnpackedTradeLocation>)
    requires
        distinct_uuids(pairs_view(old(acc)@)),
    ensures
        pairs_view(final(acc)@) == add_locations(pairs_view(old(acc)@), locs@),
        distinct_uuids(pairs_view(final(acc)@)),
{
    let mut i: usize = 0;
    while i < locs.len()
        invariant
            i <= locs.len(),
            pairs_view(acc@) == add_locations(pairs_view(old(acc)@), locs@.take(i as int)),
            distinct_uuids(pairs_view(acc@)),
        decreases locs.len() - i,
    {
        push_station(acc, &locs[i]);
        assert(locs@.take(i + 1).drop_last() == locs@.take(i as int));
        i += 1;
    }
    assert(locs@.take(locs.len() as int) == locs@);
}

fn collect_stations(rows: &[ScUnpackedCommodityTradeLocations]) -> (r: Vec<(String, String)>)
    ensures
        pairs_view(r@) == collected_stations(rows@),
        distinct_uuids(pairs_view(r@)),
{
    let mut acc: Vec<(String, String)> = Vec::new();
    assert(pairs_view(acc@) =~= seq![]);
    let mut i: usize = 0;
    while i < rows.len()
        invariant
            i <= rows.len(),
            pairs_view(acc@) == collected_stations(rows@.take(i as int)),
            distinct_uuids(pairs_view(acc@)),
        decreases rows.len() - i,
    {
        let row = &rows[i];
        let key = chars_of(row.commodity_key.as_str());
        let name = chars_of(row.commodity_name.as_str());
        let raw = is_match_at(&key, 0, &chars_of("Raw_")) || is_match_at(&key, 0, &chars_of("Ore_"))
            || contains_chars(&name, &chars_of("(Raw)")) || contains_chars(&name, &chars_of("(Ore)"));
        assert(rows@.take(i + 1).drop_last() == rows@.take(i as int));
        if raw {
            push_locations(&mut acc, &row.sold_at);
            push_locations(&mut acc, &row.bought_at);
        }
        i += 1;
    }
    assert(rows@.take(rows.len() as int) == rows@);
    acc
}

/// The refinery stations of the trade-location table: every distinct
/// station location of a raw or ore commodity, ordered by lower-cased name
/// and then by uuid, each with a stable negative identifier derived from
/// its uuid.
pub fn refinery_locations(rows: &[ScUnpackedCommodityTradeLocations]) -> (r: Vec<
    ScUnpackedRefineryLocation,
>)
    ensures
        refinery_listing(collected_stations(rows@), r@),
{
    let stations = collect_stations(rows);
    let ghost st = pairs_view(stations@);
    // First by uuid (the uuids are distinct), then stably by lower-cased name.
    let mut uuid_keys: Vec<Vec<char>> = Vec::new();
    let mut k: usize = 0;
    while k < stations.len()
        invariant
            k <= stations.len(),
            st == pairs_view(stations@),
            views(uuid_keys@) == uuids_of(st.take(k as int)),
        decreases stations.len() - k,
    {
        let ghost before = views(uuid_keys@);
        assert(st[k as int].0 == stations@[k as int].0@);
        uuid_keys.push(chars_of(stations[k].0.as_str()));
        assert(uuids_of(st.take(k + 1)) =~= uuids_of(st.take(k as int)).push(st[k as int].0));
        assert(views(uuid_keys@) =~= uuids_of(st.take(k + 1)));
        k += 1;
    }
    let by_uuid = stable_order(&uuid_keys);
    let mut name_keys: Vec<Vec<char>> = Vec::new();
    let mut m: usize = 0;
    while m < by_uuid.len()
        invariant
            m <= by_uuid.len(),
            st == pairs_view(stations@),
            uuid_keys@.len() == stations@.len(),
            is_stable_order(views(uuid_keys@), by_uuid@),
            views(name_keys@).len() == m,
            forall|t: int| 0 <= t < m ==> #[trigger] views(name_keys@)[t] == lower(st[by_uuid@[t] as int].1),
        decreases by_uuid.len() - m,
    {
        let idx = by_uuid[m];
        let lowered = lower_chars(&chars_of(stations[idx].1.as_str()));
        let ghost before = views(name_keys@);
        name_keys.push(lowered);
        assert(views(name_keys@) =~= before.push(lowered@));
        m += 1;
    }
    let by_name = stable_order(&name_keys);
    let mut out: Vec<ScUnpackedRefineryLocation> = Vec::new();
    let ghost uk = views(uuid_keys@);
    let ghost nk = views(name_keys@);
    let ghost perm = by_name@.map_values(|q: usize| by_uuid@[q as int] as int);
    let mut t: usize = 0;
    while t < by_name.len()
        invariant
            t <= by_name.len(),
            st == pairs_view(stations@),
            uk == views(uuid_keys@),
            nk == views(name_keys@),
            uk.len() == st.len(),
            forall|a: int| 0 <= a < uk.len() ==> #[trigger] uk[a] == st[a].0,
            is_stable_order(uk, by_uuid@),
            is_stable_order(nk, by_name@),
            nk.len() == by_uuid@.len(),
            forall|a: int| 0 <= a < nk.len() ==> #[trigger] nk[a] == lower(st[by_uuid@[a] as int].1),
            perm == by_name@.map_values(|q: usize| by_uuid@[q as int] as int),
            out@.len() == t,
            forall|a: int|
                0 <= a < t ==> (#[trigger] out@[a]).location@ == st[perm[a]].1 && out@[a].stable_id
                    == stable_negative_id_spec(encode_utf8(st[perm[a]].0)),
        decreases by_name.len() - t,
    {
        let q = by_name[t];
        let idx = by_uuid[q];
        let name = stations[idx].1.clone();
        let id = stable_negative_id(stations[idx].0.as_str());
        out.push(ScUnpackedRefineryLocation { stable_id: id, location: name });
        t += 1;
    }
    proof {
        assert forall|a: int| 0 <= a < uk.len() implies #[trigger] uk[a] == st[a].0 by {}
        assert forall|i: int, j: int| 0 <= i < j < perm.len() implies station_before(
            st[#[trigger] perm[i]],
            st[#[trigger] perm[j]],
        ) by {
            let qi = by_name@[i] as int;
            let qj = by_name@[j] as int;
            assert(before(nk, qi, qj));
            if text_lt(nk[qi], nk[qj]) {
            } else {
                assert(qi < qj);
                assert(before(uk, by_uuid@[qi] as int, by_uuid@[qj] as int));
                lemma_stable_order_distinct(uk, by_uuid@, qi, qj);
                let (x, y) = (by_uuid@[qi] as int, by_uuid@[qj] as int);
                if uk[x] == uk[y] {
                    if x < y {
                        assert(st[x].0 != st[y].0);
                    } else {
                        assert(st[y].0 != st[x].0);
                    }
                }
            }
        }
        assert(perm.len() == st.len());
        assert(out@.len() == st.len());
        assert forall|i: int| 0 <= i < perm.len() implies 0 <= #[trigger] perm[i] < st.len() by {
            let q = by_name@[i] as int;
            assert(0 <= q < nk.len());
            assert(by_uuid@[q] < uk.len());
        }
        assert(refinery_listing(st, out@));
    }
    out
}

// ---------------------------------------------------------------------------
// Dataset files
// ---------------------------------------------------------------------------

/// Where a dataset file was found for a source path.
#[derive(Debug, Clone, Copy, PartialEq, Eq, Structural)]
pub enum DatasetFile {
    /// The source path is the file itself.
    Source,
    /// `<source>/resources/<file>`.
    InResources,
    /// `<source>/<file>`.
    InSource,
}

/// A source that is a file is accepted when its name is the wanted file
/// name (ignoring ASCII case); a directory source gives the first existing
/// of `resources/<file>` and `<file>`.
pub open spec fn dataset_file_spec(
    wanted: Seq<char>,
    source_is_file: bool,
    source_name: Option<Seq<char>>,
    in_resources_is_file: bool,
    in_source_is_file: bool,
) -> Option<DatasetFile> {
    if source_is_file {
        match source_name {
            Some(n) => if lower(n) == lower(wanted) {
                Some(DatasetFile::Source)
            } else {
                None
            },
            None => None,
        }
    } else if in_resources_is_file {
        Some(DatasetFile::InResources)
    } else if in_source_is_file {
        Some(DatasetFile::InSource)
    } else {
        None
    }
}

fn dataset_file(
    wanted: &str,
    source_is_file: bool,
    source_name: Option<&str>,
    in_resources_is_file: bool,
    in_source_is_file: bool,
) -> (r: Option<DatasetFile>)
    ensures
        r == dataset_file_spec(
            wanted@,
            source_is_file,
            match source_name {
                Some(n) => Some(n@),
                None => None,
            },
            in_resources_is_file,
            in_source_is_file,
        ),
{
    if source_is_file {
        match source_name {
            Some(n) => if eq_ignore_ascii_case(&chars_of(n), &chars_of(wanted)) {
                Some(DatasetFile::Source)
            } else {
                None
            },
            None => None,
        }
    } else if in_resources_is_file {
        Some(DatasetFile::InResources)
    } else if in_source_is_file {
        Some(DatasetFile::InSource)
    } else {
        None
    }
}

/// Where the commodity table of a source is, given what the file system
/// says of the source and of its two candidate locations.
pub fn resolve_commodities_path(
    source_is_file: bool,
    source_name: Option<&str>,
    in_resources_is_file: bool,
    in_source_is_file: bool,
) -> (r: Option<DatasetFile>)
    ensures
        r == dataset_file_spec(
            "commodities.json"@,
            source_is_file,
            match source_name {
                Some(n) => Some(n@),
                None => None,
            },
            in_resources_is_file,
            in_source_is_file,
        ),
{
    dataset_file("commodities.json", source_is_file, source_name, in_resources_is_file, in_source_is_file)
}

/// Where the trade-location table of a source is.
pub fn resolve_trade_locations_path(
    source_is_file: bool,
    source_name: Option<&str>,
    in_resources_is_file: bool,
    in_source_is_file: bool,
) -> (r: Option<DatasetFile>)
    ensures
        r == dataset_file_spec(
            "commodity_trade_locations.json"@,
            source_is_file,
            match source_name {
                Some(n) => Some(n@),
                None => None,
            },
            in_resources_is_file,
            in_source_is_file,
        ),
{
    dataset_file(
        "commodity_trade_locations.json",
        source_is_file,
        source_name,
        in_resources_is_file,
        in_source_is_file,
    )
}

} // verus!
