//! Refining methods, refinery choices and the provider-side name mapping of
//! a mineral.
use vstd::prelude::*;
use vstd::string::StringSliceAdditionalSpecFns;
use vstd::utf8::encode_utf8;

pub use crate::data::normalize_name;
use crate::data::{
    any_mineral_group, copy_string_opt, copy_strings, has_mineral_group, normalize_name_spec,
    opt_view, strings_view, MineralProfile, ScUnpackedRefineryLocation,
};
use crate::report::MediaInfo;
use crate::order::{before, is_stable_order, lemma_stable_order_distinct, stable_order, text_lt};
use crate::text::{
    str_eq,    signed_decimal_chars, signed_decimal_spec,
    eq_ignore_ascii_case, is_match_at, starts_with, lower, lower_chars, views, chars_of, contains, contains_chars, extend_chars, push_char, string_of, trim, trim_chars,
};

verus! {

/// A refining method and its 1-3 ratings for yield, cost and speed.
#[derive(Debug, Clone)]
pub struct RefiningMethod {
    pub code: String,
    pub name: String,
    pub yield_rating: i64,
    pub cost_rating: i64,
    pub speed_rating: i64,
}

impl RefiningMethod {
    pub fn copy(&self) -> (r: Self)
        ensures
            r.code@ == self.code@,
            r.name@ == self.name@,
            r.yield_rating == self.yield_rating,
            r.cost_rating == self.cost_rating,
            r.speed_rating == self.speed_rating,
    {
        RefiningMethod {
            code: self.code.clone(),
            name: self.name.clone(),
            yield_rating: self.yield_rating,
            cost_rating: self.cost_rating,
            speed_rating: self.speed_rating,
        }
    }
}

/// Row `i` of the local refining-method baseline: code, name, yield, cost
/// and speed ratings.
pub open spec fn method_row(i: int) -> (Seq<char>, Seq<char>, i64, i64, i64) {
    if i == 0 { ("COR"@, "Cormack"@, 1, 2, 3) }
    else if i == 1 { ("DIN"@, "Dinyx Solventation"@, 3, 1, 1) }
    else if i == 2 { ("EST"@, "Electrostarolysis"@, 2, 2, 2) }
    else if i == 3 { ("GAS"@, "Gaskin Process"@, 2, 3, 3) }
    else if i == 4 { ("PYR"@, "Pyrometric Chromalysis"@, 3, 3, 1) }
    else if i == 5 { ("KZW"@, "Kazen Winnowing"@, 1, 2, 2) }
    else if i == 6 { ("TND"@, "Thermonatic Deposition"@, 2, 2, 1) }
    else if i == 7 { ("FRX"@, "Ferron Exchange"@, 3, 2, 1) }
    else { ("XCR"@, "XCR Reaction"@, 1, 3, 3) }
}

pub open spec fn is_method_row(m: RefiningMethod, i: int) -> bool {
    let (code, name, y, c, s) = method_row(i);
    m.code@ == code && m.name@ == name && m.yield_rating == y && m.cost_rating == c && m.speed_rating == s
}

fn method(code: &str, name: &str, yield_rating: i64, cost_rating: i64, speed_rating: i64) -> (r:
    RefiningMethod)
    ensures
        r.code@ == code@,
        r.name@ == name@,
        r.yield_rating == yield_rating,
        r.cost_rating == cost_rating,
        r.speed_rating == speed_rating,
{
    RefiningMethod {
        code: code.to_owned(),
        name: name.to_owned(),
        yield_rating,
        cost_rating,
        speed_rating,
    }
}

/// The local refining-method baseline, one method per row of `method_row`.
pub fn default_refining_methods() -> (r: Vec<RefiningMethod>)
    ensures
        r@.len() == 9,
        forall|i: int| 0 <= i < 9 ==> is_method_row(#[trigger] r@[i], i),
{
    let mut v: Vec<RefiningMethod> = Vec::new();
    v.push(method("COR", "Cormack", 1, 2, 3));
    v.push(method("DIN", "Dinyx Solventation", 3, 1, 1));
    v.push(method("EST", "Electrostarolysis", 2, 2, 2));
    v.push(method("GAS", "Gaskin Process", 2, 3, 3));
    v.push(method("PYR", "Pyrometric Chromalysis", 3, 3, 1));
    v.push(method("KZW", "Kazen Winnowing", 1, 2, 2));
    v.push(method("TND", "Thermonatic Deposition", 2, 2, 1));
    v.push(method("FRX", "Ferron Exchange", 3, 2, 1));
    v.push(method("XCR", "XCR Reaction", 1, 3, 3));
    v
}

/// The key under which refinery material modifiers are stored.
pub fn refinery_material_key(value: &str) -> (r: String)
    ensures
        r@ == normalize_name_spec(value@),
{
    normalize_name(value)
}

pub open spec fn is_raw_name_spec(s: Seq<char>) -> bool {
    contains(s, "(Raw)"@) || contains(s, "(Ore)"@)
}

pub fn is_raw_name(value: &str) -> (r: bool)
    ensures
        r == is_raw_name_spec(value@),
{
    let v = chars_of(value);
    contains_chars(&v, &chars_of("(Raw)")) || contains_chars(&v, &chars_of("(Ore)"))
}

/// The trimmed text, when it is not blank.
pub open spec fn non_empty_spec(s: Seq<char>) -> Option<Seq<char>> {
    if trim(s, false).len() > 0 {
        Some(trim(s, false))
    } else {
        None
    }
}

pub fn non_empty(value: &str) -> (r: Option<String>)
    ensures
        opt_view(r) == non_empty_spec(value@),
{
    let t = trim_chars(&chars_of(value), false);
    if t.len() > 0 {
        Some(string_of(&t))
    } else {
        None
    }
}

/// The first present value.
pub open spec fn first_present(values: Seq<Option<String>>) -> Option<Seq<char>>
    decreases values.len(),
{
    if values.len() == 0 {
        None
    } else if values[0] is Some {
        opt_view(values[0])
    } else {
        first_present(values.drop_first())
    }
}

pub fn first_non_empty(values: &[Option<String>]) -> (r: Option<String>)
    ensures
        opt_view(r) == first_present(values@),
{
    let mut i: usize = 0;
    assert(values@.skip(0) == values@);
    while i < values.len()
        invariant
            i <= values.len(),
            first_present(values@) == first_present(values@.skip(i as int)),
        decreases values.len() - i,
    {
        assert(values@.skip(i as int)[0] == values@[i as int]);
        if let Some(v) = &values[i] {
            return Some(v.clone());
        }
        assert(values@.skip(i as int).drop_first() == values@.skip(i + 1));
        i += 1;
    }
    None
}

// ---------------------------------------------------------------------------
// Query encoding
// ---------------------------------------------------------------------------

pub open spec fn unreserved(b: u8) -> bool {
    (0x41 <= b <= 0x5a) || (0x61 <= b <= 0x7a) || (0x30 <= b <= 0x39) || b == 0x2d || b == 0x5f
        || b == 0x2e || b == 0x7e
}

/// Upper-case hexadecimal digit.
pub open spec fn hex_digit(n: u8) -> char {
    if n < 10 {
        ((n + 0x30) as u8) as char
    } else {
        ((n - 10 + 0x41) as u8) as char
    }
}

/// The encoding of one byte: unreserved ASCII kept, space as `%20`, every
/// other byte as `%XX` in upper-case hexadecimal.
pub open spec fn encode_byte(b: u8) -> Seq<char> {
    if unreserved(b) {
        seq![b as char]
    } else if b == 0x20 {
        seq!['%', '2', '0']
    } else {
        seq!['%', hex_digit(b / 16), hex_digit(b % 16)]
    }
}

pub open spec fn percent_encode(bytes: Seq<u8>) -> Seq<char>
    decreases bytes.len(),
{
    if bytes.len() == 0 {
        seq![]
    } else {
        percent_encode(bytes.drop_last()) + encode_byte(bytes.last())
    }
}

fn hex_char(n: u8) -> (r: char)
    requires
        n < 16,
    ensures
        r == hex_digit(n),
{
    if n < 10 {
        (n + 0x30) as char
    } else {
        (n - 10 + 0x41) as char
    }
}

/// Percent-encoding of the UTF-8 bytes of a query value.
pub fn percent_encode_query(value: &str) -> (r: String)
    ensures
        r@ == percent_encode(value.spec_bytes()),
{
    let bytes = value.as_bytes();
    let mut out = String::new();
    let mut i: usize = 0;
    while i < bytes.len()
        invariant
            bytes@ == value.spec_bytes(),
            i <= bytes.len(),
            out@ == percent_encode(bytes@.take(i as int)),
        decreases bytes.len() - i,
    {
        let b = bytes[i];
        assert(bytes@.take(i + 1).drop_last() == bytes@.take(i as int));
        let ghost before = out@;
        if (0x41 <= b && b <= 0x5a) || (0x61 <= b && b <= 0x7a) || (0x30 <= b && b <= 0x39) || b
            == 0x2d || b == 0x5f || b == 0x2e || b == 0x7e {
            push_char(&mut out, b as char);
            assert(out@ == before + seq![b as char]);
        } else if b == 0x20 {
            push_char(&mut out, '%');
            push_char(&mut out, '2');
            push_char(&mut out, '0');
            assert(out@ == before + seq!['%', '2', '0']);
        } else {
            push_char(&mut out, '%');
            push_char(&mut out, hex_char(b / 16));
            push_char(&mut out, hex_char(b % 16));
            assert(out@ == before + seq!['%', hex_digit(b / 16), hex_digit(b % 16)]);
        }
        i += 1;
    }
    assert(bytes@.take(bytes.len() as int) == bytes@);
    out
}

/// The value of an upper-case hexadecimal digit.
pub open spec fn hex_value(c: char) -> Option<int> {
    if '0' <= c && c <= '9' {
        Some(c as int - 0x30)
    } else if 'A' <= c && c <= 'F' {
        Some(c as int - 0x41 + 10)
    } else {
        None
    }
}

/// Percent-decoding: each `%XX` (upper-case hexadecimal) is the byte `0xXX`,
/// every other ASCII character is its own byte; anything else does not decode.
pub open spec fn percent_decode(s: Seq<char>) -> Option<Seq<u8>>
    decreases s.len(),
{
    if s.len() == 0 {
        Some(seq![])
    } else if s[0] == '%' {
        if s.len() >= 3 && hex_value(s[1]) is Some && hex_value(s[2]) is Some {
            match percent_decode(s.skip(3)) {
                Some(rest) => Some(
                    seq![(hex_value(s[1])->0 * 16 + hex_value(s[2])->0) as u8] + rest,
                ),
                None => None,
            }
        } else {
            None
        }
    } else if (s[0] as int) < 0x80 {
        match percent_decode(s.drop_first()) {
            Some(rest) => Some(seq![s[0] as u8] + rest),
            None => None,
        }
    } else {
        None
    }
}

/// The characters a percent-encoded query value is made of.
pub open spec fn query_safe_char(c: char) -> bool {
    ('A' <= c && c <= 'Z') || ('a' <= c && c <= 'z') || ('0' <= c && c <= '9') || c == '.'
        || c == '_' || c == '~' || c == '%' || c == '-'
}

proof fn lemma_percent_encode_append(a: Seq<u8>, b: Seq<u8>)
    ensures
        percent_encode(a + b) == percent_encode(a) + percent_encode(b),
    decreases b.len(),
{
    if b.len() == 0 {
        assert(a + b =~= a);
    } else {
        lemma_percent_encode_append(a, b.drop_last());
        assert((a + b).drop_last() =~= a + b.drop_last());
        assert((a + b).last() == b.last());
    }
}

proof fn lemma_percent_encode_front(b: Seq<u8>)
    requires
        b.len() > 0,
    ensures
        percent_encode(b) == encode_byte(b[0]) + percent_encode(b.drop_first()),
{
    let one = seq![b[0]];
    assert(one.drop_last() =~= Seq::<u8>::empty());
    assert(percent_encode(one.drop_last()) =~= Seq::<char>::empty());
    assert(one.last() == b[0]);
    assert(percent_encode(one) =~= encode_byte(b[0]));
    assert(one + b.drop_first() =~= b);
    lemma_percent_encode_append(one, b.drop_first());
}

proof fn lemma_hex_digit_value(n: u8)
    requires
        n < 16,
    ensures
        hex_value(hex_digit(n)) == Some(n as int),
{
    if n < 10 {
        assert((((n + 0x30) as u8) as char) as int == n + 0x30);
    } else {
        assert((((n - 10 + 0x41) as u8) as char) as int == n - 10 + 0x41);
    }
}

proof fn lemma_decode_encoded_byte(x: u8, t: Seq<char>)
    ensures
        percent_decode(encode_byte(x) + t) == match percent_decode(t) {
            Some(rest) => Some(seq![x] + rest),
            None => None::<Seq<u8>>,
        },
{
    let e = encode_byte(x) + t;
    if unreserved(x) {
        assert((x as char) as int == x as int);
        assert(e.drop_first() =~= t);
    } else if x == 0x20 {
        assert(e.skip(3) =~= t);
        assert(e[1] == '2' && e[2] == '0');
    } else {
        lemma_hex_digit_value(x / 16);
        lemma_hex_digit_value(x % 16);
        assert(e.skip(3) =~= t);
        assert((x / 16) as int * 16 + (x % 16) as int == x as int);
    }
}

/// Percent-encoding is undone by percent-decoding: the encoded query value
/// decodes to exactly its bytes.
pub proof fn law_percent_round_trip(bytes: Seq<u8>)
    ensures
        percent_decode(percent_encode(bytes)) == Some(bytes),
    decreases bytes.len(),
{
    if bytes.len() > 0 {
        lemma_percent_encode_front(bytes);
        law_percent_round_trip(bytes.drop_first());
        lemma_decode_encoded_byte(bytes[0], percent_encode(bytes.drop_first()));
        assert(seq![bytes[0]] + bytes.drop_first() =~= bytes);
    }
}

/// A percent-encoded query value holds only unreserved characters and `%`.
pub proof fn law_percent_alphabet(bytes: Seq<u8>)
    ensures
        forall|i: int| 0 <= i < percent_encode(bytes).len() ==> query_safe_char(
            #[trigger] percent_encode(bytes)[i],
        ),
    decreases bytes.len(),
{
    if bytes.len() > 0 {
        law_percent_alphabet(bytes.drop_last());
        let x = bytes.last();
        let e = encode_byte(x);
        if !unreserved(x) && x != 0x20 {
            lemma_hex_digit_value(x / 16);
            lemma_hex_digit_value(x % 16);
        }
        assert forall|i: int| 0 <= i < e.len() implies query_safe_char(#[trigger] e[i]) by {
            if unreserved(x) {
                assert((x as char) as int == x as int);
            }
        }
        let p = percent_encode(bytes.drop_last());
        assert forall|i: int| 0 <= i < percent_encode(bytes).len() implies query_safe_char(
            #[trigger] percent_encode(bytes)[i],
        ) by {
            if i < p.len() {
                assert(percent_encode(bytes)[i] == p[i]);
            } else {
                assert(percent_encode(bytes)[i] == e[i - p.len()]);
            }
        }
    }
}

/// A value made only of unreserved characters is left as it is.
pub proof fn law_percent_unreserved_unchanged(bytes: Seq<u8>)
    requires
        forall|i: int| 0 <= i < bytes.len() ==> unreserved(#[trigger] bytes[i]),
    ensures
        percent_encode(bytes) == bytes.map_values(|b: u8| b as char),
    decreases bytes.len(),
{
    if bytes.len() > 0 {
        law_percent_unreserved_unchanged(bytes.drop_last());
        assert(unreserved(bytes[bytes.len() - 1]));
        assert(bytes.map_values(|b: u8| b as char) =~= bytes.drop_last().map_values(
            |b: u8| b as char,
        ) + seq![bytes.last() as char]);
    } else {
        assert(bytes.map_values(|b: u8| b as char) =~= Seq::<char>::empty());
    }
}

// ---------------------------------------------------------------------------
// Candidates for the best market quote and refining method
// ---------------------------------------------------------------------------

/// A quote's game version belongs to the current release line ("4.10...").
pub open spec fn current_game_version(v: Option<Seq<char>>) -> bool {
    v is Some && starts_with(v->0, "4.10"@)
}

pub open spec fn opt_views(v: Seq<Option<String>>) -> Seq<Option<Seq<char>>> {
    v.map_values(|o: Option<String>| opt_view(o))
}

/// The indices, in order, of the quotes of the current release line.
pub open spec fn current_quote_indices(versions: Seq<Option<Seq<char>>>) -> Seq<int>
    decreases versions.len(),
{
    if versions.len() == 0 {
        seq![]
    } else {
        let rest = current_quote_indices(versions.drop_last());
        if current_game_version(versions.last()) {
            rest.push(versions.len() - 1)
        } else {
            rest
        }
    }
}

/// The quotes the best price is chosen among: those of the current release
/// line when there is one, else all of them.
pub open spec fn quote_candidates_spec(versions: Seq<Option<Seq<char>>>) -> Seq<int> {
    let current = current_quote_indices(versions);
    if current.len() > 0 {
        current
    } else {
        Seq::new(versions.len(), |i: int| i)
    }
}

/// The indices of the quotes (given by their game versions) among which the
/// highest price is taken.
pub fn quote_candidates(versions: &[Option<String>]) -> (r: Vec<usize>)
    ensures
        r@.map_values(|i: usize| i as int) == quote_candidates_spec(opt_views(versions@)),
{
    proof {
        reveal_strlit("4.10");
    }
    let ghost vs = opt_views(versions@);
    let prefix = chars_of("4.10");
    let mut current: Vec<usize> = Vec::new();
    let mut i: usize = 0;
    assert(vs.take(0) =~= Seq::<Option<Seq<char>>>::empty());
    while i < versions.len()
        invariant
            i <= versions.len(),
            vs == opt_views(versions@),
            prefix@ == "4.10"@,
            current@.map_values(|k: usize| k as int) == current_quote_indices(vs.take(i as int)),
        decreases versions.len() - i,
    {
        assert(vs.take(i + 1).drop_last() =~= vs.take(i as int));
        assert(vs.take(i + 1).last() == opt_view(versions@[i as int]));
        let is_current = match &versions[i] {
            Some(v) => is_match_at(&chars_of(v.as_str()), 0, &prefix),
            None => false,
        };
        if is_current {
            current.push(i);
        }
        i += 1;
        assert(current@.map_values(|k: usize| k as int) =~= current_quote_indices(vs.take(i as int)));
    }
    assert(vs.take(versions.len() as int) =~= vs);
    if current.len() > 0 {
        return current;
    }
    let mut all: Vec<usize> = Vec::new();
    let mut k: usize = 0;
    while k < versions.len()
        invariant
            k <= versions.len(),
            vs.len() == versions.len(),
            all@.map_values(|j: usize| j as int) == Seq::new(k as nat, |j: int| j),
        decreases versions.len() - k,
    {
        let ghost prev = all@;
        all.push(k);
        assert(all@.map_values(|j: usize| j as int) =~= prev.map_values(|j: usize| j as int).push(
            k as int,
        ));
        k += 1;
        assert(all@.map_values(|j: usize| j as int) =~= Seq::new(k as nat, |j: int| j));
    }
    all
}

/// The integer rating a strategy ranks methods by first: the lowest cost
/// rating for "cost", the highest speed rating for "time"; any other
/// strategy ranks by efficiency first, so every method stays a candidate.
pub open spec fn strategy_rank(m: RefiningMethod, strategy: Seq<char>) -> int {
    if strategy == "cost"@ {
        -m.cost_rating
    } else if strategy == "time"@ {
        m.speed_rating as int
    } else {
        0
    }
}

/// Method `i` is first in rank: no method ranks above it.
pub open spec fn ranks_first(methods: Seq<RefiningMethod>, strategy: Seq<char>, i: int) -> bool {
    forall|j: int|
        0 <= j < methods.len() ==> strategy_rank(methods[j], strategy) <= strategy_rank(
            methods[i],
            strategy,
        )
}

/// The indices below `upto`, in order, of the methods first in rank.
pub open spec fn first_ranked_below(methods: Seq<RefiningMethod>, strategy: Seq<char>, upto: nat) -> Seq<
    int,
>
    decreases upto,
{
    if upto == 0 {
        seq![]
    } else {
        let rest = first_ranked_below(methods, strategy, (upto - 1) as nat);
        if ranks_first(methods, strategy, upto - 1) {
            rest.push(upto - 1)
        } else {
            rest
        }
    }
}

proof fn lemma_first_ranked_below(methods: Seq<RefiningMethod>, strategy: Seq<char>, upto: nat, i: int)
    ensures
        first_ranked_below(methods, strategy, upto).contains(i) <==> (0 <= i < upto && ranks_first(
            methods,
            strategy,
            i,
        )),
    decreases upto,
{
    if upto > 0 {
        let rest = first_ranked_below(methods, strategy, (upto - 1) as nat);
        lemma_first_ranked_below(methods, strategy, (upto - 1) as nat, i);
        if ranks_first(methods, strategy, upto - 1) {
            let full = rest.push(upto - 1);
            if rest.contains(i) {
                let j = choose|j: int| 0 <= j < rest.len() && rest[j] == i;
                assert(full[j] == i);
            }
            if i == upto - 1 {
                assert(full[rest.len() as int] == i);
            }
            if full.contains(i) {
                let j = choose|j: int| 0 <= j < full.len() && full[j] == i;
                if j < rest.len() {
                    assert(rest[j] == i);
                }
            }
        }
    }
}

/// The candidates of each strategy, stated on the ratings themselves: for
/// "time" exactly the methods with the highest speed rating, for "cost"
/// exactly those with the lowest cost rating, and for any other strategy
/// every method (the efficiency comparison decides among them).
pub proof fn law_strategy_candidates(methods: Seq<RefiningMethod>, strategy: Seq<char>, i: int)
    ensures
        strategy == "time"@ ==> (first_ranked_below(methods, strategy, methods.len()).contains(i) <==> (
        0 <= i < methods.len() && forall|j: int|
            0 <= j < methods.len() ==> methods[j].speed_rating <= methods[i].speed_rating)),
        strategy == "cost"@ ==> (first_ranked_below(methods, strategy, methods.len()).contains(i) <==> (
        0 <= i < methods.len() && forall|j: int|
            0 <= j < methods.len() ==> methods[i].cost_rating <= methods[j].cost_rating)),
        strategy != "time"@ && strategy != "cost"@ ==> (first_ranked_below(
            methods,
            strategy,
            methods.len(),
        ).contains(i) <==> 0 <= i < methods.len()),
{
    reveal_strlit("cost");
    reveal_strlit("time");
    assert("cost"@ != "time"@) by {
        assert("cost"@[0] != "time"@[0]);
    }
    lemma_first_ranked_below(methods, strategy, methods.len(), i);
}

/// The candidates, by index, for the refining method a strategy picks:
/// those first in the strategy's integer rating (the rest of the choice
/// compares method efficiencies, which are floating-point).
pub fn best_ranked_methods(methods: &[RefiningMethod], strategy: &str) -> (r: Vec<usize>)
    ensures
        r@.map_values(|i: usize| i as int) == first_ranked_below(methods@, strategy@, methods@.len()),
{
    proof {
        reveal_strlit("cost");
        reveal_strlit("time");
    }
    let by_cost = str_eq(strategy, "cost");
    let by_time = str_eq(strategy, "time");
    if methods.len() == 0 {
        return Vec::new();
    }
    let mut top: usize = 0;
    let mut i: usize = 1;
    while i < methods.len()
        invariant
            1 <= i <= methods.len(),
            top < i,
            by_cost == (strategy@ == "cost"@),
            by_time == (strategy@ == "time"@),
            forall|j: int| 0 <= j < i ==> strategy_rank(methods@[j], strategy@) <= strategy_rank(
                methods@[top as int],
                strategy@,
            ),
        decreases methods.len() - i,
    {
        if (by_cost && methods[i].cost_rating < methods[top].cost_rating) || (!by_cost && by_time
            && methods[i].speed_rating > methods[top].speed_rating) {
            top = i;
        }
        i += 1;
    }
    let mut out: Vec<usize> = Vec::new();
    let mut k: usize = 0;
    while k < methods.len()
        invariant
            k <= methods.len(),
            top < methods.len(),
            by_cost == (strategy@ == "cost"@),
            by_time == (strategy@ == "time"@),
            ranks_first(methods@, strategy@, top as int),
            out@.map_values(|j: usize| j as int) == first_ranked_below(methods@, strategy@, k as nat),
        decreases methods.len() - k,
    {
        let hit = if by_cost {
            methods[k].cost_rating == methods[top].cost_rating
        } else if by_time {
            methods[k].speed_rating == methods[top].speed_rating
        } else {
            true
        };
        assert(hit == ranks_first(methods@, strategy@, k as int));
        let ghost prev = out@;
        if hit {
            out.push(k);
            assert(out@.map_values(|j: usize| j as int) =~= prev.map_values(|j: usize| j as int).push(
                k as int,
            ));
        }
        k += 1;
    }
    out
}

// ---------------------------------------------------------------------------
// Refinery options
// ---------------------------------------------------------------------------

/// A refinery terminal that can be chosen for refining estimates.
#[derive(Debug, Clone)]
pub struct RefineryOption {
    pub terminal_id: i64,
    pub location: String,
    pub terminal: String,
    pub system: String,
}

pub open spec fn display_label_spec(location: Seq<char>, system: Seq<char>) -> Seq<char> {
    if system.len() == 0 {
        location
    } else {
        location + " \u{b7} "@ + system
    }
}

impl RefineryOption {
    /// "location · system", or the location alone without a system.
    pub fn display_label(&self) -> (r: String)
        ensures
            r@ == display_label_spec(self.location@, self.system@),
    {
        let system = chars_of(self.system.as_str());
        if system.len() == 0 {
            return self.location.clone();
        }
        let mut out = chars_of(self.location.as_str());
        extend_chars(&mut out, &chars_of(" \u{b7} "));
        extend_chars(&mut out, &system);
        string_of(&out)
    }
}


// ---------------------------------------------------------------------------
// The refinery directory
// ---------------------------------------------------------------------------

/// The content of a refinery option: terminal id, location, terminal, system.
pub type RefineryView = (i64, Seq<char>, Seq<char>, Seq<char>);

pub open spec fn refinery_view(o: RefineryOption) -> RefineryView {
    (o.terminal_id, o.location@, o.terminal@, o.system@)
}

pub open spec fn refinery_views(os: Seq<RefineryOption>) -> Seq<RefineryView> {
    os.map_values(|o: RefineryOption| refinery_view(o))
}

/// Refineries are keyed by their normalised location name.
pub open spec fn location_key(v: RefineryView) -> Seq<char> {
    normalize_name_spec(v.1)
}

pub open spec fn distinct_keys(es: Seq<RefineryView>) -> bool {
    forall|i: int, j: int|
        0 <= i < j < es.len() ==> location_key(#[trigger] es[i]) != location_key(#[trigger] es[j])
}

/// The position of the refinery with key `k`, if there is one.
pub open spec fn key_position(es: Seq<RefineryView>, k: Seq<char>) -> Option<int> {
    if exists|i: int| 0 <= i < es.len() && location_key(#[trigger] es[i]) == k {
        Some(choose|i: int| 0 <= i < es.len() && location_key(#[trigger] es[i]) == k)
    } else {
        None
    }
}

/// Replaces the refinery with the same key, or adds a new one.
pub open spec fn upsert_refinery(es: Seq<RefineryView>, v: RefineryView) -> Seq<RefineryView> {
    match key_position(es, location_key(v)) {
        Some(i) => es.update(i, v),
        None => es.push(v),
    }
}

/// A station of the local dataset is added unless its location is known.
pub open spec fn seed_station(es: Seq<RefineryView>, id: i64, location: Seq<char>) -> Seq<RefineryView> {
    if key_position(es, normalize_name_spec(location)) is Some {
        es
    } else {
        es.push((id, location, seq![], seq![]))
    }
}

pub open spec fn seed_stations(es: Seq<RefineryView>, ls: Seq<ScUnpackedRefineryLocation>) -> Seq<
    RefineryView,
>
    decreases ls.len(),
{
    if ls.len() == 0 {
        es
    } else {
        let prev = seed_stations(es, ls.drop_last());
        seed_station(prev, ls.last().stable_id, ls.last().location@)
    }
}

/// One row of a refinery-yield dataset, each field as present in the row.
#[derive(Debug, Clone)]
pub struct RefineryYieldRow {
    pub terminal_id: Option<i64>,
    pub space_station_name: Option<String>,
    pub city_name: Option<String>,
    pub outpost_name: Option<String>,
    pub orbit_name: Option<String>,
    pub terminal_name: Option<String>,
    pub star_system_name: Option<String>,
}

/// The location a yield row names: its station, city, outpost or orbit
/// name, whichever is first given, else "Unknown refinery".
pub open spec fn yield_row_location(row: RefineryYieldRow) -> Seq<char> {
    match field_text(row.space_station_name) {
        Some(t) => t,
        None => match field_text(row.city_name) {
            Some(t) => t,
            None => match field_text(row.outpost_name) {
                Some(t) => t,
                None => match field_text(row.orbit_name) {
                    Some(t) => t,
                    None => "Unknown refinery"@,
                },
            },
        },
    }
}

/// A yield row counts when it has a positive terminal id.
pub open spec fn yield_row_valid(row: RefineryYieldRow) -> bool {
    match row.terminal_id {
        Some(t) => t > 0,
        None => false,
    }
}

pub open spec fn text_or(o: Option<Seq<char>>, d: Seq<char>) -> Seq<char> {
    match o {
        Some(t) => t,
        None => d,
    }
}

/// A valid yield row sets the terminal id and location of the refinery at
/// its location (creating it when new), and its terminal and system when
/// the row gives them.
pub open spec fn merge_yield_row(es: Seq<RefineryView>, row: RefineryYieldRow) -> Seq<RefineryView> {
    if !yield_row_valid(row) {
        es
    } else {
        let t = row.terminal_id->0;
        let loc = yield_row_location(row);
        let base = match key_position(es, normalize_name_spec(loc)) {
            Some(i) => es[i],
            None => (t, loc, seq![], seq![]),
        };
        upsert_refinery(
            es,
            (t, loc, text_or(field_text(row.terminal_name), base.2), text_or(
                field_text(row.star_system_name),
                base.3,
            )),
        )
    }
}

pub open spec fn merge_yield_rows(es: Seq<RefineryView>, rows: Seq<RefineryYieldRow>) -> Seq<
    RefineryView,
>
    decreases rows.len(),
{
    if rows.len() == 0 {
        es
    } else {
        merge_yield_row(merge_yield_rows(es, rows.drop_last()), rows.last())
    }
}

pub open spec fn merge_yield_sets(es: Seq<RefineryView>, sets: Seq<Vec<RefineryYieldRow>>) -> Seq<
    RefineryView,
>
    decreases sets.len(),
{
    if sets.len() == 0 {
        es
    } else {
        merge_yield_rows(merge_yield_sets(es, sets.drop_last()), sets.last()@)
    }
}

/// Refinery `a` is listed before `b`: by lower-cased display label, then by
/// location key.
pub open spec fn refinery_before(a: RefineryView, b: RefineryView) -> bool {
    let la = lower(display_label_spec(a.1, a.3));
    let lb = lower(display_label_spec(b.1, b.3));
    text_lt(la, lb) || (la == lb && text_lt(location_key(a), location_key(b)))
}

/// `r` lists every refinery of `es` once, in `refinery_before` order.
/// No two options share a location key.
pub open spec fn unique_locations(r: Seq<RefineryOption>) -> bool {
    forall|i: int, j: int|
        0 <= i < j < r.len() ==> location_key(refinery_view(#[trigger] r[i])) != location_key(
            refinery_view(#[trigger] r[j]),
        )
}

pub open spec fn refinery_option_listing(es: Seq<RefineryView>, r: Seq<RefineryOption>) -> bool {
    exists|perm: Seq<int>|
        {
            &&& perm.len() == es.len()
            &&& r.len() == es.len()
            &&& forall|i: int| 0 <= i < perm.len() ==> 0 <= #[trigger] perm[i] < es.len()
            &&& forall|i: int| 0 <= i < r.len() ==> refinery_view(#[trigger] r[i]) == es[perm[i]]
            &&& forall|i: int, j: int|
                0 <= i < j < perm.len() ==> refinery_before(es[#[trigger] perm[i]], es[#[trigger] perm[j]])
        }
}

/// The refinery directory: options kept unique by location key.
struct RefineryDirectory {
    keys: Vec<Vec<char>>,
    options: Vec<RefineryOption>,
}

impl RefineryDirectory {
    spec fn wf(&self) -> bool {
        &&& self.keys@.len() == self.options@.len()
        &&& forall|i: int|
            0 <= i < self.keys@.len() ==> (#[trigger] self.keys@[i])@ == location_key(
                refinery_view(self.options@[i]),
            )
        &&& distinct_keys(refinery_views(self.options@))
    }

    spec fn entries(&self) -> Seq<RefineryView> {
        refinery_views(self.options@)
    }

    fn find(&self, key: &Vec<char>) -> (r: Option<usize>)
        requires
            self.wf(),
        ensures
            r is None ==> key_position(self.entries(), key@) is None,
            r is Some ==> key_position(self.entries(), key@) == Some(r->0 as int),
    {
        let ghost es = self.entries();
        let mut i: usize = 0;
        while i < self.keys.len()
            invariant
                self.wf(),
                es == self.entries(),
                i <= self.keys@.len(),
                forall|j: int| 0 <= j < i ==> location_key(#[trigger] es[j]) != key@,
            decreases self.keys@.len() - i,
        {
            if text_equal(&self.keys[i], key) {
                assert(location_key(es[i as int]) == key@);
                let ghost c = choose|j: int| 0 <= j < es.len() && location_key(#[trigger] es[j]) == key@;
                assert(c == i) by {
                    if c != i {
                        if c < i {
                            assert(location_key(es[c]) != location_key(es[i as int]));
                        } else {
                            assert(location_key(es[i as int]) != location_key(es[c]));
                        }
                    }
                }
                return Some(i);
            }
            i += 1;
        }
        None
    }

    fn put(&mut self, key: Vec<char>, option: RefineryOption)
        requires
            old(self).wf(),
            key@ == location_key(refinery_view(option)),
        ensures
            final(self).wf(),
            final(self).entries() == upsert_refinery(old(self).entries(), refinery_view(option)),
    {
        let ghost es = self.entries();
        let ghost v = refinery_view(option);
        match self.find(&key) {
            Some(i) => {
                self.options.set(i, option);
                self.keys.set(i, key);
                assert(self.entries() =~= es.update(i as int, v));
                assert(distinct_keys(self.entries())) by {
                    assert forall|a: int, b: int|
                        0 <= a < b < self.entries().len() implies location_key(
                        #[trigger] self.entries()[a],
                    ) != location_key(#[trigger] self.entries()[b]) by {
                        if a != i && b != i {
                            assert(self.entries()[a] == es[a] && self.entries()[b] == es[b]);
                        } else if a == i {
                            assert(location_key(es[a]) == location_key(v));
                            assert(self.entries()[b] == es[b]);
                        } else {
                            assert(location_key(es[b]) == location_key(v));
                            assert(self.entries()[a] == es[a]);
                        }
                    }
                }
            },
            None => {
                self.options.push(option);
                self.keys.push(key);
                assert(self.entries() =~= es.push(v));
                assert(distinct_keys(self.entries())) by {
                    assert forall|a: int, b: int|
                        0 <= a < b < self.entries().len() implies location_key(
                        #[trigger] self.entries()[a],
                    ) != location_key(#[trigger] self.entries()[b]) by {
                        if b == es.len() {
                            assert(self.entries()[a] == es[a]);
                        } else {
                            assert(self.entries()[a] == es[a] && self.entries()[b] == es[b]);
                        }
                    }
                }
            },
        }
    }

    fn seed(&mut self, locations: &[ScUnpackedRefineryLocation])
        requires
            old(self).wf(),
        ensures
            final(self).wf(),
            final(self).entries() == seed_stations(old(self).entries(), locations@),
    {
        let mut i: usize = 0;
        while i < locations.len()
            invariant
                i <= locations.len(),
                self.wf(),
                self.entries() == seed_stations(old(self).entries(), locations@.take(i as int)),
            decreases locations.len() - i,
        {
            let loc = &locations[i];
            let key = chars_of(normalize_name(loc.location.as_str()).as_str());
            assert(locations@.take(i + 1).drop_last() == locations@.take(i as int));
            match self.find(&key) {
                Some(_) => {},
                None => {
                    let option = RefineryOption {
                        terminal_id: loc.stable_id,
                        location: loc.location.clone(),
                        terminal: String::new(),
                        system: String::new(),
                    };
                    proof {
                        assert(option.terminal@ =~= Seq::<char>::empty());
                        assert(option.system@ =~= Seq::<char>::empty());
                    }
                    self.put(key, option);
                },
            }
            i += 1;
        }
        assert(locations@.take(locations.len() as int) == locations@);
    }

    fn merge_row(&mut self, row: &RefineryYieldRow)
        requires
            old(self).wf(),
        ensures
            final(self).wf(),
            final(self).entries() == merge_yield_row(old(self).entries(), *row),
    {
        let t = match row.terminal_id {
            Some(t) => t,
            None => {
                return;
            },
        };
        if t <= 0 {
            return;
        }
        let location = yield_location(row);
        let key = chars_of(normalize_name(location.as_str()).as_str());
        let (base_terminal, base_system) = match self.find(&key) {
            Some(i) => (self.options[i].terminal.clone(), self.options[i].system.clone()),
            None => (String::new(), String::new()),
        };
        let terminal = match field_value(&row.terminal_name) {
            Some(x) => x,
            None => base_terminal,
        };
        let system = match field_value(&row.star_system_name) {
            Some(x) => x,
            None => base_system,
        };
        let option = RefineryOption { terminal_id: t, location, terminal, system };
        self.put(key, option);
    }

    fn merge_rows(&mut self, rows: &Vec<RefineryYieldRow>)
        requires
            old(self).wf(),
        ensures
            final(self).wf(),
            final(self).entries() == merge_yield_rows(old(self).entries(), rows@),
    {
        let mut i: usize = 0;
        while i < rows.len()
            invariant
                i <= rows.len(),
                self.wf(),
                self.entries() == merge_yield_rows(old(self).entries(), rows@.take(i as int)),
            decreases rows.len() - i,
        {
            self.merge_row(&rows[i]);
            assert(rows@.take(i + 1).drop_last() == rows@.take(i as int));
            i += 1;
        }
        assert(rows@.take(rows.len() as int) == rows@);
    }
}

/// A present, non-blank field, trimmed.
fn field_value(o: &Option<String>) -> (r: Option<String>)
    ensures
        opt_view(r) == field_text(*o),
{
    match o {
        Some(s) => non_empty(s.as_str()),
        None => None,
    }
}

fn yield_location(row: &RefineryYieldRow) -> (r: String)
    ensures
        r@ == yield_row_location(*row),
{
    match field_value(&row.space_station_name) {
        Some(t) => t,
        None => match field_value(&row.city_name) {
            Some(t) => t,
            None => match field_value(&row.outpost_name) {
                Some(t) => t,
                None => match field_value(&row.orbit_name) {
                    Some(t) => t,
                    None => "Unknown refinery".to_owned(),
                },
            },
        },
    }
}

/// The location key of a valid yield row (the key its modifiers belong
/// to), or `None` for a row without a positive terminal id.
pub fn yield_row_key(row: &RefineryYieldRow) -> (r: Option<String>)
    ensures
        yield_row_valid(*row) ==> opt_view(r) == Some(normalize_name_spec(yield_row_location(*row))),
        !yield_row_valid(*row) ==> r is None,
{
    match row.terminal_id {
        Some(t) => {
            if t > 0 {
                let location = yield_location(row);
                Some(normalize_name(location.as_str()))
            } else {
                None
            }
        },
        None => None,
    }
}

fn text_equal(a: &Vec<char>, b: &Vec<char>) -> (r: bool)
    ensures
        r == (a@ == b@),
{
    if a.len() != b.len() {
        return false;
    }
    let mut i: usize = 0;
    while i < a.len()
        invariant
            a.len() == b.len(),
            i <= a.len(),
            forall|k: int| 0 <= k < i ==> a@[k] == b@[k],
        decreases a.len() - i,
    {
        if a[i] != b[i] {
            return false;
        }
        i += 1;
    }
    assert(a@ =~= b@);
    true
}

/// The refinery options: the stations of the local dataset, then the
/// refinery-yield datasets merged in the order given, listed by lower-cased
/// display label (and location key on equal labels).
pub fn refinery_options(
    locations: &[ScUnpackedRefineryLocation],
    yield_sets: &[Vec<RefineryYieldRow>],
) -> (r: Vec<RefineryOption>)
    ensures
        refinery_option_listing(
            merge_yield_sets(seed_stations(seq![], locations@), yield_sets@),
            r@,
        ),
        unique_locations(r@),
{
    let mut dir = RefineryDirectory { keys: Vec::new(), options: Vec::new() };
    assert(dir.entries() =~= seq![]);
    dir.seed(locations);
    let mut s: usize = 0;
    while s < yield_sets.len()
        invariant
            s <= yield_sets.len(),
            dir.wf(),
            dir.entries() == merge_yield_sets(seed_stations(seq![], locations@), yield_sets@.take(s as int)),
        decreases yield_sets.len() - s,
    {
        dir.merge_rows(&yield_sets[s]);
        assert(yield_sets@.take(s + 1).drop_last() == yield_sets@.take(s as int));
        s += 1;
    }
    assert(yield_sets@.take(yield_sets.len() as int) == yield_sets@);
    sort_refineries(dir)
}

fn sort_refineries(dir: RefineryDirectory) -> (r: Vec<RefineryOption>)
    requires
        dir.wf(),
    ensures
        refinery_option_listing(dir.entries(), r@),
        unique_locations(r@),
{
    let ghost es = dir.entries();
    let n = dir.options.len();
    let by_key = stable_order(&dir.keys);
    let mut label_keys: Vec<Vec<char>> = Vec::new();
    let mut m: usize = 0;
    while m < by_key.len()
        invariant
            dir.wf(),
            es == dir.entries(),
            m <= by_key.len(),
            is_stable_order(views(dir.keys@), by_key@),
            views(label_keys@).len() == m,
            forall|t: int|
                0 <= t < m ==> #[trigger] views(label_keys@)[t] == lower(
                    display_label_spec(es[by_key@[t] as int].1, es[by_key@[t] as int].3),
                ),
        decreases by_key.len() - m,
    {
        let idx = by_key[m];
        let label = dir.options[idx].display_label();
        let lowered = lower_chars(&chars_of(label.as_str()));
        let ghost before = views(label_keys@);
        label_keys.push(lowered);
        assert(views(label_keys@) =~= before.push(lowered@));
        m += 1;
    }
    let by_label = stable_order(&label_keys);
    let ghost kk = views(dir.keys@);
    let ghost lk = views(label_keys@);
    let ghost perm = by_label@.map_values(|q: usize| by_key@[q as int] as int);
    let mut out: Vec<RefineryOption> = Vec::new();
    let mut t: usize = 0;
    while t < by_label.len()
        invariant
            dir.wf(),
            es == dir.entries(),
            kk == views(dir.keys@),
            lk == views(label_keys@),
            is_stable_order(kk, by_key@),
            is_stable_order(lk, by_label@),
            lk.len() == by_key@.len(),
            forall|a: int|
                0 <= a < lk.len() ==> #[trigger] lk[a] == lower(
                    display_label_spec(es[by_key@[a] as int].1, es[by_key@[a] as int].3),
                ),
            perm == by_label@.map_values(|q: usize| by_key@[q as int] as int),
            t <= by_label.len(),
            out@.len() == t,
            forall|a: int| 0 <= a < t ==> refinery_view(#[trigger] out@[a]) == es[perm[a]],
        decreases by_label.len() - t,
    {
        let q = by_label[t];
        let idx = by_key[q];
        let o = &dir.options[idx];
        let copy = RefineryOption {
            terminal_id: o.terminal_id,
            location: o.location.clone(),
            terminal: o.terminal.clone(),
            system: o.system.clone(),
        };
        out.push(copy);
        t += 1;
    }
    proof {
        assert forall|a: int| 0 <= a < kk.len() implies #[trigger] kk[a] == location_key(es[a]) by {}
        assert forall|i: int, j: int| 0 <= i < j < perm.len() implies refinery_before(
            es[#[trigger] perm[i]],
            es[#[trigger] perm[j]],
        ) by {
            let qi = by_label@[i] as int;
            let qj = by_label@[j] as int;
            assert(before(lk, qi, qj));
            if !text_lt(lk[qi], lk[qj]) {
                assert(qi < qj);
                assert(before(kk, by_key@[qi] as int, by_key@[qj] as int));
                lemma_stable_order_distinct(kk, by_key@, qi, qj);
                let (x, y) = (by_key@[qi] as int, by_key@[qj] as int);
                if kk[x] == kk[y] {
                    if x < y {
                        assert(location_key(es[x]) != location_key(es[y]));
                    } else {
                        assert(location_key(es[y]) != location_key(es[x]));
                    }
                }
            }
        }
        assert forall|i: int| 0 <= i < perm.len() implies 0 <= #[trigger] perm[i] < es.len() by {
            let q = by_label@[i] as int;
            assert(0 <= q < lk.len());
            assert(by_key@[q] < kk.len());
        }
        assert(perm.len() == es.len());
        assert(out@.len() == es.len());
        assert(refinery_option_listing(es, out@));
        assert forall|i: int, j: int| 0 <= i < j < out@.len() implies location_key(
            refinery_view(#[trigger] out@[i]),
        ) != location_key(refinery_view(#[trigger] out@[j])) by {
            let qi = by_label@[i] as int;
            let qj = by_label@[j] as int;
            lemma_stable_order_distinct(lk, by_label@, i, j);
            assert(0 <= qi < kk.len() && 0 <= qj < kk.len());
            lemma_stable_order_distinct(kk, by_key@, qi, qj);
            let x = perm[i];
            let y = perm[j];
            assert(x != y);
            if x < y {
                assert(location_key(es[x]) != location_key(es[y]));
            } else {
                assert(location_key(es[y]) != location_key(es[x]));
            }
        }
    }
    out
}

// ---------------------------------------------------------------------------
// Refining-method updates
// ---------------------------------------------------------------------------

/// The content of a refining method: code, name, yield, cost, speed.
pub type MethodView = (Seq<char>, Seq<char>, i64, i64, i64);

pub open spec fn method_view(m: RefiningMethod) -> MethodView {
    (m.code@, m.name@, m.yield_rating, m.cost_rating, m.speed_rating)
}

pub open spec fn methods_view(ms: Seq<RefiningMethod>) -> Seq<MethodView> {
    ms.map_values(|m: RefiningMethod| method_view(m))
}

/// One row of a refining-method dataset: the raw `code` and `name` strings
/// and the integer ratings, each as present in the row.
#[derive(Debug, Clone)]
pub struct RefiningMethodRow {
    pub code: Option<String>,
    pub name: Option<String>,
    pub rating_yield: Option<i64>,
    pub rating_cost: Option<i64>,
    pub rating_speed: Option<i64>,
}

/// A present, non-blank string field, trimmed.
pub open spec fn field_text(o: Option<String>) -> Option<Seq<char>> {
    match o {
        Some(s) => non_empty_spec(s@),
        None => None,
    }
}

pub open spec fn or_else_i64(o: Option<i64>, d: i64) -> i64 {
    match o {
        Some(v) => v,
        None => d,
    }
}

/// Index of the first method whose code equals `code` ignoring ASCII case.
pub open spec fn code_index(ms: Seq<MethodView>, code: Seq<char>) -> Option<int>
    decreases ms.len(),
{
    if ms.len() == 0 {
        None
    } else if lower(ms[0].0) == lower(code) {
        Some(0)
    } else {
        match code_index(ms.drop_first(), code) {
            Some(i) => Some(i + 1),
            None => None,
        }
    }
}

/// Applying one row: a row without a code is ignored; a known code (ignoring
/// ASCII case) updates the name and ratings the row gives; an unknown code
/// adds a method with defaults "Unknown method", yield 0, cost 99, speed 0.
pub open spec fn merge_method_row(ms: Seq<MethodView>, row: RefiningMethodRow) -> Seq<MethodView> {
    match field_text(row.code) {
        None => ms,
        Some(code) => match code_index(ms, code) {
            Some(i) => {
                let m = ms[i];
                let name = match field_text(row.name) {
                    Some(n) => n,
                    None => m.1,
                };
                ms.update(
                    i,
                    (
                        m.0,
                        name,
                        or_else_i64(row.rating_yield, m.2),
                        or_else_i64(row.rating_cost, m.3),
                        or_else_i64(row.rating_speed, m.4),
                    ),
                )
            },
            None => {
                let name = match field_text(row.name) {
                    Some(n) => n,
                    None => "Unknown method"@,
                };
                ms.push(
                    (
                        code,
                        name,
                        or_else_i64(row.rating_yield, 0),
                        or_else_i64(row.rating_cost, 99),
                        or_else_i64(row.rating_speed, 0),
                    ),
                )
            },
        },
    }
}

pub open spec fn merge_method_rows(ms: Seq<MethodView>, rows: Seq<RefiningMethodRow>) -> Seq<MethodView>
    decreases rows.len(),
{
    if rows.len() == 0 {
        ms
    } else {
        merge_method_row(merge_method_rows(ms, rows.drop_last()), rows.last())
    }
}

fn opt_text(o: &Option<String>) -> (r: Option<String>)
    ensures
        opt_view(r) == field_text(*o),
{
    match o {
        Some(s) => non_empty(s.as_str()),
        None => None,
    }
}

fn find_method_code(methods: &Vec<RefiningMethod>, code: &[char]) -> (r: Option<usize>)
    ensures
        match r {
            Some(i) => code_index(methods_view(methods@), code@) == Some(i as int) && i < methods@.len(),
            None => code_index(methods_view(methods@), code@) is None,
        },
{
    let ghost ms = methods_view(methods@);
    let mut i: usize = 0;
    assert(ms.skip(0) == ms);
    while i < methods.len()
        invariant
            ms == methods_view(methods@),
            i <= methods.len(),
            forall|k: int| 0 <= k < i ==> lower(#[trigger] ms[k].0) != lower(code@),
            code_index(ms, code@) == match code_index(ms.skip(i as int), code@) {
                Some(j) => Some(j + i),
                None => None,
            },
        decreases methods.len() - i,
    {
        assert(ms.skip(i as int)[0] == ms[i as int]);
        assert(ms.skip(i as int).drop_first() == ms.skip(i + 1));
        if eq_ignore_ascii_case(&chars_of(methods[i].code.as_str()), code) {
            return Some(i);
        }
        i += 1;
    }
    None
}

/// Applies dataset rows to a method list in order.
pub fn merge_refining_methods(methods: &mut Vec<RefiningMethod>, rows: &[RefiningMethodRow])
    ensures
        methods_view(final(methods)@) == merge_method_rows(methods_view(old(methods)@), rows@),
{
    let ghost start = methods_view(methods@);
    let mut r: usize = 0;
    while r < rows.len()
        invariant
            r <= rows.len(),
            start == methods_view(old(methods)@),
            methods_view(methods@) == merge_method_rows(start, rows@.take(r as int)),
        decreases rows.len() - r,
    {
        let row = &rows[r];
        assert(rows@.take(r + 1).drop_last() == rows@.take(r as int));
        assert(rows@.take(r + 1).last() == *row);
        let ghost before = methods_view(methods@);
        match opt_text(&row.code) {
            None => {},
            Some(code) => {
                let code_chars = chars_of(code.as_str());
                match find_method_code(methods, &code_chars) {
                    Some(i) => {
                        let name = match opt_text(&row.name) {
                            Some(n) => n,
                            None => methods[i].name.clone(),
                        };
                        let updated = RefiningMethod {
                            code: methods[i].code.clone(),
                            name,
                            yield_rating: match row.rating_yield {
                                Some(v) => v,
                                None => methods[i].yield_rating,
                            },
                            cost_rating: match row.rating_cost {
                                Some(v) => v,
                                None => methods[i].cost_rating,
                            },
                            speed_rating: match row.rating_speed {
                                Some(v) => v,
                                None => methods[i].speed_rating,
                            },
                        };
                        methods.set(i, updated);
                        assert(methods_view(methods@) =~= merge_method_row(before, *row));
                    },
                    None => {
                        let name = match opt_text(&row.name) {
                            Some(n) => n,
                            None => "Unknown method".to_owned(),
                        };
                        let added = RefiningMethod {
                            code,
                            name,
                            yield_rating: match row.rating_yield {
                                Some(v) => v,
                                None => 0,
                            },
                            cost_rating: match row.rating_cost {
                                Some(v) => v,
                                None => 99,
                            },
                            speed_rating: match row.rating_speed {
                                Some(v) => v,
                                None => 0,
                            },
                        };
                        methods.push(added);
                        assert(methods_view(methods@) =~= merge_method_row(before, *row));
                    },
                }
            },
        }
        r += 1;
    }
    assert(rows@.take(rows.len() as int) == rows@);
}

/// The ASCII-lower-cased names of a method list, the keys of its display order.
pub open spec fn method_name_keys(ms: Seq<MethodView>) -> Seq<Seq<char>> {
    ms.map_values(|m: MethodView| lower(m.1))
}

/// The records of `ms` in the positions listed by `order`.
pub open spec fn pick<A>(ms: Seq<A>, order: Seq<usize>) -> Seq<A> {
    Seq::new(order.len(), |j: int| ms[order[j] as int])
}

/// Methods ordered by ASCII-lower-cased name, stably.
pub fn sort_refining_methods(methods: &Vec<RefiningMethod>) -> (r: Vec<RefiningMethod>)
    ensures
        exists|order: Seq<usize>|
            is_stable_order(method_name_keys(methods_view(methods@)), order) && methods_view(r@)
                == pick(methods_view(methods@), order),
{
    let ghost ms = methods_view(methods@);
    let mut keys: Vec<Vec<char>> = Vec::new();
    let mut i: usize = 0;
    while i < methods.len()
        invariant
            ms == methods_view(methods@),
            i <= methods.len(),
            views(keys@) == method_name_keys(ms).take(i as int),
        decreases methods.len() - i,
    {
        let ghost old_keys = views(keys@);
        let key = lower_chars(&chars_of(methods[i].name.as_str()));
        assert(ms[i as int] == method_view(methods@[i as int]));
        assert(key@ == method_name_keys(ms)[i as int]);
        keys.push(key);
        assert(views(keys@) =~= old_keys.push(key@));
        assert(method_name_keys(ms).take(i + 1) =~= method_name_keys(ms).take(i as int).push(key@));
        i += 1;
        assert(views(keys@) =~= method_name_keys(ms).take(i as int));
    }
    assert(method_name_keys(ms).take(methods.len() as int) == method_name_keys(ms));
    let order = stable_order(&keys);
    let mut out: Vec<RefiningMethod> = Vec::new();
    let mut k: usize = 0;
    while k < order.len()
        invariant
            ms == methods_view(methods@),
            is_stable_order(method_name_keys(ms), order@),
            order@.len() == methods@.len(),
            k <= order.len(),
            methods_view(out@) == pick(ms, order@.take(k as int)),
        decreases order.len() - k,
    {
        let idx = order[k];
        assert(idx < methods.len());
        let m = methods[idx].copy();
        assert(method_view(m) == ms[idx as int]);
        let ghost old_out = methods_view(out@);
        out.push(m);
        assert(methods_view(out@) =~= old_out.push(ms[idx as int]));
        assert(pick(ms, order@.take(k + 1)) =~= pick(ms, order@.take(k as int)).push(ms[idx as int]));
        k += 1;
        assert(methods_view(out@) =~= pick(ms, order@.take(k as int)));
    }
    assert(order@.take(order.len() as int) == order@);
    assert(methods_view(out@) == pick(ms, order@));
    out
}

/// The local method baseline with the dataset rows merged in, in the order
/// given (the bundled seed first, then provider updates).
pub open spec fn merged_methods(sets: Seq<Vec<RefiningMethodRow>>) -> Seq<MethodView>
    decreases sets.len(),
{
    if sets.len() == 0 {
        default_methods_view()
    } else {
        merge_method_rows(merged_methods(sets.drop_last()), sets.last()@)
    }
}

/// The views of the local baseline rows.
pub open spec fn default_methods_view() -> Seq<MethodView> {
    Seq::new(9, |i: int| method_row(i))
}

/// The refining methods: the local baseline updated by each method dataset
/// in turn, listed by lower-cased name (stably).
pub fn load_refining_methods(row_sets: &[Vec<RefiningMethodRow>]) -> (r: Vec<RefiningMethod>)
    ensures
        exists|order: Seq<usize>|
            is_stable_order(method_name_keys(merged_methods(row_sets@)), order) && methods_view(r@)
                == pick(merged_methods(row_sets@), order),
{
    let mut methods = default_refining_methods();
    assert(methods_view(methods@) =~= default_methods_view()) by {
        assert forall|i: int| 0 <= i < 9 implies methods_view(methods@)[i] == default_methods_view()[i] by {
            assert(is_method_row(methods@[i], i));
        }
    }
    let mut s: usize = 0;
    while s < row_sets.len()
        invariant
            s <= row_sets.len(),
            methods_view(methods@) == merged_methods(row_sets@.take(s as int)),
        decreases row_sets.len() - s,
    {
        merge_refining_methods(&mut methods, row_sets[s].as_slice());
        assert(row_sets@.take(s + 1).drop_last() == row_sets@.take(s as int));
        s += 1;
    }
    assert(row_sets@.take(row_sets.len() as int) == row_sets@);
    sort_refining_methods(&methods)
}



// ---------------------------------------------------------------------------
// UEX commodity mapping
// ---------------------------------------------------------------------------

/// A commodity record of the UEX catalogue.
#[derive(Debug, Clone)]
pub struct UexCommodity {
    pub id: i64,
    pub id_parent: Option<i64>,
    pub uuid: Option<String>,
    pub name: String,
    pub is_raw: i64,
    pub is_refined: i64,
}

pub type UexView = (i64, Option<i64>, Option<Seq<char>>, Seq<char>, i64, i64);

pub open spec fn uex_view(c: UexCommodity) -> UexView {
    (c.id, c.id_parent, opt_view(c.uuid), c.name@, c.is_raw, c.is_refined)
}

pub open spec fn uex_opt_view(c: Option<UexCommodity>) -> Option<UexView> {
    match c {
        Some(x) => Some(uex_view(x)),
        None => None,
    }
}

impl UexCommodity {
    pub fn copy(&self) -> (r: Self)
        ensures
            uex_view(r) == uex_view(*self),
    {
        UexCommodity {
            id: self.id,
            id_parent: self.id_parent,
            uuid: crate::data::copy_string_opt(&self.uuid),
            name: self.name.clone(),
            is_raw: self.is_raw,
            is_refined: self.is_refined,
        }
    }
}

/// The refined and raw UEX records of a mineral.
#[derive(Debug, Clone)]
pub struct UexMapping {
    pub refined: Option<UexCommodity>,
    pub raw: Option<UexCommodity>,
}

pub open spec fn uex_matches(c: UexView, needle: Seq<char>) -> bool {
    normalize_name_spec(c.3) == needle
}

pub open spec fn uex_refined_like(c: UexView) -> bool {
    c.5 == 1 || (c.4 == 0 && !is_raw_name_spec(c.3))
}

pub open spec fn uex_raw_like(c: UexView) -> bool {
    c.4 == 1 || is_raw_name_spec(c.3)
}

pub enum UexRole {
    Refined,
    Raw,
    ChildOf(i64),
}

pub open spec fn has_role(c: UexView, role: UexRole) -> bool {
    match role {
        UexRole::Refined => uex_refined_like(c),
        UexRole::Raw => uex_raw_like(c),
        UexRole::ChildOf(id) => c.1 == Some(id),
    }
}

/// The first record of the mineral `needle` that has the role.
pub open spec fn first_uex(cs: Seq<UexView>, needle: Seq<char>, role: UexRole) -> Option<UexView>
    decreases cs.len(),
{
    if cs.len() == 0 {
        None
    } else if uex_matches(cs[0], needle) && has_role(cs[0], role) {
        Some(cs[0])
    } else {
        first_uex(cs.drop_first(), needle, role)
    }
}

pub open spec fn any_uex_match(cs: Seq<UexView>, needle: Seq<char>) -> bool {
    exists|i: int| 0 <= i < cs.len() && uex_matches(#[trigger] cs[i], needle)
}

/// The UEX mapping of a mineral name: none when no record normalises to the
/// same name; otherwise the first refined-like record, and the first
/// raw-like record or, failing that, the first child of the refined record.
pub open spec fn uex_mapping_spec(cs: Seq<UexView>, name: Seq<char>) -> Option<(Option<UexView>, Option<UexView>)> {
    let needle = normalize_name_spec(name);
    if !any_uex_match(cs, needle) {
        None
    } else {
        let refined = first_uex(cs, needle, UexRole::Refined);
        let raw = match first_uex(cs, needle, UexRole::Raw) {
            Some(r) => Some(r),
            None => match refined {
                Some(f) => first_uex(cs, needle, UexRole::ChildOf(f.0)),
                None => None,
            },
        };
        Some((refined, raw))
    }
}

pub open spec fn uex_views(cs: Seq<UexCommodity>) -> Seq<UexView> {
    cs.map_values(|c: UexCommodity| uex_view(c))
}

fn has_uex_role(c: &UexCommodity, role: &UexRole) -> (r: bool)
    ensures
        r == has_role(uex_view(*c), *role),
{
    match role {
        UexRole::Refined => c.is_refined == 1 || (c.is_raw == 0 && !is_raw_name(c.name.as_str())),
        UexRole::Raw => c.is_raw == 1 || is_raw_name(c.name.as_str()),
        UexRole::ChildOf(id) => match c.id_parent {
            Some(p) => p == *id,
            None => false,
        },
    }
}

fn find_uex(cs: &[UexCommodity], needle: &str, role: UexRole) -> (r: Option<UexCommodity>)
    ensures
        uex_opt_view(r) == first_uex(uex_views(cs@), needle@, role),
{
    let ghost vs = uex_views(cs@);
    let mut i: usize = 0;
    assert(vs.skip(0) == vs);
    while i < cs.len()
        invariant
            vs == uex_views(cs@),
            i <= cs.len(),
            first_uex(vs, needle@, role) == first_uex(vs.skip(i as int), needle@, role),
        decreases cs.len() - i,
    {
        assert(vs.skip(i as int)[0] == uex_view(cs@[i as int]));
        assert(vs.skip(i as int).drop_first() == vs.skip(i + 1));
        let n = normalize_name(cs[i].name.as_str());
        if crate::text::str_eq(n.as_str(), needle) && has_uex_role(&cs[i], &role) {
            return Some(cs[i].copy());
        }
        i += 1;
    }
    None
}

/// The refined and raw UEX records of a mineral name (`None`: no mapping).
pub fn map_uex_commodity(name: &str, commodities: &[UexCommodity]) -> (r: Option<UexMapping>)
    ensures
        match r {
            Some(m) => uex_mapping_spec(uex_views(commodities@), name@) == Some(
                (uex_opt_view(m.refined), uex_opt_view(m.raw)),
            ),
            None => uex_mapping_spec(uex_views(commodities@), name@) is None,
        },
{
    let needle_s = normalize_name(name);
    let needle = needle_s.as_str();
    let ghost vs = uex_views(commodities@);
    let mut any = false;
    let mut i: usize = 0;
    while i < commodities.len() && !any
        invariant
            vs == uex_views(commodities@),
            needle@ == normalize_name_spec(name@),
            i <= commodities.len(),
            any ==> any_uex_match(vs, needle@),
            !any ==> forall|k: int| 0 <= k < i ==> !uex_matches(#[trigger] vs[k], needle@),
        decreases commodities.len() - i + (if any { 0int } else { 1int }),
    {
        let n = normalize_name(commodities[i].name.as_str());
        assert(vs[i as int] == uex_view(commodities@[i as int]));
        if crate::text::str_eq(n.as_str(), needle) {
            any = true;
        } else {
            i += 1;
        }
    }
    if !any {
        return None;
    }
    let refined = find_uex(commodities, needle, UexRole::Refined);
    let raw = match find_uex(commodities, needle, UexRole::Raw) {
        Some(r) => Some(r),
        None => match &refined {
            Some(f) => find_uex(commodities, needle, UexRole::ChildOf(f.id)),
            None => None,
        },
    };
    Some(UexMapping { refined, raw })
}

// ---------------------------------------------------------------------------
// Enrichment state
// ---------------------------------------------------------------------------

/// What the local catalogue contributes to an enrichment: the refined and
/// raw uuids, and the description, tier and groups of the refined record
/// (the raw one when there is no refined record).
#[derive(Debug, Clone)]
pub struct ProfileSummary {
    pub uuid: Option<String>,
    pub raw_uuid: Option<String>,
    pub description: Option<String>,
    pub tier: Option<String>,
    pub commodity_groups: Vec<String>,
}

pub open spec fn summary_matches(s: ProfileSummary, p: MineralProfile) -> bool {
    let base = match p.refined {
        Some(c) => Some(c),
        None => p.raw,
    };
    &&& opt_view(s.uuid) == match p.refined {
        Some(c) => Some(c.uuid@),
        None => None,
    }
    &&& opt_view(s.raw_uuid) == match p.raw {
        Some(c) => Some(c.uuid@),
        None => None,
    }
    &&& match base {
        Some(b) => {
            &&& opt_view(s.description) == non_empty_spec(b.description@)
            &&& opt_view(s.tier) == opt_view(b.tier)
            &&& strings_view(s.commodity_groups@) == strings_view(b.commodity_groups@)
        },
        None => s.description is None && s.tier is None && s.commodity_groups@.len() == 0,
    }
}

pub fn profile_summary(profile: &MineralProfile) -> (r: ProfileSummary)
    ensures
        summary_matches(r, *profile),
{
    let uuid = match &profile.refined {
        Some(c) => Some(c.uuid.clone()),
        None => None,
    };
    let raw_uuid = match &profile.raw {
        Some(c) => Some(c.uuid.clone()),
        None => None,
    };
    let base = match &profile.refined {
        Some(c) => Some(c),
        None => match &profile.raw {
            Some(c) => Some(c),
            None => None,
        },
    };
    match base {
        Some(b) => ProfileSummary {
            uuid,
            raw_uuid,
            description: non_empty(b.description.as_str()),
            tier: copy_string_opt(&b.tier),
            commodity_groups: copy_strings(&b.commodity_groups),
        },
        None => ProfileSummary {
            uuid,
            raw_uuid,
            description: None,
            tier: None,
            commodity_groups: Vec::new(),
        },
    }
}

/// How far an enrichment got: whether UEX is in use and its lookup
/// succeeded, whether it mapped a refined commodity and found its market,
/// whether a raw commodity or raw uuid is known, and whether a refinery
/// recommendation was resolved.
#[derive(Debug, Clone, Copy, PartialEq, Eq, Structural)]
pub struct EnrichmentProgress {
    pub use_uex: bool,
    pub uex_succeeded: bool,
    pub refined_mapped: bool,
    pub refined_market_found: bool,
    pub raw_mapped: bool,
    pub raw_uuid_known: bool,
    pub refinery_found: bool,
}

/// The verdict on an enrichment: whether a report may be generated, and
/// which of the two reasons for deferring it apply.
#[derive(Debug, Clone, Copy, PartialEq, Eq, Structural)]
pub struct EnrichmentCheck {
    pub complete: bool,
    pub refined_market_missing: bool,
    pub refinery_missing: bool,
}

/// A refinery recommendation is needed for raw material: a mapped raw
/// commodity, a known raw uuid, or a mineral group.
pub open spec fn refinery_required_spec(p: EnrichmentProgress, groups: Seq<Seq<char>>) -> bool {
    p.raw_mapped || p.raw_uuid_known || any_mineral_group(groups)
}

/// UEX, when in use, answered; and a refined commodity it mapped has a market.
pub open spec fn market_complete(p: EnrichmentProgress) -> bool {
    !p.use_uex || (p.uex_succeeded && (!p.refined_mapped || p.refined_market_found))
}

pub open spec fn enrichment_check_spec(p: EnrichmentProgress, groups: Seq<Seq<char>>) -> EnrichmentCheck {
    let refinery_missing = refinery_required_spec(p, groups) && !p.refinery_found;
    EnrichmentCheck {
        complete: (!p.use_uex || p.uex_succeeded) && market_complete(p) && !refinery_missing,
        refined_market_missing: p.use_uex && p.uex_succeeded && p.refined_mapped
            && !p.refined_market_found,
        refinery_missing,
    }
}

pub fn check_enrichment(progress: &EnrichmentProgress, groups: &Vec<String>) -> (r: EnrichmentCheck)
    ensures
        r == enrichment_check_spec(*progress, strings_view(groups@)),
{
    let required = progress.raw_mapped || progress.raw_uuid_known || has_mineral_group(groups);
    let refinery_missing = required && !progress.refinery_found;
    let uex_ok = !progress.use_uex || progress.uex_succeeded;
    let market_ok = !progress.use_uex || (progress.uex_succeeded && (!progress.refined_mapped
        || progress.refined_market_found));
    EnrichmentCheck {
        complete: uex_ok && market_ok && !refinery_missing,
        refined_market_missing: progress.use_uex && progress.uex_succeeded
            && progress.refined_mapped && !progress.refined_market_found,
        refinery_missing,
    }
}

/// The note recorded when a mapped refined commodity has no market quote.
pub fn refined_market_deferred_note() -> (r: &'static str)
    ensures
        r@ == "UEX mapped a refined commodity but no refined market quote was resolved; report generation deferred."@,
{
    "UEX mapped a refined commodity but no refined market quote was resolved; report generation deferred."
}

/// The note recorded when raw material has no refinery recommendation.
pub fn refinery_deferred_note() -> (r: &'static str)
    ensures
        r@ == "No local/configured refinery recommendation could be resolved; report generation deferred."@,
{
    "No local/configured refinery recommendation could be resolved; report generation deferred."
}

/// A complete enrichment has no reason to defer its report: UEX, when in
/// use, answered; a refined commodity it mapped has a market; and raw
/// material has a refinery recommendation.
pub proof fn law_complete_means_nothing_deferred(p: EnrichmentProgress, groups: Seq<Seq<char>>)
    requires
        enrichment_check_spec(p, groups).complete,
    ensures
        !enrichment_check_spec(p, groups).refined_market_missing,
        !enrichment_check_spec(p, groups).refinery_missing,
        p.use_uex ==> p.uex_succeeded,
        p.use_uex && p.refined_mapped ==> p.refined_market_found,
        refinery_required_spec(p, groups) ==> p.refinery_found,
{
}

/// Without UEX, an enrichment of a non-raw commodity is complete, and one
/// of raw material is complete exactly when a refinery was resolved.
pub proof fn law_local_enrichment_needs_only_refinery(p: EnrichmentProgress, groups: Seq<Seq<char>>)
    requires
        !p.use_uex,
    ensures
        enrichment_check_spec(p, groups).complete == (!refinery_required_spec(p, groups)
            || p.refinery_found),
{
}

// ---------------------------------------------------------------------------
// Provider addresses
// ---------------------------------------------------------------------------

/// The text without its trailing slashes (`trim_end_matches('/')`).
pub open spec fn without_trailing_slashes(s: Seq<char>) -> Seq<char>
    decreases s.len(),
{
    if s.len() > 0 && s.last() == '/' {
        without_trailing_slashes(s.drop_last())
    } else {
        s
    }
}

fn base_chars(url: &str) -> (r: Vec<char>)
    ensures
        r@ == without_trailing_slashes(url@),
{
    let v = chars_of(url);
    let mut n: usize = v.len();
    assert(v@.take(n as int) == v@);
    while n > 0 && v[n - 1] == '/'
        invariant
            n <= v.len(),
            without_trailing_slashes(v@) == without_trailing_slashes(v@.take(n as int)),
        decreases n,
    {
        assert(v@.take(n as int).drop_last() == v@.take(n - 1));
        n -= 1;
    }
    let r = crate::text::slice_chars(&v, 0, n);
    assert(r@ == v@.take(n as int));
    r
}

/// `<base>/<path>` with the base's trailing slashes removed.
pub open spec fn provider_url_spec(base: Seq<char>, path: Seq<char>) -> Seq<char> {
    without_trailing_slashes(base) + "/"@ + path
}

/// The address of a provider resource below a base address.
pub fn provider_url(base: &str, path: &str) -> (r: String)
    ensures
        r@ == provider_url_spec(base@, path@),
{
    let mut out = base_chars(base);
    crate::text::append_str(&mut out, "/");
    crate::text::append_str(&mut out, path);
    string_of(&out)
}

/// The UEX price list of a commodity: refined prices, or raw prices.
pub open spec fn uex_prices_url_spec(base: Seq<char>, raw: bool, id: int) -> Seq<char> {
    provider_url_spec(
        base,
        (if raw {
            "commodities_raw_prices?id_commodity="@
        } else {
            "commodities_prices?id_commodity="@
        }) + signed_decimal_spec(id),
    )
}

pub fn uex_prices_url(base: &str, raw: bool, id: i64) -> (r: String)
    ensures
        r@ == uex_prices_url_spec(base@, raw, id as int),
{
    let mut path: Vec<char> = if raw {
        chars_of("commodities_raw_prices?id_commodity=")
    } else {
        chars_of("commodities_prices?id_commodity=")
    };
    let digits = signed_decimal_chars(id);
    extend_chars(&mut path, &digits);
    let p = string_of(&path);
    provider_url(base, p.as_str())
}

/// The StarCitizen.Tools query for the intro extract and picture of a page.
pub open spec fn tools_query_url_spec(base: Seq<char>, title: Seq<char>) -> Seq<char> {
    without_trailing_slashes(base)
        + "?action=query&format=json&prop=extracts%7Cpageimages&exintro=1&explaintext=1&pithumbsize=640&titles="@
        + percent_encode(encode_utf8(title))
}

pub fn tools_query_url(base: &str, title: &str) -> (r: String)
    ensures
        r@ == tools_query_url_spec(base@, title@),
{
    let mut out = base_chars(base);
    crate::text::append_str(
        &mut out,
        "?action=query&format=json&prop=extracts%7Cpageimages&exintro=1&explaintext=1&pithumbsize=640&titles=",
    );
    let encoded = percent_encode_query(title);
    crate::text::append_str(&mut out, encoded.as_str());
    string_of(&out)
}

pub open spec fn space_to_underscore(c: char) -> char {
    if c == ' ' {
        '_'
    } else {
        c
    }
}

/// The StarCitizen.Tools page of a title: spaces become underscores.
pub open spec fn tools_page_url_spec(title: Seq<char>) -> Seq<char> {
    "https://starcitizen.tools/"@ + title.map_values(|c: char| space_to_underscore(c))
}

pub fn tools_page_url(title: &str) -> (r: String)
    ensures
        r@ == tools_page_url_spec(title@),
{
    let v = chars_of(title);
    let mut out = chars_of("https://starcitizen.tools/");
    let ghost start = out@;
    let mut i: usize = 0;
    while i < v.len()
        invariant
            i <= v.len(),
            start == "https://starcitizen.tools/"@,
            out@ == start + v@.take(i as int).map_values(|c: char| space_to_underscore(c)),
        decreases v.len() - i,
    {
        out.push(if v[i] == ' ' { '_' } else { v[i] });
        i += 1;
        assert(out@ =~= start + v@.take(i as int).map_values(|c: char| space_to_underscore(c)));
    }
    assert(v@.take(v.len() as int) == v@);
    string_of(&out)
}

// ---------------------------------------------------------------------------
// The selected refinery
// ---------------------------------------------------------------------------

/// The selected refinery after the options were reloaded: the option with
/// the selected terminal id when there is one; otherwise, when a label was
/// remembered, the first option whose display label or location equals it
/// ignoring ASCII case.
pub open spec fn label_matches(o: RefineryView, label: Seq<char>) -> bool {
    lower(display_label_spec(o.1, o.3)) == lower(label) || lower(o.1) == lower(label)
}

#[verifier::opaque]
pub open spec fn first_with_id(os: Seq<RefineryView>, id: i64) -> Option<int> {
    if exists|i: int| 0 <= i < os.len() && (#[trigger] os[i]).0 == id {
        Some(choose|i: int| 0 <= i < os.len() && (#[trigger] os[i]).0 == id && forall|j: int| 0 <= j < i ==> (#[trigger] os[j]).0 != id)
    } else {
        None
    }
}

#[verifier::opaque]
pub open spec fn first_with_label(os: Seq<RefineryView>, label: Seq<char>) -> Option<int> {
    if exists|i: int| 0 <= i < os.len() && label_matches(#[trigger] os[i], label) {
        Some(choose|i: int| 0 <= i < os.len() && label_matches(#[trigger] os[i], label) && forall|j: int| 0 <= j < i ==> !label_matches(#[trigger] os[j], label))
    } else {
        None
    }
}

pub open spec fn reselected(os: Seq<RefineryView>, selected_id: Option<i64>, label: Seq<char>) -> Option<int> {
    let by_id = match selected_id {
        Some(id) => first_with_id(os, id),
        None => None,
    };
    if by_id is Some {
        by_id
    } else if label.len() > 0 {
        first_with_label(os, label)
    } else {
        None
    }
}

proof fn lemma_first_unique_id(os: Seq<RefineryView>, id: i64, i: int)
    requires
        0 <= i < os.len(),
        os[i].0 == id,
        forall|j: int| 0 <= j < i ==> (#[trigger] os[j]).0 != id,
    ensures
        first_with_id(os, id) == Some(i),
{
    reveal(first_with_id);
    let c = choose|k: int| 0 <= k < os.len() && (#[trigger] os[k]).0 == id && forall|j: int| 0 <= j < k ==> (#[trigger] os[j]).0 != id;
    assert(0 <= c < os.len() && os[c].0 == id && forall|j: int| 0 <= j < c ==> (#[trigger] os[j]).0 != id);
    if c < i {
    } else if c > i {
        assert(os[i].0 != id);
    }
}

proof fn lemma_first_unique_label(os: Seq<RefineryView>, label: Seq<char>, i: int)
    requires
        0 <= i < os.len(),
        label_matches(os[i], label),
        forall|j: int| 0 <= j < i ==> !label_matches(#[trigger] os[j], label),
    ensures
        first_with_label(os, label) == Some(i),
{
    reveal(first_with_label);
    let c = choose|k: int| 0 <= k < os.len() && label_matches(#[trigger] os[k], label) && forall|j: int| 0 <= j < k ==> !label_matches(#[trigger] os[j], label);
    assert(0 <= c < os.len() && label_matches(os[c], label) && forall|j: int| 0 <= j < c ==> !label_matches(#[trigger] os[j], label));
    if c < i {
    } else if c > i {
        assert(!label_matches(os[i], label));
    }
}

proof fn lemma_no_id(os: Seq<RefineryView>, id: i64)
    requires
        forall|j: int| 0 <= j < os.len() ==> (#[trigger] os[j]).0 != id,
    ensures
        first_with_id(os, id) is None,
{
    reveal(first_with_id);
}

proof fn lemma_no_label(os: Seq<RefineryView>, label: Seq<char>)
    requires
        forall|j: int| 0 <= j < os.len() ==> !label_matches(#[trigger] os[j], label),
    ensures
        first_with_label(os, label) is None,
{
    reveal(first_with_label);
}

/// The position of the refinery to keep selected after reloading the options.
pub fn reselect_refinery(options: &[RefineryOption], selected_id: Option<i64>, label: &str) -> (r:
    Option<usize>)
    ensures
        match r {
            Some(i) => reselected(refinery_views(options@), selected_id, label@) == Some(i as int),
            None => reselected(refinery_views(options@), selected_id, label@) is None,
        },
{
    let ghost os = refinery_views(options@);
    if let Some(id) = selected_id {
        let mut i: usize = 0;
        while i < options.len()
            invariant
                os == refinery_views(options@),
                selected_id == Some(id),
                i <= options.len(),
                forall|j: int| 0 <= j < i ==> (#[trigger] os[j]).0 != id,
            decreases options.len() - i,
        {
            assert(os[i as int] == refinery_view(options@[i as int]));
            if options[i].terminal_id == id {
                proof {
                    lemma_first_unique_id(os, id, i as int);
                }
                return Some(i);
            }
            i += 1;
        }
        proof {
            lemma_no_id(os, id);
        }
    }
    let label_chars = chars_of(label);
    if label_chars.len() == 0 {
        return None;
    }
    let mut k: usize = 0;
    while k < options.len()
        invariant
            os == refinery_views(options@),
            k <= options.len(),
            label_chars@ == label@,
            label@.len() > 0,
            match selected_id {
                Some(id) => first_with_id(os, id) is None,
                None => true,
            },
            forall|j: int| 0 <= j < k ==> !label_matches(#[trigger] os[j], label@),
        decreases options.len() - k,
    {
        let shown = options[k].display_label();
        let by_label = eq_ignore_ascii_case(&chars_of(shown.as_str()), &label_chars);
        let by_location = eq_ignore_ascii_case(&chars_of(options[k].location.as_str()), &label_chars);
        assert(os[k as int] == refinery_view(options@[k as int]));
        if by_label || by_location {
            proof {
                lemma_first_unique_label(os, label@, k as int);
            }
            return Some(k);
        }
        k += 1;
    }
    proof {
        lemma_no_label(os, label@);
    }
    None
}

// ---------------------------------------------------------------------------
// The order of an enrichment
// ---------------------------------------------------------------------------

/// Which online providers the user enabled.
#[derive(Debug, Clone, Copy, PartialEq, Eq, Structural)]
pub struct ProviderSwitches {
    pub use_uex: bool,
    pub use_star_citizen_wiki_api: bool,
    pub use_starcitizen_tools: bool,
}

/// The steps of an enrichment, in the order they run. `Uex`, `WikiApi`,
/// `Tools` and `Locations` ask online providers; the others are local.
#[derive(Debug, Clone, Copy, PartialEq, Eq, Structural)]
pub enum EnrichmentStep {
    /// Market prices and the commodity mapping from UEX.
    Uex,
    /// The refinery recommendation from the configured refinery data.
    ConfiguredRefinery,
    /// Description, uuid and media from the Star Citizen Wiki API.
    WikiApi,
    /// Description and media from StarCitizen.Tools.
    Tools,
    /// Descriptions of the sale and refinery locations from StarCitizen.Tools.
    Locations,
    /// The value estimates.
    Values,
    Done,
}

/// The step may run with these switches: a provider is asked only when it
/// is enabled.
pub open spec fn step_allowed(sw: ProviderSwitches, s: EnrichmentStep) -> bool {
    match s {
        EnrichmentStep::Uex => sw.use_uex,
        EnrichmentStep::WikiApi => sw.use_star_citizen_wiki_api,
        EnrichmentStep::Tools => sw.use_starcitizen_tools,
        EnrichmentStep::Locations => sw.use_starcitizen_tools,
        _ => true,
    }
}

pub open spec fn after_refinery_spec(sw: ProviderSwitches) -> EnrichmentStep {
    if sw.use_star_citizen_wiki_api {
        EnrichmentStep::WikiApi
    } else if sw.use_starcitizen_tools {
        EnrichmentStep::Tools
    } else {
        EnrichmentStep::Values
    }
}

pub open spec fn after_uex_spec(sw: ProviderSwitches, refinery_known: bool) -> EnrichmentStep {
    if refinery_known {
        after_refinery_spec(sw)
    } else {
        EnrichmentStep::ConfiguredRefinery
    }
}

pub open spec fn first_step_spec(sw: ProviderSwitches) -> EnrichmentStep {
    if sw.use_uex {
        EnrichmentStep::Uex
    } else {
        EnrichmentStep::ConfiguredRefinery
    }
}

/// The step after `s`; `refinery_known` tells whether a refinery
/// recommendation is already at hand (the configured refinery is only
/// consulted when UEX did not give one).
pub open spec fn next_step_spec(sw: ProviderSwitches, s: EnrichmentStep, refinery_known: bool) -> EnrichmentStep {
    match s {
        EnrichmentStep::Uex => after_uex_spec(sw, refinery_known),
        EnrichmentStep::ConfiguredRefinery => after_refinery_spec(sw),
        EnrichmentStep::WikiApi => if sw.use_starcitizen_tools {
            EnrichmentStep::Tools
        } else {
            EnrichmentStep::Values
        },
        EnrichmentStep::Tools => EnrichmentStep::Locations,
        EnrichmentStep::Locations => EnrichmentStep::Values,
        EnrichmentStep::Values => EnrichmentStep::Done,
        EnrichmentStep::Done => EnrichmentStep::Done,
    }
}

pub fn first_step(sw: ProviderSwitches) -> (r: EnrichmentStep)
    ensures
        r == first_step_spec(sw),
{
    if sw.use_uex {
        EnrichmentStep::Uex
    } else {
        EnrichmentStep::ConfiguredRefinery
    }
}

fn after_refinery(sw: ProviderSwitches) -> (r: EnrichmentStep)
    ensures
        r == after_refinery_spec(sw),
{
    if sw.use_star_citizen_wiki_api {
        EnrichmentStep::WikiApi
    } else if sw.use_starcitizen_tools {
        EnrichmentStep::Tools
    } else {
        EnrichmentStep::Values
    }
}

pub fn next_step(sw: ProviderSwitches, current: EnrichmentStep, refinery_known: bool) -> (r:
    EnrichmentStep)
    ensures
        r == next_step_spec(sw, current, refinery_known),
{
    match current {
        EnrichmentStep::Uex => if refinery_known {
            after_refinery(sw)
        } else {
            EnrichmentStep::ConfiguredRefinery
        },
        EnrichmentStep::ConfiguredRefinery => after_refinery(sw),
        EnrichmentStep::WikiApi => if sw.use_starcitizen_tools {
            EnrichmentStep::Tools
        } else {
            EnrichmentStep::Values
        },
        EnrichmentStep::Tools => EnrichmentStep::Locations,
        EnrichmentStep::Locations => EnrichmentStep::Values,
        EnrichmentStep::Values => EnrichmentStep::Done,
        EnrichmentStep::Done => EnrichmentStep::Done,
    }
}

/// The step reached after `n` transitions, with the refinery known from
/// the given transition on.
pub open spec fn step_after(sw: ProviderSwitches, n: nat, refinery_known: Seq<bool>) -> EnrichmentStep
    decreases n,
{
    if n == 0 {
        first_step_spec(sw)
    } else {
        let prev = step_after(sw, (n - 1) as nat, refinery_known);
        next_step_spec(sw, prev, if n - 1 < refinery_known.len() { refinery_known[n - 1] } else { true })
    }
}

/// Online providers are asked only when enabled: no step of an enrichment,
/// however far it runs, contacts a provider that is switched off.
pub proof fn law_only_enabled_providers_are_asked(
    sw: ProviderSwitches,
    n: nat,
    refinery_known: Seq<bool>,
)
    ensures
        step_allowed(sw, step_after(sw, n, refinery_known)),
    decreases n,
{
    if n > 0 {
        law_only_enabled_providers_are_asked(sw, (n - 1) as nat, refinery_known);
    }
}

/// Every enrichment finishes: after at most six transitions it is done.
pub proof fn law_enrichment_finishes(sw: ProviderSwitches, refinery_known: Seq<bool>)
    ensures
        step_after(sw, 6, refinery_known) == EnrichmentStep::Done,
{
    reveal_with_fuel(step_after, 7);
}

// ---------------------------------------------------------------------------
// Requests in flight
// ---------------------------------------------------------------------------

/// The mineral whose enrichment is running, if any.
#[derive(Debug, Clone, Default)]
pub struct EnrichmentRequests {
    pub in_flight: Option<String>,
}

/// A request for `name`: whether it starts, and what is in flight after it.
/// A request for the mineral already in flight changes nothing; any other
/// starts and becomes the one in flight.
pub open spec fn begin_spec(in_flight: Option<Seq<char>>, name: Seq<char>) -> (bool, Option<Seq<char>>) {
    if in_flight == Some(name) {
        (false, in_flight)
    } else {
        (true, Some(name))
    }
}

/// What is in flight after `results` results arrived.
pub open spec fn finish_spec(in_flight: Option<Seq<char>>, results: nat) -> Option<Seq<char>> {
    if results > 0 {
        None
    } else {
        in_flight
    }
}

impl EnrichmentRequests {
    /// Whether to start enriching `name`: not when that very mineral is
    /// already in flight. A started request becomes the one in flight.
    pub fn begin(&mut self, name: &str) -> (r: bool)
        ensures
            (r, opt_view(final(self).in_flight)) == begin_spec(opt_view(old(self).in_flight), name@),
    {
        let same = match &self.in_flight {
            Some(current) => str_eq(current.as_str(), name),
            None => false,
        };
        if same {
            return false;
        }
        self.in_flight = Some(string_of(&chars_of(name)));
        true
    }

    /// Results arrived: nothing is in flight any more when there was at
    /// least one.
    pub fn finish(&mut self, results: usize)
        ensures
            opt_view(final(self).in_flight) == finish_spec(opt_view(old(self).in_flight), results as nat),
    {
        if results > 0 {
            self.in_flight = None;
        }
    }
}

/// The bookkeeping of requests in flight: after a request for `name` that
/// mineral is in flight and a repeated request for it is ignored; a result
/// clears it, after which a request for it starts again. Until a result
/// arrives it stays in flight.
pub proof fn law_request_then_finish(in_flight: Option<Seq<char>>, name: Seq<char>, results: nat)
    ensures
        begin_spec(in_flight, name).1 == Some(name),
        begin_spec(begin_spec(in_flight, name).1, name) == (false, Some(name)),
        results == 0 ==> finish_spec(begin_spec(in_flight, name).1, results) == Some(name),
        results > 0 ==> finish_spec(begin_spec(in_flight, name).1, results) is None,
        results > 0 ==> begin_spec(finish_spec(begin_spec(in_flight, name).1, results), name) == (
        true, Some(name)),
{
}

// ---------------------------------------------------------------------------
// Merging what the providers say
// ---------------------------------------------------------------------------

/// What the providers have said of a mineral's identity, with the providers
/// that answered and the warnings gathered, in order.
#[derive(Debug, Default)]
pub struct MineralIdentity {
    pub uuid: Option<String>,
    pub raw_uuid: Option<String>,
    pub description: Option<String>,
    pub media: Option<MediaInfo>,
    pub providers_used: Vec<String>,
    pub warnings: Vec<String>,
}

/// A value already known is kept; otherwise the provider's is taken.
pub open spec fn known_or(known: Option<Seq<char>>, offered: Option<Seq<char>>) -> Option<Seq<char>> {
    if known is Some {
        known
    } else {
        offered
    }
}

fn keep_or_take(known: &mut Option<String>, offered: Option<String>)
    ensures
        opt_view(*final(known)) == known_or(opt_view(*old(known)), opt_view(offered)),
{
    if known.is_none() {
        *known = offered;
    }
}

fn push_text(v: &mut Vec<String>, s: &str)
    ensures
        strings_view(final(v)@) == strings_view(old(v)@).push(s@),
{
    v.push(s.to_owned());
    assert(strings_view(v@) =~= strings_view(old(v)@).push(s@));
}

impl MineralIdentity {
    /// The catalogue answered (its identity fields are set by the caller).
    pub fn record_catalogue(&mut self)
        ensures
            strings_view(final(self).providers_used@) == strings_view(old(self).providers_used@).push(
                "SCUnpacked"@,
            ),
            opt_view(final(self).uuid) == opt_view(old(self).uuid),
            opt_view(final(self).raw_uuid) == opt_view(old(self).raw_uuid),
            opt_view(final(self).description) == opt_view(old(self).description),
            final(self).media == old(self).media,
            final(self).warnings@ == old(self).warnings@,
    {
        push_text(&mut self.providers_used, "SCUnpacked");
    }

    /// UEX answered: its identifiers fill in what is not yet known; the note
    /// on a missing refined market (when `market_note`) and then UEX's own
    /// warnings are added.
    pub fn merge_uex(
        &mut self,
        refined_uuid: Option<String>,
        raw_uuid: Option<String>,
        market_note: bool,
        uex_warnings: Vec<String>,
    )
        ensures
            opt_view(final(self).uuid) == known_or(opt_view(old(self).uuid), opt_view(refined_uuid)),
            opt_view(final(self).raw_uuid) == known_or(opt_view(old(self).raw_uuid), opt_view(raw_uuid)),
            opt_view(final(self).description) == opt_view(old(self).description),
            final(self).media == old(self).media,
            strings_view(final(self).providers_used@) == strings_view(old(self).providers_used@).push(
                "UEX"@,
            ),
            strings_view(final(self).warnings@) == strings_view(old(self).warnings@) + (if market_note {
                seq![
                    "UEX mapped a refined commodity but no refined market quote was resolved; report generation deferred."@,
                ]
            } else {
                Seq::<Seq<char>>::empty()
            }) + strings_view(uex_warnings@),
    {
        let ghost w0 = strings_view(self.warnings@);
        if market_note {
            push_text(&mut self.warnings, refined_market_deferred_note());
        }
        let ghost w1 = strings_view(self.warnings@);
        let ghost pre_uuid = self.uuid;
        let ghost pre_raw = self.raw_uuid;
        let ghost pre_description = self.description;
        let ghost pre_media = self.media;
        let ghost pre_providers = self.providers_used@;
        let mut i: usize = 0;
        while i < uex_warnings.len()
            invariant
                i <= uex_warnings.len(),
                self.uuid == pre_uuid,
                self.raw_uuid == pre_raw,
                self.description == pre_description,
                self.media == pre_media,
                self.providers_used@ == pre_providers,
                strings_view(self.warnings@) == w1 + strings_view(uex_warnings@).take(i as int),
            decreases uex_warnings.len() - i,
        {
            let w = uex_warnings[i].clone();
            let ghost before = self.warnings@;
            self.warnings.push(w);
            assert(strings_view(self.warnings@) =~= strings_view(before).push(uex_warnings@[i as int]@));
            i += 1;
            assert(strings_view(self.warnings@) =~= w1 + strings_view(uex_warnings@).take(i as int));
        }
        assert(strings_view(uex_warnings@).take(uex_warnings.len() as int) =~= strings_view(uex_warnings@));
        keep_or_take(&mut self.uuid, refined_uuid);
        keep_or_take(&mut self.raw_uuid, raw_uuid);
        push_text(&mut self.providers_used, "UEX");
    }

    /// The star-citizen.wiki API answered: its uuid and description fill in
    /// what is not yet known, and its picture, when it has one, replaces any
    /// other.
    pub fn merge_wiki(&mut self, uuid: Option<String>, description: Option<String>, media: Option<MediaInfo>)
        ensures
            opt_view(final(self).uuid) == known_or(opt_view(old(self).uuid), opt_view(uuid)),
            opt_view(final(self).raw_uuid) == opt_view(old(self).raw_uuid),
            opt_view(final(self).description) == known_or(opt_view(old(self).description), opt_view(description)),
            final(self).media == (if media is Some {
                media
            } else {
                old(self).media
            }),
            strings_view(final(self).providers_used@) == strings_view(old(self).providers_used@).push(
                "api.star-citizen.wiki"@,
            ),
            final(self).warnings@ == old(self).warnings@,
    {
        keep_or_take(&mut self.description, description);
        keep_or_take(&mut self.uuid, uuid);
        if media.is_some() {
            self.media = media;
        }
        push_text(&mut self.providers_used, "api.star-citizen.wiki");
    }

    /// StarCitizen.Tools answered with a page: its extract fills in a
    /// missing description and its page a missing picture.
    pub fn merge_tools(&mut self, media: MediaInfo)
        ensures
            opt_view(final(self).uuid) == opt_view(old(self).uuid),
            opt_view(final(self).raw_uuid) == opt_view(old(self).raw_uuid),
            opt_view(final(self).description) == known_or(opt_view(old(self).description), opt_view(media.extract)),
            final(self).media == (if old(self).media is Some {
                old(self).media
            } else {
                Some(media)
            }),
            strings_view(final(self).providers_used@) == strings_view(old(self).providers_used@).push(
                "StarCitizen.Tools"@,
            ),
            final(self).warnings@ == old(self).warnings@,
    {
        let extract = copy_string_opt(&media.extract);
        keep_or_take(&mut self.description, extract);
        if self.media.is_none() {
            self.media = Some(media);
        }
        push_text(&mut self.providers_used, "StarCitizen.Tools");
    }
}

/// Earlier answers win: once a uuid or description is known, no later
/// provider's answer replaces it.
pub proof fn law_known_values_are_kept(known: Seq<char>, offered: Option<Seq<char>>)
    ensures
        known_or(Some(known), offered) == Some(known),
{
}

} // verus!
