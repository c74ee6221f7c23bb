//! Reading scanner values out of OCR text.
use vstd::prelude::*;

use crate::text::{
    lines_state,
    all_digits, extend_chars, char_is_digit, chars_of, is_digit, lines, parse_digits, parse_u32_digits, split_lines,
    split_words, trim, trim_chars, views, words, is_token_punct, lemma_trim_of_trimmed,
};

verus! {

pub open spec fn is_confusable(c: char) -> bool {
    c == 'O' || c == 'o' || c == 'I' || c == 'l' || c == '|' || c == 'S' || c == 's' || c == 'B'
}

pub open spec fn is_separator(c: char) -> bool {
    c == ',' || c == '.' || c == '\'' || c == '\u{2019}'
}

/// The digit an OCR character stands for: digits themselves and the common
/// confusions O/o -> 0, I/l/| -> 1, S/s -> 5, B -> 8.
pub open spec fn numeric_char(c: char) -> Option<char> {
    if is_digit(c) {
        Some(c)
    } else if c == 'O' || c == 'o' {
        Some('0')
    } else if c == 'I' || c == 'l' || c == '|' {
        Some('1')
    } else if c == 'S' || c == 's' {
        Some('5')
    } else if c == 'B' {
        Some('8')
    } else {
        None
    }
}

/// The digits read from a text, every other character dropped.
pub open spec fn numeric_chars(s: Seq<char>) -> Seq<char>
    decreases s.len(),
{
    if s.len() == 0 {
        seq![]
    } else {
        let prev = numeric_chars(s.drop_last());
        match numeric_char(s.last()) {
            Some(d) => prev.push(d),
            None => prev,
        }
    }
}

/// Digits of a token: separators skipped, confusions mapped.
pub open spec fn token_digits(s: Seq<char>) -> Seq<char>
    decreases s.len(),
{
    if s.len() == 0 {
        seq![]
    } else if is_separator(s.last()) {
        token_digits(s.drop_last())
    } else {
        token_digits(s.drop_last()).push(numeric_char(s.last()).unwrap())
    }
}

/// How many characters are real decimal digits.
pub open spec fn real_digit_count(s: Seq<char>) -> nat
    decreases s.len(),
{
    if s.len() == 0 {
        0
    } else if is_digit(s.last()) {
        real_digit_count(s.drop_last()) + 1
    } else {
        real_digit_count(s.drop_last())
    }
}

pub open spec fn token_char_ok(c: char) -> bool {
    is_digit(c) || is_confusable(c) || is_separator(c)
}

/// A numeric-looking token: after stripping punctuation it starts with a
/// real digit and holds only digits, OCR confusions and digit separators.
pub open spec fn clean_token(t: Seq<char>) -> Option<Seq<char>> {
    let tr = trim(t, true);
    if tr.len() > 0 && is_digit(tr[0]) && (forall|i: int| 0 <= i < tr.len() ==> token_char_ok(#[trigger] tr[i])) {
        Some(token_digits(tr))
    } else {
        None
    }
}

/// Real digits of a token after stripping punctuation.
pub open spec fn token_real_digits(t: Seq<char>) -> nat {
    real_digit_count(trim(t, true))
}

/// Values read from the whitespace-separated tokens of one line, from token
/// `i` on. A group of 1-3 digits followed by a group of exactly 3 digits is
/// one thousands-formatted value ("7 200"); otherwise a token of at least
/// three digits is a value when it is at least 100. Every value holds at
/// least three real digits.
pub open spec fn scan(ws: Seq<Seq<char>>, i: int) -> Seq<u32>
    decreases ws.len() - i,
{
    if i < 0 || i >= ws.len() {
        seq![]
    } else {
        match clean_token(ws[i]) {
            Some(left) => {
                let pair = if 1 <= left.len() <= 3 && i + 1 < ws.len() {
                    match clean_token(ws[i + 1]) {
                        Some(right) => if right.len() == 3 && token_real_digits(ws[i])
                            + token_real_digits(ws[i + 1]) >= 3 {
                            parse_u32_digits(left + right)
                        } else {
                            None
                        },
                        None => None,
                    }
                } else {
                    None
                };
                match pair {
                    Some(v) => seq![v] + scan(ws, i + 2),
                    None => {
                        let single = if left.len() >= 3 && token_real_digits(ws[i]) >= 3 {
                            match parse_u32_digits(left) {
                                Some(v) => if v >= 100 {
                                    seq![v]
                                } else {
                                    seq![]
                                },
                                None => seq![],
                            }
                        } else {
                            seq![]
                        };
                        single + scan(ws, i + 1)
                    },
                }
            },
            None => scan(ws, i + 1),
        }
    }
}

/// Values of all lines, in order.
pub open spec fn lines_values(ls: Seq<Seq<char>>) -> Seq<u32>
    decreases ls.len(),
{
    if ls.len() == 0 {
        seq![]
    } else {
        lines_values(ls.drop_last()) + scan(words(ls.last()), 0)
    }
}

pub open spec fn text_values(s: Seq<char>) -> Seq<u32> {
    lines_values(lines(s))
}

pub open spec fn strictly_increasing(s: Seq<u32>) -> bool {
    forall|i: int, j: int| 0 <= i < j < s.len() ==> s[i] < s[j]
}

pub fn normalize_numeric_char(c: char) -> (r: Option<char>)
    ensures
        r == numeric_char(c),
{
    if '0' <= c && c <= '9' {
        Some(c)
    } else if c == 'O' || c == 'o' {
        Some('0')
    } else if c == 'I' || c == 'l' || c == '|' {
        Some('1')
    } else if c == 'S' || c == 's' {
        Some('5')
    } else if c == 'B' {
        Some('8')
    } else {
        None
    }
}

proof fn lemma_numeric_chars_digits(s: Seq<char>)
    ensures
        all_digits(numeric_chars(s)),
    decreases s.len(),
{
    if s.len() > 0 {
        lemma_numeric_chars_digits(s.drop_last());
    }
}

/// The value of all digits in a text, confusions included (`None` when there
/// are no digits or the value does not fit in `u32`).
pub fn normalize_numeric(text: &str) -> (r: Option<u32>)
    ensures
        r == parse_u32_digits(numeric_chars(text@)),
{
    let chars = chars_of(text);
    let mut normalized: Vec<char> = Vec::new();
    let mut i: usize = 0;
    while i < chars.len()
        invariant
            i <= chars.len(),
            chars@ == text@,
            normalized@ == numeric_chars(chars@.take(i as int)),
        decreases chars.len() - i,
    {
        assert(chars@.take(i + 1).drop_last() == chars@.take(i as int));
        if let Some(d) = normalize_numeric_char(chars[i]) {
            normalized.push(d);
        }
        i += 1;
    }
    assert(chars@.take(chars.len() as int) == chars@);
    proof {
        lemma_numeric_chars_digits(text@);
    }
    parse_digits(&normalized)
}

proof fn lemma_token_digits(s: Seq<char>)
    requires
        forall|i: int| 0 <= i < s.len() ==> token_char_ok(#[trigger] s[i]),
    ensures
        all_digits(token_digits(s)),
        token_digits(s).len() <= s.len(),
    decreases s.len(),
{
    if s.len() > 0 {
        assert forall|i: int| 0 <= i < s.drop_last().len() implies token_char_ok(
            #[trigger] s.drop_last()[i],
        ) by {
            assert(s.drop_last()[i] == s[i]);
        }
        lemma_token_digits(s.drop_last());
        assert(token_char_ok(s[s.len() - 1]));
    }
}

/// The digits of a numeric-looking token and its count of real digits.
pub fn clean_numeric_token(token: &[char]) -> (r: Option<(Vec<char>, usize)>)
    ensures
        match r {
            Some((d, n)) => clean_token(token@) == Some(d@) && n == token_real_digits(token@)
                && all_digits(d@),
            None => clean_token(token@) is None,
        },
{
    let trimmed = trim_chars(token, true);
    if trimmed.len() == 0 || !char_is_digit(trimmed[0]) {
        return None;
    }
    let mut normalized: Vec<char> = Vec::new();
    let mut real_digits: usize = 0;
    let mut i: usize = 0;
    while i < trimmed.len()
        invariant
            i <= trimmed.len(),
            trimmed@ == trim(token@, true),
            forall|k: int| 0 <= k < i ==> token_char_ok(#[trigger] trimmed@[k]),
            normalized@ == token_digits(trimmed@.take(i as int)),
            real_digits == real_digit_count(trimmed@.take(i as int)),
            real_digits <= i,
        decreases trimmed.len() - i,
    {
        let c = trimmed[i];
        assert(trimmed@.take(i + 1).drop_last() == trimmed@.take(i as int));
        assert(trimmed@.take(i + 1).last() == c);
        if char_is_digit(c) {
            normalized.push(c);
            real_digits += 1;
        } else if c == 'O' || c == 'o' || c == 'I' || c == 'l' || c == '|' || c == 'S' || c == 's'
            || c == 'B' {
            match normalize_numeric_char(c) {
                Some(d) => normalized.push(d),
                None => {},
            }
        } else if c == ',' || c == '.' || c == '\'' || c == '\u{2019}' {
        } else {
            return None;
        }
        i += 1;
    }
    assert(trimmed@.take(trimmed.len() as int) == trimmed@);
    proof {
        lemma_token_digits(trimmed@);
    }
    Some((normalized, real_digits))
}

/// Inserts `x` into a strictly increasing vector unless already present.
fn insert_unique(v: &mut Vec<u32>, x: u32)
    requires
        strictly_increasing(old(v)@),
    ensures
        strictly_increasing(final(v)@),
        forall|y: u32| #[trigger] final(v)@.contains(y) <==> (old(v)@.contains(y) || y == x),
{
    let mut p: usize = 0;
    while p < v.len() && v[p] < x
        invariant
            v@ == old(v)@,
            p <= v.len(),
            forall|i: int| 0 <= i < p ==> #[trigger] v@[i] < x,
        decreases v.len() - p,
    {
        p += 1;
    }
    if p < v.len() && v[p] == x {
        return;
    }
    let ghost before = v@;
    v.insert(p, x);
    assert(v@ == before.take(p as int) + seq![x] + before.skip(p as int));
    assert forall|y: u32| #[trigger] v@.contains(y) <==> (before.contains(y) || y == x) by {
        if v@.contains(y) {
            let i = choose|i: int| 0 <= i < v@.len() && v@[i] == y;
            if i < p {
                assert(before[i] == y);
            } else if i > p {
                assert(before[i - 1] == y);
            }
        }
        if before.contains(y) {
            let i = choose|i: int| 0 <= i < before.len() && before[i] == y;
            if i < p {
                assert(v@[i] == y);
            } else {
                assert(v@[i + 1] == y);
            }
        }
        if y == x {
            assert(v@[p as int] == y);
        }
    }
}


/// Values read from the tokens of one line.
fn scan_words(ws: &Vec<Vec<char>>) -> (r: Vec<u32>)
    ensures
        r@ == scan(views(ws@), 0),
{
    let ghost w = views(ws@);
    let mut out: Vec<u32> = Vec::new();
    let mut index: usize = 0;
    while index < ws.len()
        invariant
            w == views(ws@),
            index <= ws.len(),
            out@ + scan(w, index as int) == scan(w, 0),
        decreases ws.len() - index,
    {
        assert(w[index as int] == ws@[index as int]@);
        match clean_numeric_token(&ws[index]) {
            None => {
                index += 1;
            },
            Some((left, left_real)) => {
                let mut paired = false;
                if 1 <= left.len() && left.len() <= 3 && index + 1 < ws.len() {
                    assert(w[index + 1] == ws@[index + 1]@);
                    if let Some((right, right_real)) = clean_numeric_token(&ws[index + 1]) {
                        if right.len() == 3 && (left_real >= 3 || right_real >= 3 - left_real) {
                            let mut both: Vec<char> = Vec::new();
                            extend_chars(&mut both, &left);
                            extend_chars(&mut both, &right);
                            assert(both@ == left@ + right@);
                            assert(all_digits(both@)) by {
                                assert forall|k: int| 0 <= k < both@.len() implies is_digit(
                                    #[trigger] both@[k],
                                ) by {
                                    if k < left@.len() {
                                        assert(both@[k] == left@[k]);
                                    } else {
                                        assert(both@[k] == right@[k - left@.len()]);
                                    }
                                }
                            }
                            if let Some(v) = parse_digits(&both) {
                                let ghost before = out@;
                                out.push(v);
                                assert(out@ == before + seq![v]);
                                assert(before + seq![v] + scan(w, index + 2) == before + (seq![v]
                                    + scan(w, index + 2)));
                                index += 2;
                                paired = true;
                            }
                        }
                    }
                }
                if !paired {
                    let ghost before = out@;
                    if left.len() >= 3 && left_real >= 3 {
                        if let Some(v) = parse_digits(&left) {
                            if v >= 100 {
                                out.push(v);
                                assert(out@ == before + seq![v]);
                                assert(before + seq![v] + scan(w, index + 1) == before + (seq![v]
                                    + scan(w, index + 1)));
                            }
                        }
                    }
                    index += 1;
                }
            },
        }
    }
    assert(scan(w, index as int) == Seq::<u32>::empty());
    assert(out@ + Seq::<u32>::empty() == out@);
    out
}

/// Likely scanner values in a block of OCR text, in increasing order and
/// without repetitions. Tokens never combine across lines; a value must
/// start with a real digit and contain at least three real digits; OCR
/// confusions are accepted only inside an already numeric-looking token.
pub fn extract_numeric_candidates(text: &str) -> (r: Vec<u32>)
    ensures
        strictly_increasing(r@),
        forall|v: u32| #[trigger] r@.contains(v) <==> text_values(text@).contains(v),
{
    let chars = chars_of(text);
    let ls = split_lines(&chars);
    let mut values: Vec<u32> = Vec::new();
    let ghost mut seen: Seq<u32> = seq![];
    let mut li: usize = 0;
    while li < ls.len()
        invariant
            li <= ls.len(),
            views(ls@) == lines(text@),
            strictly_increasing(values@),
            seen == lines_values(views(ls@).take(li as int)),
            forall|v: u32| #[trigger] values@.contains(v) <==> seen.contains(v),
        decreases ls.len() - li,
    {
        let ws = split_words(&ls[li]);
        let line_values = scan_words(&ws);
        let mut k: usize = 0;
        while k < line_values.len()
            invariant
                k <= line_values.len(),
                strictly_increasing(values@),
                forall|v: u32| #[trigger] values@.contains(v) <==> (seen.contains(v) || line_values@.take(k as int).contains(v)),
            decreases line_values.len() - k,
        {
            insert_unique(&mut values, line_values[k]);
            proof {
                let t1 = line_values@.take(k + 1);
                let t0 = line_values@.take(k as int);
                assert(t1 == t0.push(line_values@[k as int]));
                assert forall|v: u32| #[trigger] values@.contains(v) <==> (seen.contains(v) || t1.contains(v)) by {
                    if t1.contains(v) && v != line_values@[k as int] {
                        let j = choose|j: int| 0 <= j < t1.len() && t1[j] == v;
                        assert(t0[j] == v);
                    }
                    if t0.contains(v) {
                        let j = choose|j: int| 0 <= j < t0.len() && t0[j] == v;
                        assert(t1[j] == v);
                    }
                    if v == line_values@[k as int] {
                        assert(t1[k as int] == v);
                    }
                }
            }
            k += 1;
        }
        assert(line_values@.take(line_values.len() as int) == line_values@);
        proof {
            let lv = views(ls@);
            assert(lv.take(li + 1).drop_last() == lv.take(li as int));
            assert(lv.take(li + 1).last() == ls@[li as int]@);
            assert forall|v: u32| #[trigger] values@.contains(v) <==> (seen + line_values@).contains(v) by {
                if (seen + line_values@).contains(v) {
                    let j = choose|j: int| 0 <= j < (seen + line_values@).len() && (seen + line_values@)[j] == v;
                    if j < seen.len() {
                        assert(seen[j] == v);
                    } else {
                        assert(line_values@[j - seen.len()] == v);
                    }
                }
                if seen.contains(v) {
                    let j = choose|j: int| 0 <= j < seen.len() && seen[j] == v;
                    assert((seen + line_values@)[j] == v);
                }
                if line_values@.contains(v) {
                    let j = choose|j: int| 0 <= j < line_values@.len() && line_values@[j] == v;
                    assert((seen + line_values@)[seen.len() + j] == v);
                }
            }
            seen = seen + line_values@;
        }
        li += 1;
    }
    assert(views(ls@).take(ls.len() as int) == views(ls@));
    values
}

// ---------------------------------------------------------------------------
// Laws
// ---------------------------------------------------------------------------

proof fn lemma_lines_state_after_break(a: Seq<char>, b: Seq<char>)
    ensures
        lines_state(a + seq!['\n'] + b) == (lines(a) + lines_state(b).0, lines_state(b).1),
    decreases b.len(),
{
    let s = a + seq!['\n'] + b;
    if b.len() == 0 {
        assert(s == a.push('\n'));
        assert(s.drop_last() == a);
        assert(lines(a) + Seq::<Seq<char>>::empty() =~= lines(a));
    } else {
        let b0 = b.drop_last();
        lemma_lines_state_after_break(a, b0);
        assert(s.drop_last() =~= a + seq!['\n'] + b0);
        assert(s.last() == b.last());
        let (d0, c0) = lines_state(b0);
        if b.last() == '\n' {
            assert(lines(a) + d0.push(c0) =~= (lines(a) + d0).push(c0));
        }
    }
}

proof fn lemma_lines_after_break(a: Seq<char>, b: Seq<char>)
    ensures
        lines(a + seq!['\n'] + b) == lines(a) + lines(b),
{
    lemma_lines_state_after_break(a, b);
    let (d, c) = lines_state(b);
    assert(lines(a) + d.push(c) =~= (lines(a) + d).push(c));
}

proof fn lemma_lines_values_concat(x: Seq<Seq<char>>, y: Seq<Seq<char>>)
    ensures
        lines_values(x + y) == lines_values(x) + lines_values(y),
    decreases y.len(),
{
    if y.len() == 0 {
        assert(x + y =~= x);
        assert(lines_values(x) + Seq::<u32>::empty() =~= lines_values(x));
    } else {
        lemma_lines_values_concat(x, y.drop_last());
        assert((x + y).drop_last() =~= x + y.drop_last());
        assert((x + y).last() == y.last());
        assert(lines_values(x) + lines_values(y.drop_last()) + scan(words(y.last()), 0) =~= lines_values(
            x,
        ) + (lines_values(y.drop_last()) + scan(words(y.last()), 0)));
    }
}

/// Values never combine across a line break: the values of two lines
/// joined by a line feed are the values of the first followed by those of
/// the second.
pub proof fn law_values_do_not_cross_lines(a: Seq<char>, b: Seq<char>)
    ensures
        text_values(a + seq!['\n'] + b) == text_values(a) + text_values(b),
{
    lemma_lines_after_break(a, b);
    lemma_lines_values_concat(lines(a), lines(b));
}

proof fn lemma_token_digits_append(x: Seq<char>, y: Seq<char>)
    ensures
        token_digits(x + y) == token_digits(x) + token_digits(y),
        real_digit_count(x + y) == real_digit_count(x) + real_digit_count(y),
    decreases y.len(),
{
    if y.len() == 0 {
        assert(x + y =~= x);
        assert(token_digits(x) + token_digits(y) =~= token_digits(x));
    } else {
        lemma_token_digits_append(x, y.drop_last());
        assert((x + y).drop_last() =~= x + y.drop_last());
        assert((x + y).last() == y.last());
        if !is_separator(y.last()) {
            let d = numeric_char(y.last()).unwrap();
            assert(token_digits(x) + token_digits(y.drop_last()).push(d) =~= (token_digits(x)
                + token_digits(y.drop_last())).push(d));
        }
    }
}

/// A digit separator (`,` `.` `'` `’`) between two parts of a token is
/// skipped: the token reads as the same digits, with the same count of real
/// digits, as the two parts written together.
pub proof fn law_separator_inside_token(a: Seq<char>, sep: char, b: Seq<char>)
    requires
        a.len() > 0,
        b.len() > 0,
        sep == ',' || sep == '.' || sep == '\'' || sep == '\u{2019}',
        !is_token_punct(a[0]),
        !is_token_punct(b.last()),
    ensures
        clean_token(a + seq![sep] + b) == clean_token(a + b),
        token_real_digits(a + seq![sep] + b) == token_real_digits(a + b),
{
    let t = a + seq![sep] + b;
    let u = a + b;
    assert(t[0] == a[0] && u[0] == a[0]);
    assert(t.last() == b.last() && u.last() == b.last());
    lemma_trim_of_trimmed(t, true);
    lemma_trim_of_trimmed(u, true);
    lemma_token_digits_append(a + seq![sep], b);
    lemma_token_digits_append(a, seq![sep]);
    lemma_token_digits_append(a, b);
    assert(seq![sep].drop_last() =~= Seq::<char>::empty());
    assert(seq![sep].last() == sep);
    assert(is_separator(sep) && !is_digit(sep));
    assert(token_digits(Seq::<char>::empty()) =~= Seq::<char>::empty());
    assert(real_digit_count(Seq::<char>::empty()) == 0);
    assert(token_digits(seq![sep]) =~= Seq::<char>::empty());
    assert(token_digits(a) + Seq::<char>::empty() =~= token_digits(a));
    assert(real_digit_count(seq![sep]) == 0);
    assert(token_char_ok(sep));
    assert((forall|k: int| 0 <= k < t.len() ==> token_char_ok(#[trigger] t[k])) <==> (forall|k: int|
        0 <= k < u.len() ==> token_char_ok(#[trigger] u[k]))) by {
        if forall|k: int| 0 <= k < t.len() ==> token_char_ok(#[trigger] t[k]) {
            assert forall|k: int| 0 <= k < u.len() implies token_char_ok(#[trigger] u[k]) by {
                if k < a.len() {
                    assert(u[k] == t[k]);
                } else {
                    assert(u[k] == t[k + 1]);
                }
            }
        }
        if forall|k: int| 0 <= k < u.len() ==> token_char_ok(#[trigger] u[k]) {
            assert forall|k: int| 0 <= k < t.len() implies token_char_ok(#[trigger] t[k]) by {
                if k < a.len() {
                    assert(t[k] == u[k]);
                } else if k > a.len() {
                    assert(t[k] == u[k - 1]);
                }
            }
        }
    }
}

proof fn lemma_token_digits_are_numeric_chars(t: Seq<char>)
    requires
        forall|k: int|
            0 <= k < t.len() ==> numeric_char(#[trigger] t[k]) is Some || t[k] == ',' || t[k] == '.'
                || t[k] == '\'' || t[k] == '\u{2019}',
    ensures
        token_digits(t) == numeric_chars(t),
        forall|k: int| 0 <= k < t.len() ==> token_char_ok(#[trigger] t[k]),
    decreases t.len(),
{
    if t.len() > 0 {
        assert forall|k: int| 0 <= k < t.drop_last().len() implies numeric_char(#[trigger] t.drop_last()[k]) is Some
            || t.drop_last()[k] == ',' || t.drop_last()[k] == '.' || t.drop_last()[k] == '\''
            || t.drop_last()[k] == '\u{2019}' by {
            assert(t.drop_last()[k] == t[k]);
        }
        lemma_token_digits_are_numeric_chars(t.drop_last());
        assert(numeric_char(t[t.len() - 1]) is Some || is_separator(t[t.len() - 1]));
        assert forall|k: int| 0 <= k < t.len() implies token_char_ok(#[trigger] t[k]) by {
            if k < t.len() - 1 {
                assert(t[k] == t.drop_last()[k]);
            }
        }
    }
}

/// A token that starts with a real digit, does not end in punctuation and
/// is made of digits, OCR confusions and digit separators reads as the
/// digits its characters stand for, separators dropped.
pub proof fn law_token_reads_as_its_digits(t: Seq<char>)
    requires
        t.len() > 0,
        '0' <= t[0] <= '9',
        !is_token_punct(t.last()),
        forall|k: int|
            0 <= k < t.len() ==> numeric_char(#[trigger] t[k]) is Some || t[k] == ',' || t[k] == '.'
                || t[k] == '\'' || t[k] == '\u{2019}',
    ensures
        clean_token(t) == Some(numeric_chars(t)),
{
    lemma_trim_of_trimmed(t, true);
    lemma_token_digits_are_numeric_chars(t);
}

/// Words that read alike (same digits, same count of real digits) give the
/// same values.
proof fn lemma_scan_congruent(ws: Seq<Seq<char>>, vs: Seq<Seq<char>>, i: int)
    requires
        ws.len() == vs.len(),
        forall|j: int|
            0 <= j < ws.len() ==> clean_token(#[trigger] ws[j]) == clean_token(vs[j])
                && token_real_digits(ws[j]) == token_real_digits(vs[j]),
    ensures
        scan(ws, i) == scan(vs, i),
    decreases ws.len() - i,
{
    if 0 <= i < ws.len() {
        lemma_scan_congruent(ws, vs, i + 1);
        if i + 2 <= ws.len() {
            lemma_scan_congruent(ws, vs, i + 2);
        }
        assert(clean_token(ws[i]) == clean_token(vs[i]));
        if i + 1 < ws.len() {
            assert(clean_token(ws[i + 1]) == clean_token(vs[i + 1]));
        }
    }
}

/// Inserting a digit separator between two parts of a word never changes
/// the values read from a line.
pub proof fn law_separator_keeps_line_values(ws: Seq<Seq<char>>, i: int, a: Seq<char>, sep: char, b: Seq<char>)
    requires
        0 <= i < ws.len(),
        a.len() > 0,
        b.len() > 0,
        sep == ',' || sep == '.' || sep == '\'' || sep == '\u{2019}',
        !is_token_punct(a[0]),
        !is_token_punct(b.last()),
    ensures
        scan(ws.update(i, a + seq![sep] + b), 0) == scan(ws.update(i, a + b), 0),
{
    law_separator_inside_token(a, sep, b);
    let w1 = ws.update(i, a + seq![sep] + b);
    let w2 = ws.update(i, a + b);
    assert forall|j: int| 0 <= j < w1.len() implies clean_token(#[trigger] w1[j]) == clean_token(w2[j])
        && token_real_digits(w1[j]) == token_real_digits(w2[j]) by {
        if j != i {
            assert(w1[j] == w2[j]);
        }
    }
    lemma_scan_congruent(w1, w2, 0);
}

} // verus!
