//! Character-level text handling: the mathematical model of the string
//! operations the scanner relies on, and verified executable versions.
use vstd::prelude::*;

verus! {

// ---------------------------------------------------------------------------
// Character classes
// ---------------------------------------------------------------------------

/// Unicode `White_Space` (what `char::is_whitespace` tests).
pub open spec fn is_ws(c: char) -> bool {
    let u = c as u32;
    (0x9 <= u && u <= 0xd) || u == 0x20 || u == 0x85 || u == 0xa0 || u == 0x1680
        || (0x2000 <= u && u <= 0x200a) || u == 0x2028 || u == 0x2029 || u == 0x202f
        || u == 0x205f || u == 0x3000
}

pub open spec fn is_digit(c: char) -> bool {
    '0' <= c && c <= '9'
}

pub open spec fn is_upper(c: char) -> bool {
    'A' <= c && c <= 'Z'
}

pub open spec fn is_ascii_alnum(c: char) -> bool {
    is_digit(c) || is_upper(c) || ('a' <= c && c <= 'z')
}

pub open spec fn lower_char(c: char) -> char {
    if is_upper(c) {
        ((c as u32) + 32) as char
    } else {
        c
    }
}

/// ASCII lower-casing of a whole sequence (`str::to_ascii_lowercase`).
pub open spec fn lower(s: Seq<char>) -> Seq<char> {
    s.map_values(|c: char| lower_char(c))
}

/// Characters stripped from both ends of an OCR token.
pub open spec fn is_token_punct(c: char) -> bool {
    c == ',' || c == '.' || c == ':' || c == ';' || c == '(' || c == ')' || c == '['
        || c == ']' || c == '{' || c == '}' || c == '\'' || c == '\u{2019}'
}

/// The character class used for trimming: punctuation when `punct`, else whitespace.
pub open spec fn trim_class(punct: bool, c: char) -> bool {
    if punct {
        is_token_punct(c)
    } else {
        is_ws(c)
    }
}

pub fn char_is_ws(c: char) -> (r: bool)
    ensures
        r == is_ws(c),
{
    let u = c as u32;
    (0x9 <= u && u <= 0xd) || u == 0x20 || u == 0x85 || u == 0xa0 || u == 0x1680 || (0x2000 <= u
        && u <= 0x200a) || u == 0x2028 || u == 0x2029 || u == 0x202f || u == 0x205f || u == 0x3000
}

pub fn char_is_digit(c: char) -> (r: bool)
    ensures
        r == is_digit(c),
{
    '0' <= c && c <= '9'
}

pub fn char_is_ascii_alnum(c: char) -> (r: bool)
    ensures
        r == is_ascii_alnum(c),
{
    ('0' <= c && c <= '9') || ('A' <= c && c <= 'Z') || ('a' <= c && c <= 'z')
}

pub fn char_lower(c: char) -> (r: char)
    ensures
        r == lower_char(c),
{
    if 'A' <= c && c <= 'Z' {
        let b = c as u8;
        (b + 32) as char
    } else {
        c
    }
}

pub fn char_in_trim_class(punct: bool, c: char) -> (r: bool)
    ensures
        r == trim_class(punct, c),
{
    if punct {
        c == ',' || c == '.' || c == ':' || c == ';' || c == '(' || c == ')' || c == '[' || c
            == ']' || c == '{' || c == '}' || c == '\'' || c == '\u{2019}'
    } else {
        char_is_ws(c)
    }
}

// ---------------------------------------------------------------------------
// Conversions between strings and character vectors
// ---------------------------------------------------------------------------

/// The Unicode lower-case mapping of a string (what `str::to_lowercase` returns).
pub uninterp spec fn unicode_lowercase(s: Seq<char>) -> Seq<char>;

/// `str::to_lowercase`. Trusted: the result is the standard library's
/// Unicode lower-casing of the argument; its content is only named, not stated.
#[verifier::external_body]
pub(crate) fn to_lowercase(s: &str) -> (r: String)
    ensures
        r@ == unicode_lowercase(s@),
{
    s.to_lowercase()
}

/// Appends one character to a string (`String::push`).
/// Trusted: the standard library documents that `push` appends the given
/// character to the end of the string.
#[verifier::external_body]
pub(crate) fn push_char(s: &mut String, c: char)
    ensures
        final(s)@ == old(s)@.push(c),
{
    s.push(c);
}

/// The characters of a string slice, in order.
pub fn chars_of(s: &str) -> (r: Vec<char>)
    ensures
        r@ == s@,
{
    let mut out: Vec<char> = Vec::new();
    for c in it: s.chars()
        invariant
            out@ == it.seq().take(it.index() as int),
            it.seq() == s@,
    {
        out.push(c);
    }
    out
}

/// Builds a string from a sequence of characters.
pub fn string_of(v: &[char]) -> (r: String)
    ensures
        r@ == v@,
{
    let mut out = String::new();
    let mut i: usize = 0;
    while i < v.len()
        invariant
            i <= v.len(),
            out@ == v@.take(i as int),
        decreases v.len() - i,
    {
        push_char(&mut out, v[i]);
        i += 1;
        assert(out@ == v@.take(i as int));
    }
    assert(v@.take(v.len() as int) == v@);
    out
}

/// Appends the characters of `src` to `dst`.
pub fn extend_chars(dst: &mut Vec<char>, src: &[char])
    ensures
        final(dst)@ == old(dst)@ + src@,
{
    let mut i: usize = 0;
    while i < src.len()
        invariant
            i <= src.len(),
            dst@ == old(dst)@ + src@.take(i as int),
        decreases src.len() - i,
    {
        dst.push(src[i]);
        i += 1;
        assert(dst@ == old(dst)@ + src@.take(i as int));
    }
    assert(src@.take(src.len() as int) == src@);
}

/// Appends the characters of a string slice to `dst`.
pub fn append_str(dst: &mut Vec<char>, s: &str)
    ensures
        final(dst)@ == old(dst)@ + s@,
{
    let v = chars_of(s);
    extend_chars(dst, &v);
}

// ---------------------------------------------------------------------------
// Case
// ---------------------------------------------------------------------------

pub fn lower_chars(v: &[char]) -> (r: Vec<char>)
    ensures
        r@ == lower(v@),
{
    let mut out: Vec<char> = Vec::new();
    let mut i: usize = 0;
    while i < v.len()
        invariant
            i <= v.len(),
            out@ == lower(v@.take(i as int)),
        decreases v.len() - i,
    {
        out.push(char_lower(v[i]));
        i += 1;
        assert(out@ == lower(v@.take(i as int)));
    }
    assert(v@.take(v.len() as int) == v@);
    out
}

/// `str::eq_ignore_ascii_case` on character sequences.
pub fn eq_ignore_ascii_case(a: &[char], b: &[char]) -> (r: bool)
    ensures
        r == (lower(a@) == lower(b@)),
{
    if a.len() != b.len() {
        assert(lower(a@).len() != lower(b@).len());
        return false;
    }
    let mut i: usize = 0;
    while i < a.len()
        invariant
            a.len() == b.len(),
            i <= a.len(),
            forall|k: int| 0 <= k < i ==> lower_char(a@[k]) == lower_char(b@[k]),
        decreases a.len() - i,
    {
        if char_lower(a[i]) != char_lower(b[i]) {
            assert(lower(a@)[i as int] != lower(b@)[i as int]);
            return false;
        }
        i += 1;
    }
    assert(lower(a@) =~= lower(b@));
    true
}

// ---------------------------------------------------------------------------
// Trimming
// ---------------------------------------------------------------------------

pub open spec fn trim_start(s: Seq<char>, punct: bool) -> Seq<char>
    decreases s.len(),
{
    if s.len() > 0 && trim_class(punct, s[0]) {
        trim_start(s.drop_first(), punct)
    } else {
        s
    }
}

pub open spec fn trim_end(s: Seq<char>, punct: bool) -> Seq<char>
    decreases s.len(),
{
    if s.len() > 0 && trim_class(punct, s.last()) {
        trim_end(s.drop_last(), punct)
    } else {
        s
    }
}

/// Both ends stripped (`str::trim` for whitespace, `trim_matches` for punctuation).
pub open spec fn trim(s: Seq<char>, punct: bool) -> Seq<char> {
    trim_end(trim_start(s, punct), punct)
}

pub fn trim_chars(v: &[char], punct: bool) -> (r: Vec<char>)
    ensures
        r@ == trim(v@, punct),
{
    let mut i: usize = 0;
    assert(v@.skip(0) == v@);
    while i < v.len() && char_in_trim_class(punct, v[i])
        invariant
            i <= v.len(),
            trim_start(v@, punct) == trim_start(v@.skip(i as int), punct),
        decreases v.len() - i,
    {
        assert(v@.skip(i as int).drop_first() == v@.skip(i + 1));
        i += 1;
    }
    let ghost start = v@.skip(i as int);
    assert(trim_start(v@, punct) == start);
    let mut j: usize = v.len();
    while j > i && char_in_trim_class(punct, v[j - 1])
        invariant
            i <= j <= v.len(),
            start == v@.skip(i as int),
            trim_end(start, punct) == trim_end(v@.subrange(i as int, j as int), punct),
        decreases j,
    {
        assert(v@.subrange(i as int, j as int).drop_last() == v@.subrange(i as int, j - 1));
        j -= 1;
    }
    assert(v@.skip(i as int) == v@.subrange(i as int, v.len() as int));
    let mut out: Vec<char> = Vec::new();
    let mut k: usize = i;
    while k < j
        invariant
            i <= k <= j <= v.len(),
            out@ == v@.subrange(i as int, k as int),
        decreases j - k,
    {
        out.push(v[k]);
        k += 1;
        assert(out@ == v@.subrange(i as int, k as int));
    }
    out
}


/// The result of trimming starts and ends outside the trimmed class.
pub proof fn lemma_trim_ends(s: Seq<char>, punct: bool)
    ensures
        trim(s, punct).len() > 0 ==> !trim_class(punct, trim(s, punct)[0]),
        trim(s, punct).len() > 0 ==> !trim_class(punct, trim(s, punct).last()),
{
    lemma_trim_start_first(s, punct);
    lemma_trim_end_prefix(trim_start(s, punct), punct);
}

proof fn lemma_trim_start_first(s: Seq<char>, punct: bool)
    ensures
        trim_start(s, punct).len() > 0 ==> !trim_class(punct, trim_start(s, punct)[0]),
    decreases s.len(),
{
    if s.len() > 0 && trim_class(punct, s[0]) {
        lemma_trim_start_first(s.drop_first(), punct);
    }
}

proof fn lemma_trim_end_prefix(s: Seq<char>, punct: bool)
    ensures
        trim_end(s, punct).len() <= s.len(),
        trim_end(s, punct) == s.take(trim_end(s, punct).len() as int),
        trim_end(s, punct).len() > 0 ==> !trim_class(punct, trim_end(s, punct).last()),
    decreases s.len(),
{
    if s.len() > 0 && trim_class(punct, s.last()) {
        lemma_trim_end_prefix(s.drop_last(), punct);
        let t = trim_end(s.drop_last(), punct);
        assert(s.drop_last().take(t.len() as int) == s.take(t.len() as int));
    } else {
        assert(s.take(s.len() as int) == s);
    }
}

/// A sequence that starts and ends outside the trimmed class is its own trim.
pub proof fn lemma_trim_of_trimmed(s: Seq<char>, punct: bool)
    requires
        s.len() > 0 ==> !trim_class(punct, s[0]) && !trim_class(punct, s.last()),
    ensures
        trim(s, punct) == s,
{
}

/// ASCII lower-casing leaves no ASCII upper-case letter and keeps whitespace
/// where it was.
pub proof fn lemma_lower_chars(s: Seq<char>)
    ensures
        lower(s).len() == s.len(),
        forall|i: int| 0 <= i < s.len() ==> !is_upper(#[trigger] lower(s)[i]),
        forall|i: int| 0 <= i < s.len() ==> (is_ws(#[trigger] lower(s)[i]) <==> is_ws(s[i])),
{
    assert forall|i: int| 0 <= i < s.len() implies !is_upper(#[trigger] lower(s)[i]) && (is_ws(
        lower(s)[i],
    ) <==> is_ws(s[i])) by {
        let c = s[i];
        if is_upper(c) {
            assert(((c as u32) + 32) as char == lower(s)[i]);
        }
    }
}

/// Lower-casing a sequence with no ASCII upper-case letter changes nothing.
pub proof fn lemma_lower_no_upper(s: Seq<char>)
    requires
        forall|i: int| 0 <= i < s.len() ==> !is_upper(#[trigger] s[i]),
    ensures
        lower(s) == s,
{
    assert(lower(s) =~= s);
}

/// A pattern holding an ASCII upper-case letter never occurs in a sequence
/// that holds none, so replacing it changes nothing.
pub proof fn lemma_replace_absent(s: Seq<char>, pat: Seq<char>, rep: Seq<char>, k: int)
    requires
        0 <= k < pat.len(),
        is_upper(pat[k]),
        forall|i: int| 0 <= i < s.len() ==> !is_upper(#[trigger] s[i]),
    ensures
        replace(s, pat, rep) == s,
    decreases s.len(),
{
    if s.len() > 0 {
        if matches_at(s, 0, pat) {
            assert(s.subrange(0, pat.len() as int)[k] == s[k]);
        }
        lemma_replace_absent(s.drop_first(), pat, rep, k);
        assert(seq![s[0]] + s.drop_first() =~= s);
    }
}

// ---------------------------------------------------------------------------
// Splitting
// ---------------------------------------------------------------------------

pub open spec fn views(ws: Seq<Vec<char>>) -> Seq<Seq<char>> {
    ws.map_values(|w: Vec<char>| w@)
}

/// Scanner state of `split_whitespace`: finished words and the word in progress.
pub open spec fn words_state(s: Seq<char>) -> (Seq<Seq<char>>, Seq<char>)
    decreases s.len(),
{
    if s.len() == 0 {
        (seq![], seq![])
    } else {
        let (done, cur) = words_state(s.drop_last());
        let c = s.last();
        if is_ws(c) {
            if cur.len() > 0 {
                (done.push(cur), seq![])
            } else {
                (done, seq![])
            }
        } else {
            (done, cur.push(c))
        }
    }
}

/// The maximal runs of non-whitespace characters (`str::split_whitespace`).
pub open spec fn words(s: Seq<char>) -> Seq<Seq<char>> {
    let (done, cur) = words_state(s);
    if cur.len() > 0 {
        done.push(cur)
    } else {
        done
    }
}

pub fn split_words(v: &[char]) -> (r: Vec<Vec<char>>)
    ensures
        views(r@) == words(v@),
{
    let mut out: Vec<Vec<char>> = Vec::new();
    let mut cur: Vec<char> = Vec::new();
    let mut i: usize = 0;
    while i < v.len()
        invariant
            i <= v.len(),
            (views(out@), cur@) == words_state(v@.take(i as int)),
        decreases v.len() - i,
    {
        let c = v[i];
        let ghost prev = views(out@);
        assert(v@.take(i + 1).drop_last() == v@.take(i as int));
        if char_is_ws(c) {
            if cur.len() > 0 {
                out.push(cur);
                cur = Vec::new();
                assert(views(out@) =~= prev.push(views(out@).last()));
            }
        } else {
            cur.push(c);
        }
        i += 1;
    }
    assert(v@.take(v.len() as int) == v@);
    if cur.len() > 0 {
        let ghost prev = views(out@);
        out.push(cur);
        assert(views(out@) =~= prev.push(views(out@).last()));
    }
    out
}

/// Scanner state of splitting at `'\n'`: finished lines and the line in progress.
pub open spec fn lines_state(s: Seq<char>) -> (Seq<Seq<char>>, Seq<char>)
    decreases s.len(),
{
    if s.len() == 0 {
        (seq![], seq![])
    } else {
        let (done, cur) = lines_state(s.drop_last());
        if s.last() == '\n' {
            (done.push(cur), seq![])
        } else {
            (done, cur.push(s.last()))
        }
    }
}

/// The segments between line feeds; the last segment may be empty.
pub open spec fn lines(s: Seq<char>) -> Seq<Seq<char>> {
    let (done, cur) = lines_state(s);
    done.push(cur)
}

pub fn split_lines(v: &[char]) -> (r: Vec<Vec<char>>)
    ensures
        views(r@) == lines(v@),
{
    let mut out: Vec<Vec<char>> = Vec::new();
    let mut cur: Vec<char> = Vec::new();
    let mut i: usize = 0;
    while i < v.len()
        invariant
            i <= v.len(),
            (views(out@), cur@) == lines_state(v@.take(i as int)),
        decreases v.len() - i,
    {
        let c = v[i];
        let ghost prev = views(out@);
        assert(v@.take(i + 1).drop_last() == v@.take(i as int));
        if c == '\n' {
            out.push(cur);
            cur = Vec::new();
            assert(views(out@) =~= prev.push(views(out@).last()));
        } else {
            cur.push(c);
        }
        i += 1;
    }
    assert(v@.take(v.len() as int) == v@);
    let ghost prev = views(out@);
    out.push(cur);
    assert(views(out@) =~= prev.push(views(out@).last()));
    out
}

// ---------------------------------------------------------------------------
// Searching and replacing
// ---------------------------------------------------------------------------

/// `pat` occurs in `s` starting at index `i`.
pub open spec fn matches_at(s: Seq<char>, i: int, pat: Seq<char>) -> bool {
    0 <= i && i + pat.len() <= s.len() && s.subrange(i, i + pat.len()) == pat
}

pub open spec fn contains(s: Seq<char>, pat: Seq<char>) -> bool {
    exists|i: int| matches_at(s, i, pat)
}

pub open spec fn starts_with(s: Seq<char>, pat: Seq<char>) -> bool {
    matches_at(s, 0, pat)
}

pub fn is_match_at(v: &[char], i: usize, pat: &[char]) -> (r: bool)
    ensures
        r == matches_at(v@, i as int, pat@),
{
    if i > v.len() || pat.len() > v.len() - i {
        return false;
    }
    let mut k: usize = 0;
    while k < pat.len()
        invariant
            i + pat.len() <= v.len(),
            k <= pat.len(),
            forall|m: int| 0 <= m < k ==> v@[i + m] == pat@[m],
        decreases pat.len() - k,
    {
        if v[i + k] != pat[k] {
            assert(v@.subrange(i as int, i + pat.len())[k as int] != pat@[k as int]);
            return false;
        }
        k += 1;
    }
    assert(v@.subrange(i as int, i + pat.len()) =~= pat@);
    true
}

pub fn contains_chars(v: &[char], pat: &[char]) -> (r: bool)
    ensures
        r == contains(v@, pat@),
{
    let mut i: usize = 0;
    while i < v.len()
        invariant
            i <= v.len(),
            forall|k: int| 0 <= k < i ==> !matches_at(v@, k, pat@),
        decreases v.len() - i,
    {
        if is_match_at(v, i, pat) {
            return true;
        }
        i += 1;
    }
    let last = is_match_at(v, v.len(), pat);
    assert(last || forall|k: int| !matches_at(v@, k, pat@));
    last
}

/// Non-overlapping left-to-right replacement (`str::replace`).
pub open spec fn replace(s: Seq<char>, pat: Seq<char>, rep: Seq<char>) -> Seq<char>
    decreases s.len(),
{
    if s.len() == 0 {
        seq![]
    } else if pat.len() > 0 && matches_at(s, 0, pat) {
        rep + replace(s.skip(pat.len() as int), pat, rep)
    } else {
        seq![s[0]] + replace(s.drop_first(), pat, rep)
    }
}

pub fn replace_chars(v: &[char], pat: &[char], rep: &[char]) -> (r: Vec<char>)
    requires
        pat@.len() > 0,
    ensures
        r@ == replace(v@, pat@, rep@),
{
    let mut out: Vec<char> = Vec::new();
    let mut i: usize = 0;
    assert(v@.skip(0) == v@);
    while i < v.len()
        invariant
            pat@.len() > 0,
            i <= v.len(),
            out@ + replace(v@.skip(i as int), pat@, rep@) == replace(v@, pat@, rep@),
        decreases v.len() - i,
    {
        let ghost rest = v@.skip(i as int);
        if is_match_at(v, i, pat) {
            assert(rest.subrange(0, pat@.len() as int) == v@.subrange(i as int, i + pat@.len()));
            assert(rest.skip(pat@.len() as int) == v@.skip(i + pat@.len()));
            extend_chars(&mut out, rep);
            assert(out@ + replace(v@.skip(i + pat@.len()), pat@, rep@) == replace(v@, pat@, rep@));
            i += pat.len();
        } else {
            assert(!matches_at(rest, 0, pat@)) by {
                if matches_at(rest, 0, pat@) {
                    assert(rest.subrange(0, pat@.len() as int) == v@.subrange(i as int, i + pat@.len()));
                }
            }
            assert(rest.drop_first() == v@.skip(i + 1));
            out.push(v[i]);
            assert(out@ + replace(v@.skip(i + 1), pat@, rep@) == replace(v@, pat@, rep@));
            i += 1;
        }
    }
    assert(v@.skip(v.len() as int) =~= Seq::<char>::empty());
    out
}

/// Index of the first occurrence of `pat` in `s`.
#[verifier::opaque]
pub open spec fn find(s: Seq<char>, pat: Seq<char>) -> Option<int> {
    if contains(s, pat) {
        Some(choose|i: int| matches_at(s, i, pat) && forall|j: int| 0 <= j < i ==> !matches_at(s, j, pat))
    } else {
        None
    }
}

pub proof fn lemma_find_unique(s: Seq<char>, pat: Seq<char>, i: int)
    requires
        matches_at(s, i, pat),
        forall|j: int| 0 <= j < i ==> !matches_at(s, j, pat),
    ensures
        find(s, pat) == Some(i),
{
    reveal(find);
    let k = choose|k: int| matches_at(s, k, pat) && forall|j: int| 0 <= j < k ==> !matches_at(s, j, pat);
    assert(k == i) by {
        if k < i {
            assert(!matches_at(s, k, pat));
        }
        if i < k {
            assert(!matches_at(s, i, pat));
        }
    }
}

/// `str::find` on character sequences.
pub fn find_chars(v: &[char], pat: &[char]) -> (r: Option<usize>)
    ensures
        match r {
            Some(i) => find(v@, pat@) == Some(i as int) && matches_at(v@, i as int, pat@),
            None => find(v@, pat@) is None,
        },
{
    let mut i: usize = 0;
    while i <= v.len()
        invariant
            i <= v.len(),
            forall|k: int| 0 <= k < i ==> !matches_at(v@, k, pat@),
        decreases v.len() + 1 - i,
    {
        if is_match_at(v, i, pat) {
            proof {
                lemma_find_unique(v@, pat@, i as int);
            }
            return Some(i);
        }
        if i == v.len() {
            assert(forall|k: int| #![trigger matches_at(v@, k, pat@)] !matches_at(v@, k, pat@));
            reveal(find);
            return None;
        }
        i += 1;
    }
    None
}

/// Character-wise equality of two string slices.
pub fn str_eq(a: &str, b: &str) -> (r: bool)
    ensures
        r == (a@ == b@),
{
    let x = chars_of(a);
    let y = chars_of(b);
    if x.len() != y.len() {
        return false;
    }
    let mut i: usize = 0;
    while i < x.len()
        invariant
            x@ == a@,
            y@ == b@,
            x.len() == y.len(),
            i <= x.len(),
            forall|k: int| 0 <= k < i ==> x@[k] == y@[k],
        decreases x.len() - i,
    {
        if x[i] != y[i] {
            assert(a@[i as int] != b@[i as int]);
            return false;
        }
        i += 1;
    }
    assert(x@ =~= y@);
    true
}

/// A one-character sequence.
pub fn single(c: char) -> (r: Vec<char>)
    ensures
        r@ == seq![c],
{
    let mut v: Vec<char> = Vec::new();
    v.push(c);
    v
}

/// A two-character sequence.
pub fn pair(a: char, b: char) -> (r: Vec<char>)
    ensures
        r@ == seq![a, b],
{
    let mut v: Vec<char> = Vec::new();
    v.push(a);
    v.push(b);
    v
}

/// Copies `v[lo..hi]`.
pub fn slice_chars(v: &[char], lo: usize, hi: usize) -> (r: Vec<char>)
    requires
        lo <= hi <= v.len(),
    ensures
        r@ == v@.subrange(lo as int, hi as int),
{
    let mut out: Vec<char> = Vec::new();
    let mut k: usize = lo;
    while k < hi
        invariant
            lo <= k <= hi <= v.len(),
            out@ == v@.subrange(lo as int, k as int),
        decreases hi - k,
    {
        out.push(v[k]);
        k += 1;
        assert(out@ == v@.subrange(lo as int, k as int));
    }
    out
}

/// Index of the first whitespace character, or the length when there is none.
pub open spec fn first_ws(s: Seq<char>) -> int
    decreases s.len(),
{
    if s.len() == 0 {
        0
    } else if is_ws(s[0]) {
        0
    } else {
        1 + first_ws(s.drop_first())
    }
}

/// `first_ws` is the index of the first whitespace character, or the length.
pub proof fn lemma_first_ws_exact(s: Seq<char>, i: int)
    requires
        0 <= i <= s.len(),
        forall|j: int| 0 <= j < i ==> !is_ws(#[trigger] s[j]),
        i < s.len() ==> is_ws(s[i]),
    ensures
        first_ws(s) == i,
    decreases s.len(),
{
    if i > 0 {
        assert(!is_ws(s[0]));
        assert forall|j: int| 0 <= j < i - 1 implies !is_ws(#[trigger] s.drop_first()[j]) by {
            assert(s.drop_first()[j] == s[j + 1]);
        }
        lemma_first_ws_exact(s.drop_first(), i - 1);
    }
}

pub fn first_ws_index(v: &[char]) -> (r: usize)
    ensures
        r == first_ws(v@),
        r <= v.len(),
{
    let mut i: usize = 0;
    while i < v.len() && !char_is_ws(v[i])
        invariant
            i <= v.len(),
            forall|j: int| 0 <= j < i ==> !is_ws(#[trigger] v@[j]),
        decreases v.len() - i,
    {
        i += 1;
    }
    proof {
        lemma_first_ws_exact(v@, i as int);
    }
    i
}

// ---------------------------------------------------------------------------
// Decimal numbers
// ---------------------------------------------------------------------------

pub open spec fn all_digits(s: Seq<char>) -> bool {
    forall|i: int| 0 <= i < s.len() ==> is_digit(#[trigger] s[i])
}

pub open spec fn digit_value(c: char) -> nat {
    ((c as u32) - ('0' as u32)) as nat
}

/// The number written by a string of decimal digits.
pub open spec fn digits_value(s: Seq<char>) -> nat
    decreases s.len(),
{
    if s.len() == 0 {
        0
    } else {
        digits_value(s.drop_last()) * 10 + digit_value(s.last())
    }
}

/// What `str::parse::<u32>` gives for a string of decimal digits.
pub open spec fn parse_u32_digits(s: Seq<char>) -> Option<u32> {
    if s.len() > 0 && digits_value(s) <= u32::MAX {
        Some(digits_value(s) as u32)
    } else {
        None
    }
}

pub proof fn lemma_digits_value_prefix(s: Seq<char>, i: int)
    requires
        0 <= i <= s.len(),
    ensures
        digits_value(s.take(i)) <= digits_value(s),
    decreases s.len(),
{
    if i < s.len() {
        assert(s.drop_last().take(i) == s.take(i));
        lemma_digits_value_prefix(s.drop_last(), i);
    } else {
        assert(s.take(i) == s);
    }
}

pub fn parse_digits(v: &[char]) -> (r: Option<u32>)
    requires
        all_digits(v@),
    ensures
        r == parse_u32_digits(v@),
{
    if v.len() == 0 {
        return None;
    }
    let mut acc: u32 = 0;
    let mut i: usize = 0;
    while i < v.len()
        invariant
            all_digits(v@),
            i <= v.len(),
            acc == digits_value(v@.take(i as int)),
        decreases v.len() - i,
    {
        assert(is_digit(v@[i as int]));
        let d = (v[i] as u32) - ('0' as u32);
        assert(v@.take(i + 1).drop_last() == v@.take(i as int));
        if acc > (u32::MAX - d) / 10 {
            proof {
                lemma_digits_value_prefix(v@, i + 1);
            }
            return None;
        }
        acc = acc * 10 + d;
        i += 1;
    }
    assert(v@.take(v.len() as int) == v@);
    Some(acc)
}

// ---------------------------------------------------------------------------
// Decimal numbers
// ---------------------------------------------------------------------------

pub open spec fn digit_char(d: int) -> char {
    if d == 0 {
        '0'
    } else if d == 1 {
        '1'
    } else if d == 2 {
        '2'
    } else if d == 3 {
        '3'
    } else if d == 4 {
        '4'
    } else if d == 5 {
        '5'
    } else if d == 6 {
        '6'
    } else if d == 7 {
        '7'
    } else if d == 8 {
        '8'
    } else {
        '9'
    }
}

/// The decimal digits of a natural number, most significant first, without
/// leading zeros (what `Display` prints for an unsigned integer).
pub open spec fn decimal_spec(n: nat) -> Seq<char>
    decreases n,
{
    if n < 10 {
        seq![digit_char(n as int)]
    } else {
        decimal_spec(n / 10).push(digit_char((n % 10) as int))
    }
}

/// `Display` of a signed integer: a minus sign before the digits of a
/// negative value.
pub open spec fn signed_decimal_spec(n: int) -> Seq<char> {
    if n < 0 {
        seq!['-'] + decimal_spec((-n) as nat)
    } else {
        decimal_spec(n as nat)
    }
}

fn digit_of(d: u64) -> (r: char)
    requires
        d < 10,
    ensures
        r == digit_char(d as int),
{
    if d == 0 {
        '0'
    } else if d == 1 {
        '1'
    } else if d == 2 {
        '2'
    } else if d == 3 {
        '3'
    } else if d == 4 {
        '4'
    } else if d == 5 {
        '5'
    } else if d == 6 {
        '6'
    } else if d == 7 {
        '7'
    } else if d == 8 {
        '8'
    } else {
        '9'
    }
}

/// The decimal digits of `n`.
pub fn decimal_chars(n: u64) -> (r: Vec<char>)
    ensures
        r@ == decimal_spec(n as nat),
    decreases n,
{
    if n < 10 {
        let mut v: Vec<char> = Vec::new();
        v.push(digit_of(n));
        assert(v@ =~= decimal_spec(n as nat));
        v
    } else {
        let mut v = decimal_chars(n / 10);
        v.push(digit_of(n % 10));
        v
    }
}

/// The decimal text of a signed integer.
pub fn signed_decimal_chars(n: i64) -> (r: Vec<char>)
    ensures
        r@ == signed_decimal_spec(n as int),
{
    if n < 0 {
        let magnitude: u64 = ((-(n + 1)) as u64) + 1;
        let digits = decimal_chars(magnitude);
        let mut out: Vec<char> = Vec::new();
        out.push('-');
        extend_chars(&mut out, &digits);
        assert(out@ =~= signed_decimal_spec(n as int));
        out
    } else {
        decimal_chars(n as u64)
    }
}

} // verus!
