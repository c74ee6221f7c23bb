//! The event log: one line per scanner event. The logger composes the
//! messages and queues them; writing them (with a timestamp) is left to the
//! caller that owns the file.
use vstd::prelude::*;

use crate::models::{category_label, DetectionCandidate};
use crate::text::{
    append_str, chars_of, decimal_chars, decimal_spec, extend_chars, lines, slice_chars, split_lines,
    string_of, views,
};

verus! {

// ---------------------------------------------------------------------------
// Log values
// ---------------------------------------------------------------------------

pub open spec fn log_safe_char(c: char) -> char {
    if c == '"' {
        '\''
    } else if c == '\r' || c == '\n' {
        ' '
    } else {
        c
    }
}

/// Double quotes become single quotes and line breaks become spaces, so a
/// value can stand inside a quoted field of one log line.
pub open spec fn sanitize_log_spec(s: Seq<char>) -> Seq<char> {
    s.map_values(|c: char| log_safe_char(c))
}

fn push_sanitized(out: &mut Vec<char>, s: &str)
    ensures
        final(out)@ == old(out)@ + sanitize_log_spec(s@),
{
    let v = chars_of(s);
    let mut i: usize = 0;
    while i < v.len()
        invariant
            i <= v.len(),
            out@ == old(out)@ + v@.take(i as int).map_values(|c: char| log_safe_char(c)),
        decreases v.len() - i,
    {
        let c = v[i];
        let safe = if c == '"' {
            '\''
        } else if c == '\r' || c == '\n' {
            ' '
        } else {
            c
        };
        out.push(safe);
        i += 1;
        assert(out@ =~= old(out)@ + v@.take(i as int).map_values(|c: char| log_safe_char(c)));
    }
    assert(v@.take(v.len() as int) == v@);
}

pub fn sanitize_log_value(value: &str) -> (r: String)
    ensures
        r@ == sanitize_log_spec(value@),
{
    let mut out: Vec<char> = Vec::new();
    push_sanitized(&mut out, value);
    assert(out@ =~= sanitize_log_spec(value@));
    string_of(&out)
}

/// The items joined with a separator.
pub open spec fn join_spec(items: Seq<Seq<char>>, sep: Seq<char>) -> Seq<char>
    decreases items.len(),
{
    if items.len() == 0 {
        seq![]
    } else if items.len() == 1 {
        items[0]
    } else {
        join_spec(items.drop_last(), sep) + sep + items.last()
    }
}

pub open spec fn strings_view(v: Seq<String>) -> Seq<Seq<char>> {
    v.map_values(|s: String| s@)
}

pub(crate) fn join_strings(items: &Vec<String>, sep: &str) -> (r: Vec<char>)
    ensures
        r@ == join_spec(strings_view(items@), sep@),
{
    let mut out: Vec<char> = Vec::new();
    let mut i: usize = 0;
    while i < items.len()
        invariant
            i <= items.len(),
            out@ == join_spec(strings_view(items@.take(i as int)), sep@),
        decreases items.len() - i,
    {
        let ghost prev = strings_view(items@.take(i as int));
        if i > 0 {
            append_str(&mut out, sep);
        }
        append_str(&mut out, items[i].as_str());
        assert(strings_view(items@.take(i + 1)) =~= prev.push(items@[i as int]@));
        assert(strings_view(items@.take(i + 1)).drop_last() =~= prev);
        i += 1;
    }
    assert(items@.take(items.len() as int) == items@);
    out
}

// ---------------------------------------------------------------------------
// Messages
// ---------------------------------------------------------------------------

pub open spec fn status_message(state: Seq<char>) -> Seq<char> {
    "event=SCANNER state="@ + state
}

pub open spec fn capture_message(backend: Seq<char>) -> Seq<char> {
    "event=CAPTURE backend=\""@ + sanitize_log_spec(backend) + "\""@
}

pub open spec fn or_na(o: Option<Seq<char>>) -> Seq<char> {
    match o {
        Some(t) => t,
        None => "n/a"@,
    }
}

pub open spec fn detection_message(
    d: DetectionCandidate,
    source: Seq<char>,
    confidence: Option<Seq<char>>,
) -> Seq<char> {
    "event=DETECTION source="@ + source + " target_id="@ + d.target_id@ + " name=\""@ + d.name@
        + "\" category="@ + category_label(d.category) + " rs="@ + decimal_spec(
        d.observed_signature as nat,
    ) + " base_rs="@ + decimal_spec(d.base_signature as nat) + " multiplier="@ + decimal_spec(
        d.multiplier as nat,
    ) + " confidence="@ + or_na(confidence)
}

/// What one enrichment log line reports, with numbers already formatted:
/// the analysis amount, prices and net value are decimal texts, and a
/// missing price, location, method or value is `None`.
#[derive(Debug, Clone)]
pub struct EnrichmentLogFields {
    pub name: String,
    pub scu: String,
    pub raw_price: Option<String>,
    pub refined_price: Option<String>,
    pub raw_location: Option<String>,
    pub refined_location: Option<String>,
    pub refinery: Option<String>,
    pub method: Option<String>,
    pub net: Option<String>,
    pub providers: Vec<String>,
}

pub open spec fn opt_view(o: Option<String>) -> Option<Seq<char>> {
    match o {
        Some(s) => Some(s@),
        None => None,
    }
}

pub open spec fn enrichment_message(f: EnrichmentLogFields) -> Seq<char> {
    "event=ENRICHMENT name=\""@ + f.name@ + "\" scu="@ + f.scu@ + " raw_price="@ + or_na(
        opt_view(f.raw_price),
    ) + " refined_price="@ + or_na(opt_view(f.refined_price)) + " raw_location=\""@
        + sanitize_log_spec(or_na(opt_view(f.raw_location))) + "\" refined_location=\""@
        + sanitize_log_spec(or_na(opt_view(f.refined_location))) + "\" refinery=\""@
        + sanitize_log_spec(or_na(opt_view(f.refinery))) + "\" method=\""@ + sanitize_log_spec(
        or_na(opt_view(f.method)),
    ) + "\" net="@ + or_na(opt_view(f.net)) + " providers=\""@ + sanitize_log_spec(
        join_spec(strings_view(f.providers@), "+"@),
    ) + "\""@
}

fn push_or_na(out: &mut Vec<char>, o: &Option<String>)
    ensures
        final(out)@ == old(out)@ + or_na(opt_view(*o)),
{
    match o {
        Some(t) => append_str(out, t.as_str()),
        None => append_str(out, "n/a"),
    }
}

fn push_sanitized_or_na(out: &mut Vec<char>, o: &Option<String>)
    ensures
        final(out)@ == old(out)@ + sanitize_log_spec(or_na(opt_view(*o))),
{
    match o {
        Some(t) => push_sanitized(out, t.as_str()),
        None => push_sanitized(out, "n/a"),
    }
}

fn detection_line(d: &DetectionCandidate, source: &str, confidence: Option<&str>) -> (r: String)
    ensures
        r@ == detection_message(
            *d,
            source@,
            match confidence {
                Some(c) => Some(c@),
                None => None,
            },
        ),
{
    let mut out: Vec<char> = Vec::new();
    append_str(&mut out, "event=DETECTION source=");
    append_str(&mut out, source);
    append_str(&mut out, " target_id=");
    append_str(&mut out, d.target_id.as_str());
    append_str(&mut out, " name=\"");
    append_str(&mut out, d.name.as_str());
    append_str(&mut out, "\" category=");
    append_str(&mut out, d.category.label());
    append_str(&mut out, " rs=");
    let rs = decimal_chars(d.observed_signature as u64);
    extend_chars(&mut out, &rs);
    append_str(&mut out, " base_rs=");
    let base = decimal_chars(d.base_signature as u64);
    extend_chars(&mut out, &base);
    append_str(&mut out, " multiplier=");
    let m = decimal_chars(d.multiplier as u64);
    extend_chars(&mut out, &m);
    append_str(&mut out, " confidence=");
    match confidence {
        Some(c) => append_str(&mut out, c),
        None => append_str(&mut out, "n/a"),
    }
    string_of(&out)
}

fn enrichment_line(f: &EnrichmentLogFields) -> (r: String)
    ensures
        r@ == enrichment_message(*f),
{
    let mut out: Vec<char> = Vec::new();
    append_str(&mut out, "event=ENRICHMENT name=\"");
    append_str(&mut out, f.name.as_str());
    append_str(&mut out, "\" scu=");
    append_str(&mut out, f.scu.as_str());
    append_str(&mut out, " raw_price=");
    push_or_na(&mut out, &f.raw_price);
    append_str(&mut out, " refined_price=");
    push_or_na(&mut out, &f.refined_price);
    append_str(&mut out, " raw_location=\"");
    push_sanitized_or_na(&mut out, &f.raw_location);
    append_str(&mut out, "\" refined_location=\"");
    push_sanitized_or_na(&mut out, &f.refined_location);
    append_str(&mut out, "\" refinery=\"");
    push_sanitized_or_na(&mut out, &f.refinery);
    append_str(&mut out, "\" method=\"");
    push_sanitized_or_na(&mut out, &f.method);
    append_str(&mut out, "\" net=");
    push_or_na(&mut out, &f.net);
    append_str(&mut out, " providers=\"");
    let joined = join_strings(&f.providers, "+");
    let joined_text = string_of(&joined);
    push_sanitized(&mut out, joined_text.as_str());
    append_str(&mut out, "\"");
    string_of(&out)
}

// ---------------------------------------------------------------------------
// The logger
// ---------------------------------------------------------------------------

/// The event log of one session: the log file's path and the messages that
/// were logged and not yet written out.
#[derive(Debug, Clone)]
pub struct EventLogger {
    path: String,
    pending: Vec<String>,
}

impl EventLogger {
    /// The path of the log file.
    pub closed spec fn path_view(&self) -> Seq<char> {
        self.path@
    }

    /// The messages logged and not yet taken, oldest first.
    pub closed spec fn pending_view(&self) -> Seq<Seq<char>> {
        strings_view(self.pending@)
    }

    /// A logger for the log file at `path`, with nothing pending.
    pub fn new(path: String) -> (r: Self)
        ensures
            r.path_view() == path@,
            r.pending_view() == Seq::<Seq<char>>::empty(),
    {
        let r = EventLogger { path, pending: Vec::new() };
        assert(r.pending_view() =~= Seq::<Seq<char>>::empty());
        r
    }

    pub fn path(&self) -> (r: &String)
        ensures
            r@ == self.path_view(),
    {
        &self.path
    }

    fn push_message(&mut self, message: String)
        ensures
            final(self).path_view() == old(self).path_view(),
            final(self).pending_view() == old(self).pending_view().push(message@),
    {
        self.pending.push(message);
        assert(strings_view(self.pending@) =~= strings_view(old(self).pending@).push(message@));
    }

    /// Logs a scanner state change.
    pub fn log_status(&mut self, state: &str)
        ensures
            final(self).path_view() == old(self).path_view(),
            final(self).pending_view() == old(self).pending_view().push(status_message(state@)),
    {
        let mut out: Vec<char> = Vec::new();
        append_str(&mut out, "event=SCANNER state=");
        append_str(&mut out, state);
        let line = string_of(&out);
        self.push_message(line);
    }

    /// Logs the capture backend in use.
    pub fn log_capture_backend(&mut self, backend: &str)
        ensures
            final(self).path_view() == old(self).path_view(),
            final(self).pending_view() == old(self).pending_view().push(capture_message(backend@)),
    {
        let mut out: Vec<char> = Vec::new();
        append_str(&mut out, "event=CAPTURE backend=\"");
        push_sanitized(&mut out, backend);
        append_str(&mut out, "\"");
        let line = string_of(&out);
        self.push_message(line);
    }

    /// Logs a detection; `confidence` is the formatted OCR confidence, if any.
    pub fn log_detection(
        &mut self,
        detection: &DetectionCandidate,
        source: &str,
        confidence: Option<&str>,
    )
        ensures
            final(self).path_view() == old(self).path_view(),
            final(self).pending_view() == old(self).pending_view().push(
                detection_message(
                    *detection,
                    source@,
                    match confidence {
                        Some(c) => Some(c@),
                        None => None,
                    },
                ),
            ),
    {
        let line = detection_line(detection, source, confidence);
        self.push_message(line);
    }

    /// Logs the result of an enrichment.
    pub fn log_enrichment(&mut self, fields: &EnrichmentLogFields)
        ensures
            final(self).path_view() == old(self).path_view(),
            final(self).pending_view() == old(self).pending_view().push(
                enrichment_message(*fields),
            ),
    {
        let line = enrichment_line(fields);
        self.push_message(line);
    }

    /// Hands out the pending messages, oldest first, and forgets them.
    pub fn take_pending(&mut self) -> (r: Vec<String>)
        ensures
            strings_view(r@) == old(self).pending_view(),
            final(self).pending_view() == Seq::<Seq<char>>::empty(),
            final(self).path_view() == old(self).path_view(),
    {
        let mut taken: Vec<String> = Vec::new();
        std::mem::swap(&mut taken, &mut self.pending);
        assert(strings_view(self.pending@) =~= Seq::<Seq<char>>::empty());
        taken
    }
}

// ---------------------------------------------------------------------------
// Reading the log back
// ---------------------------------------------------------------------------

pub open spec fn strip_cr(line: Seq<char>) -> Seq<char> {
    if line.len() > 0 && line.last() == '\r' {
        line.drop_last()
    } else {
        line
    }
}

/// The lines of a text as `str::lines` yields them: split at `\n`, a `\r`
/// before the `\n` removed, and no empty last line after a final line break.
pub open spec fn text_lines(s: Seq<char>) -> Seq<Seq<char>> {
    let segs = lines(s);
    let body = segs.drop_last().map_values(|l: Seq<char>| strip_cr(l));
    if segs.last().len() == 0 {
        body
    } else {
        body.push(segs.last())
    }
}

/// The last `max` lines (all of them when there are fewer).
pub open spec fn tail_lines(ls: Seq<Seq<char>>, max: nat) -> Seq<Seq<char>> {
    let start = if ls.len() > max { ls.len() - max } else { 0 };
    ls.subrange(start as int, ls.len() as int)
}

fn strip_cr_chars(v: &Vec<char>) -> (r: Vec<char>)
    ensures
        r@ == strip_cr(v@),
{
    let n = v.len();
    if n > 0 && v[n - 1] == '\r' {
        let r = slice_chars(v.as_slice(), 0, n - 1);
        assert(r@ =~= strip_cr(v@));
        r
    } else {
        let r = slice_chars(v.as_slice(), 0, n);
        assert(r@ =~= strip_cr(v@));
        r
    }
}

/// The last `max_lines` lines of the log text.
pub fn recent_lines(content: &str, max_lines: usize) -> (r: Vec<String>)
    ensures
        strings_view(r@) == tail_lines(text_lines(content@), max_lines as nat),
{
    let chars = chars_of(content);
    let segs = split_lines(&chars);
    let ghost ss = views(segs@);
    assert(ss.len() >= 1);
    let n = segs.len() - 1;
    let mut all: Vec<Vec<char>> = Vec::new();
    let mut i: usize = 0;
    while i < n
        invariant
            n + 1 == segs.len(),
            ss == views(segs@),
            i <= n,
            views(all@) == ss.take(i as int).map_values(|l: Seq<char>| strip_cr(l)),
        decreases n - i,
    {
        let stripped = strip_cr_chars(&segs[i]);
        let ghost before = views(all@);
        assert(ss[i as int] == segs@[i as int]@);
        all.push(stripped);
        assert(views(all@) =~= before.push(strip_cr(ss[i as int])));
        assert(views(all@) =~= ss.take(i + 1).map_values(|l: Seq<char>| strip_cr(l)));
        i += 1;
    }
    assert(ss.take(n as int) == ss.drop_last());
    if segs[n].len() > 0 {
        let last = slice_chars(segs[n].as_slice(), 0, segs[n].len());
        assert(last@ =~= ss[n as int]);
        all.push(last);
    }
    assert(views(all@) =~= text_lines(chars@));
    let total = all.len();
    let start = if total > max_lines { total - max_lines } else { 0 };
    let mut out: Vec<String> = Vec::new();
    let mut k: usize = start;
    while k < total
        invariant
            start <= k <= total,
            total == all.len(),
            strings_view(out@) == views(all@).subrange(start as int, k as int),
        decreases total - k,
    {
        let line = string_of(&all[k]);
        let ghost before = strings_view(out@);
        assert(views(all@)[k as int] == all@[k as int]@);
        out.push(line);
        assert(strings_view(out@) =~= before.push(views(all@)[k as int]));
        assert(strings_view(out@) =~= views(all@).subrange(start as int, k + 1));
        k += 1;
    }
    out
}

// ---------------------------------------------------------------------------
// Laws
// ---------------------------------------------------------------------------

/// A sanitised value keeps its length and holds no double quote and no line
/// break, so it stays inside its quoted field on one log line.
pub proof fn law_sanitized_values_stay_on_one_line(s: Seq<char>)
    ensures
        sanitize_log_spec(s).len() == s.len(),
        forall|i: int|
            0 <= i < s.len() ==> {
                let c = #[trigger] sanitize_log_spec(s)[i];
                c != '"' && c != '\r' && c != '\n'
            },
{
}

} // verus!
