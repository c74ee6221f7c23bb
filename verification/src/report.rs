//! Building blocks of the HTML session report: file names, HTML escaping,
//! inline images as data URIs and the location cards.
use base64::engine::general_purpose::STANDARD;
use base64::Engine;
use vstd::prelude::*;

use crate::event_log::{join_spec, join_strings, strings_view};
use crate::text::{
    append_str, char_is_ascii_alnum, chars_of, decimal_chars, decimal_spec, signed_decimal_chars, signed_decimal_spec, eq_ignore_ascii_case, extend_chars, is_ascii_alnum, lower, string_of,
    trim, trim_chars, contains, matches_at,
};

verus! {

// ---------------------------------------------------------------------------
// Report data
// ---------------------------------------------------------------------------

/// Descriptive media found for a mineral (text extract and an optional image).
#[derive(Debug, Clone, Default)]
pub struct MediaInfo {
    pub source: String,
    pub page_url: Option<String>,
    pub image_url: Option<String>,
    pub image_bytes: Option<Vec<u8>>,
    pub extract: Option<String>,
}

/// A sale or refining location with its optional description and picture.
#[derive(Debug, Clone, Default)]
pub struct LocationInfo {
    pub name: String,
    pub system: String,
    pub description: Option<String>,
    pub page_url: Option<String>,
    pub image_url: Option<String>,
    pub image_bytes: Option<Vec<u8>>,
    pub source: Option<String>,
}

// ---------------------------------------------------------------------------
// Locations from provider media
// ---------------------------------------------------------------------------

/// The location details for a name: none for a blank name; the trimmed
/// name and the system, with the description, links, picture and source of
/// the media found for it, if any.
pub open spec fn location_from_media_spec(
    name: Seq<char>,
    system: Seq<char>,
    media: Option<MediaInfo>,
    r: Option<LocationInfo>,
) -> bool {
    let n = trim(name, false);
    if n.len() == 0 {
        r is None
    } else {
        &&& r is Some
        &&& r->0.name@ == n
        &&& r->0.system@ == system
        &&& match media {
            Some(m) => {
                &&& r->0.description == m.extract
                &&& r->0.page_url == m.page_url
                &&& r->0.image_url == m.image_url
                &&& r->0.image_bytes == m.image_bytes
                &&& r->0.source == Some(m.source)
            },
            None => {
                &&& r->0.description is None
                &&& r->0.page_url is None
                &&& r->0.image_url is None
                &&& r->0.image_bytes is None
                &&& r->0.source is None
            },
        }
    }
}

pub fn location_from_media(name: &str, system: &str, media: Option<MediaInfo>) -> (r: Option<
    LocationInfo,
>)
    ensures
        location_from_media_spec(name@, system@, media, r),
{
    let trimmed = trim_chars(&chars_of(name), false);
    if trimmed.len() == 0 {
        return None;
    }
    let name_text = string_of(&trimmed);
    let system_text = string_of(&chars_of(system));
    match media {
        Some(m) => Some(
            LocationInfo {
                name: name_text,
                system: system_text,
                description: m.extract,
                page_url: m.page_url,
                image_url: m.image_url,
                image_bytes: m.image_bytes,
                source: Some(m.source),
            },
        ),
        None => Some(
            LocationInfo {
                name: name_text,
                system: system_text,
                description: None,
                page_url: None,
                image_url: None,
                image_bytes: None,
                source: None,
            },
        ),
    }
}

// ---------------------------------------------------------------------------
// File names
// ---------------------------------------------------------------------------

pub open spec fn filename_char(c: char) -> char {
    if is_ascii_alnum(c) || c == '-' || c == '_' {
        c
    } else {
        '_'
    }
}

/// Every character that is not an ASCII letter, digit, `-` or `_` becomes `_`;
/// an empty name becomes `Mineral`.
pub open spec fn sanitize_filename_spec(s: Seq<char>) -> Seq<char> {
    if s.len() == 0 {
        "Mineral"@
    } else {
        s.map_values(|c: char| filename_char(c))
    }
}

pub fn sanitize_filename(value: &str) -> (r: String)
    ensures
        r@ == sanitize_filename_spec(value@),
{
    let v = chars_of(value);
    if v.len() == 0 {
        return string_of(&chars_of("Mineral"));
    }
    let mut out: Vec<char> = Vec::new();
    let mut i: usize = 0;
    while i < v.len()
        invariant
            i <= v.len(),
            out@ == v@.take(i as int).map_values(|c: char| filename_char(c)),
        decreases v.len() - i,
    {
        let c = v[i];
        let safe = if char_is_ascii_alnum(c) || c == '-' || c == '_' {
            c
        } else {
            '_'
        };
        out.push(safe);
        i += 1;
        assert(out@ =~= v@.take(i as int).map_values(|c: char| filename_char(c)));
    }
    assert(v@.take(v.len() as int) == v@);
    string_of(&out)
}

// ---------------------------------------------------------------------------
// HTML escaping
// ---------------------------------------------------------------------------

pub open spec fn escape_char(c: char) -> Seq<char> {
    if c == '&' {
        "&amp;"@
    } else if c == '<' {
        "&lt;"@
    } else if c == '>' {
        "&gt;"@
    } else if c == '"' {
        "&quot;"@
    } else {
        seq![c]
    }
}

/// `&`, `<`, `>` and `"` replaced by their HTML entities, everything else kept.
pub open spec fn escape_html(s: Seq<char>) -> Seq<char>
    decreases s.len(),
{
    if s.len() == 0 {
        seq![]
    } else {
        escape_html(s.drop_last()) + escape_char(s.last())
    }
}

fn push_escaped(out: &mut Vec<char>, v: &[char])
    ensures
        final(out)@ == old(out)@ + escape_html(v@),
{
    let mut i: usize = 0;
    while i < v.len()
        invariant
            i <= v.len(),
            out@ == old(out)@ + escape_html(v@.take(i as int)),
        decreases v.len() - i,
    {
        let c = v[i];
        let ghost before = out@;
        if c == '&' {
            append_str(out, "&amp;");
        } else if c == '<' {
            append_str(out, "&lt;");
        } else if c == '>' {
            append_str(out, "&gt;");
        } else if c == '"' {
            append_str(out, "&quot;");
        } else {
            out.push(c);
            assert(out@ =~= before + seq![c]);
        }
        assert(v@.take(i + 1).drop_last() == v@.take(i as int));
        i += 1;
        assert(out@ =~= old(out)@ + escape_html(v@.take(i as int)));
    }
    assert(v@.take(v.len() as int) == v@);
}

fn push_escaped_str(out: &mut Vec<char>, s: &str)
    ensures
        final(out)@ == old(out)@ + escape_html(s@),
{
    let v = chars_of(s);
    push_escaped(out, &v);
}

/// Escapes text for HTML element content.
pub fn esc(value: &str) -> (r: String)
    ensures
        r@ == escape_html(value@),
{
    let mut out: Vec<char> = Vec::new();
    push_escaped_str(&mut out, value);
    assert(out@ =~= escape_html(value@));
    string_of(&out)
}

/// Escapes text for a double-quoted HTML attribute value.
pub fn esc_attr(value: &str) -> (r: String)
    ensures
        r@ == escape_html(value@),
{
    esc(value)
}

// ---------------------------------------------------------------------------
// Inline images
// ---------------------------------------------------------------------------

/// The image formats the report distinguishes when embedding a picture.
#[derive(Debug, Clone, Copy, PartialEq, Eq, Structural)]
pub enum ImageKind {
    Png,
    Jpeg,
    WebP,
    Gif,
    Other,
}

pub open spec fn starts_with_bytes(bytes: Seq<u8>, sig: Seq<u8>) -> bool {
    bytes.len() >= sig.len() && bytes.take(sig.len() as int) == sig
}

pub open spec fn png_signature() -> Seq<u8> {
    seq![0x89u8, 0x50u8, 0x4eu8, 0x47u8, 0x0du8, 0x0au8, 0x1au8, 0x0au8]
}

pub open spec fn jpeg_signature() -> Seq<u8> {
    seq![0xffu8, 0xd8u8, 0xffu8]
}

/// `GIF89a`, or with `older` `GIF87a`.
pub open spec fn gif_signature(older: bool) -> Seq<u8> {
    seq![0x47u8, 0x49u8, 0x46u8, 0x38u8, if older { 0x37u8 } else { 0x39u8 }, 0x61u8]
}

/// `RIFF`, any four bytes, then `WEBP`.
pub open spec fn is_webp(bytes: Seq<u8>) -> bool {
    &&& bytes.len() >= 12
    &&& bytes[0] == 0x52u8 && bytes[1] == 0x49u8 && bytes[2] == 0x46u8 && bytes[3] == 0x46u8
    &&& bytes[8] == 0x57u8 && bytes[9] == 0x45u8 && bytes[10] == 0x42u8 && bytes[11] == 0x50u8
}

/// The image kind by the leading magic bytes, the first match winning: the
/// PNG, JPEG, GIF and WebP signatures are the first entries of the
/// `image` crate's table, and every later entry is a kind this report does
/// not distinguish.
pub open spec fn image_kind_spec(bytes: Seq<u8>) -> ImageKind {
    if starts_with_bytes(bytes, png_signature()) {
        ImageKind::Png
    } else if starts_with_bytes(bytes, jpeg_signature()) {
        ImageKind::Jpeg
    } else if starts_with_bytes(bytes, gif_signature(false)) || starts_with_bytes(
        bytes,
        gif_signature(true),
    ) {
        ImageKind::Gif
    } else if is_webp(bytes) {
        ImageKind::WebP
    } else {
        ImageKind::Other
    }
}

/// `image::guess_format`. Trusted: the crate tries its magic-byte table in
/// order and returns the first match; its first five entries are PNG, JPEG,
/// GIF (89a, 87a) and WebP (`RIFF`, four bytes of any value, `WEBP`), and
/// every other entry names a format that is reported here as `Other`, as
/// are bytes that match no entry.
#[verifier::external_body]
fn guess_image_kind(bytes: &[u8]) -> (r: ImageKind)
    ensures
        r == image_kind_spec(bytes@),
{
    match image::guess_format(bytes) {
        Ok(image::ImageFormat::Png) => ImageKind::Png,
        Ok(image::ImageFormat::Jpeg) => ImageKind::Jpeg,
        Ok(image::ImageFormat::WebP) => ImageKind::WebP,
        Ok(image::ImageFormat::Gif) => ImageKind::Gif,
        _ => ImageKind::Other,
    }
}

pub open spec fn mime_type(kind: ImageKind) -> Seq<char> {
    match kind {
        ImageKind::Png => "image/png"@,
        ImageKind::Jpeg => "image/jpeg"@,
        ImageKind::WebP => "image/webp"@,
        ImageKind::Gif => "image/gif"@,
        ImageKind::Other => "application/octet-stream"@,
    }
}

/// The character of a 6-bit value in the standard base64 alphabet.
pub open spec fn base64_digit(v: int) -> char {
    if v < 26 {
        ((v + 65) as u32) as char
    } else if v < 52 {
        ((v - 26 + 97) as u32) as char
    } else if v < 62 {
        ((v - 52 + 48) as u32) as char
    } else if v == 62 {
        '+'
    } else {
        '/'
    }
}

/// Standard base64 (RFC 4648 alphabet) with `=` padding.
pub open spec fn base64_spec(b: Seq<u8>) -> Seq<char>
    decreases b.len(),
{
    if b.len() == 0 {
        seq![]
    } else {
        let x0 = b[0] as int;
        let x1 = if b.len() > 1 { b[1] as int } else { 0 };
        let x2 = if b.len() > 2 { b[2] as int } else { 0 };
        if b.len() == 1 {
            seq![base64_digit(x0 / 4), base64_digit((x0 % 4) * 16), '=', '=']
        } else if b.len() == 2 {
            seq![
                base64_digit(x0 / 4),
                base64_digit((x0 % 4) * 16 + x1 / 16),
                base64_digit((x1 % 16) * 4),
                '=',
            ]
        } else {
            seq![
                base64_digit(x0 / 4),
                base64_digit((x0 % 4) * 16 + x1 / 16),
                base64_digit((x1 % 16) * 4 + x2 / 64),
                base64_digit(x2 % 64),
            ] + base64_spec(b.subrange(3, b.len() as int))
        }
    }
}

/// The encoded length fits in `usize` (the encoder panics otherwise).
pub open spec fn base64_fits(n: nat) -> bool {
    (n + 2) / 3 * 4 <= usize::MAX
}

/// `base64::engine::general_purpose::STANDARD.encode`. Trusted: the crate
/// documents the standard alphabet with padding, which `base64_spec` states;
/// it panics only when the encoded length overflows `usize`.
#[verifier::external_body]
fn base64_standard(bytes: &[u8]) -> (r: String)
    requires
        base64_fits(bytes@.len()),
    ensures
        r@ == base64_spec(bytes@),
{
    STANDARD.encode(bytes)
}

pub open spec fn data_uri_spec(bytes: Seq<u8>) -> Seq<char> {
    "data:"@ + mime_type(image_kind_spec(bytes)) + ";base64,"@ + base64_spec(bytes)
}

fn push_mime(out: &mut Vec<char>, kind: ImageKind)
    ensures
        final(out)@ == old(out)@ + mime_type(kind),
{
    match kind {
        ImageKind::Png => append_str(out, "image/png"),
        ImageKind::Jpeg => append_str(out, "image/jpeg"),
        ImageKind::WebP => append_str(out, "image/webp"),
        ImageKind::Gif => append_str(out, "image/gif"),
        ImageKind::Other => append_str(out, "application/octet-stream"),
    }
}

/// An image embedded as a `data:` URI with its guessed MIME type.
pub fn data_uri(bytes: &[u8]) -> (r: String)
    requires
        base64_fits(bytes@.len()),
    ensures
        r@ == data_uri_spec(bytes@),
{
    let mut out: Vec<char> = Vec::new();
    append_str(&mut out, "data:");
    let kind = guess_image_kind(bytes);
    push_mime(&mut out, kind);
    append_str(&mut out, ";base64,");
    let encoded = base64_standard(bytes);
    append_str(&mut out, encoded.as_str());
    assert(out@ =~= data_uri_spec(bytes@));
    string_of(&out)
}

pub open spec fn image_fits(image: Option<Vec<u8>>) -> bool {
    match image {
        Some(b) => base64_fits(b@.len()),
        None => true,
    }
}

/// The data URI of the media picture, when there is one.
pub fn media_data_uri(media: &MediaInfo) -> (r: Option<String>)
    requires
        image_fits(media.image_bytes),
    ensures
        match media.image_bytes {
            Some(b) => r is Some && r->0@ == data_uri_spec(b@),
            None => r is None,
        },
{
    match &media.image_bytes {
        Some(bytes) => Some(data_uri(bytes.as_slice())),
        None => None,
    }
}

// ---------------------------------------------------------------------------
// Location cards
// ---------------------------------------------------------------------------

pub open spec fn opt_text(o: Option<String>) -> Option<Seq<char>> {
    match o {
        Some(s) => Some(s@),
        None => None,
    }
}

/// The name shown on a card: the detail's name, else the fallback, trimmed.
pub open spec fn card_name(detail: Option<LocationInfo>, fallback: Option<Seq<char>>) -> Seq<char> {
    let raw = match detail {
        Some(d) => d.name@,
        None => match fallback {
            Some(f) => f,
            None => seq![],
        },
    };
    trim(raw, false)
}

/// A card is shown unless the name is empty, `unknown` (any case) or `--`.
pub open spec fn card_shown(name: Seq<char>) -> bool {
    name.len() != 0 && lower(name) != lower("unknown"@) && name != "--"@
}

pub open spec fn card_system(detail: Option<LocationInfo>, fallback: Option<Seq<char>>) -> Seq<char> {
    match detail {
        Some(d) => d.system@,
        None => match fallback {
            Some(f) => f,
            None => seq![],
        },
    }
}

pub open spec fn card_description(detail: Option<LocationInfo>) -> Seq<char> {
    match detail {
        Some(d) => match d.description {
            Some(t) => t@,
            None => "No enriched location description available."@,
        },
        None => "No enriched location description available."@,
    }
}

pub open spec fn card_image(detail: Option<LocationInfo>, name: Seq<char>) -> Seq<char> {
    match detail {
        Some(d) => match d.image_bytes {
            Some(b) => "<img class=\"locimg\" src=\""@ + data_uri_spec(b@) + "\" alt=\""@
                + escape_html(name) + "\">"@,
            None => seq![],
        },
        None => seq![],
    }
}

pub open spec fn card_link(detail: Option<LocationInfo>) -> Seq<char> {
    match detail {
        Some(d) => match d.page_url {
            Some(u) => "<a href=\""@ + escape_html(u@) + "\">Source page</a>"@,
            None => match d.image_url {
                Some(u) => "<a href=\""@ + escape_html(u@) + "\">Source page</a>"@,
                None => seq![],
            },
        },
        None => seq![],
    }
}

pub open spec fn card_source(detail: Option<LocationInfo>) -> Seq<char> {
    match detail {
        Some(d) => match d.source {
            Some(v) => "Source: "@ + escape_html(v@),
            None => seq![],
        },
        None => seq![],
    }
}

/// The HTML card of one location, or nothing when no usable name is known.
pub open spec fn location_card_spec(
    title: Seq<char>,
    detail: Option<LocationInfo>,
    fallback_name: Option<Seq<char>>,
    fallback_system: Option<Seq<char>>,
) -> Seq<char> {
    let name = card_name(detail, fallback_name);
    if !card_shown(name) {
        seq![]
    } else {
        "<div class=\"card loc\"><h3>"@ + escape_html(title) + "</h3>"@ + card_image(detail, name)
            + "<strong>"@ + escape_html(name) + "</strong><div class=\"muted\">"@ + escape_html(
            card_system(detail, fallback_system),
        ) + "</div><p>"@ + escape_html(card_description(detail)) + "</p><div class=\"source\">"@
            + card_source(detail) + " "@ + card_link(detail) + "</div></div>"@
    }
}

pub open spec fn detail_fits(detail: Option<&LocationInfo>) -> bool {
    match detail {
        Some(d) => image_fits(d.image_bytes),
        None => true,
    }
}

pub open spec fn detail_view(detail: Option<&LocationInfo>) -> Option<LocationInfo> {
    match detail {
        Some(d) => Some(*d),
        None => None,
    }
}

pub open spec fn str_opt(o: Option<&str>) -> Option<Seq<char>> {
    match o {
        Some(s) => Some(s@),
        None => None,
    }
}

fn card_image_chars(detail: Option<&LocationInfo>, name: &[char]) -> (r: Vec<char>)
    requires
        detail_fits(detail),
    ensures
        r@ == card_image(detail_view(detail), name@),
{
    let mut out: Vec<char> = Vec::new();
    match detail {
        Some(d) => match &d.image_bytes {
            Some(bytes) => {
                append_str(&mut out, "<img class=\"locimg\" src=\"");
                let uri = data_uri(bytes.as_slice());
                append_str(&mut out, uri.as_str());
                append_str(&mut out, "\" alt=\"");
                push_escaped(&mut out, name);
                append_str(&mut out, "\">");
                assert(out@ =~= card_image(detail_view(detail), name@));
            },
            None => {},
        },
        None => {},
    }
    out
}

fn card_system_chars(detail: Option<&LocationInfo>, fallback: Option<&str>) -> (r: Vec<char>)
    ensures
        r@ == escape_html(card_system(detail_view(detail), str_opt(fallback))),
{
    let mut out: Vec<char> = Vec::new();
    match detail {
        Some(d) => push_escaped_str(&mut out, d.system.as_str()),
        None => match fallback {
            Some(f) => push_escaped_str(&mut out, f),
            None => {},
        },
    }
    assert(out@ =~= escape_html(card_system(detail_view(detail), str_opt(fallback))));
    out
}

fn card_description_chars(detail: Option<&LocationInfo>) -> (r: Vec<char>)
    ensures
        r@ == escape_html(card_description(detail_view(detail))),
{
    let mut out: Vec<char> = Vec::new();
    match detail {
        Some(d) => match &d.description {
            Some(t) => push_escaped_str(&mut out, t.as_str()),
            None => push_escaped_str(&mut out, "No enriched location description available."),
        },
        None => push_escaped_str(&mut out, "No enriched location description available."),
    }
    assert(out@ =~= escape_html(card_description(detail_view(detail))));
    out
}

fn card_source_chars(detail: Option<&LocationInfo>) -> (r: Vec<char>)
    ensures
        r@ == card_source(detail_view(detail)),
{
    let mut out: Vec<char> = Vec::new();
    match detail {
        Some(d) => match &d.source {
            Some(v) => {
                append_str(&mut out, "Source: ");
                push_escaped_str(&mut out, v.as_str());
                assert(out@ =~= card_source(detail_view(detail)));
            },
            None => {},
        },
        None => {},
    }
    out
}

fn card_link_chars(detail: Option<&LocationInfo>) -> (r: Vec<char>)
    ensures
        r@ == card_link(detail_view(detail)),
{
    let mut out: Vec<char> = Vec::new();
    match detail {
        Some(d) => {
            let url = match &d.page_url {
                Some(u) => Some(u),
                None => match &d.image_url {
                    Some(u) => Some(u),
                    None => None,
                },
            };
            match url {
                Some(u) => {
                    append_str(&mut out, "<a href=\"");
                    push_escaped_str(&mut out, u.as_str());
                    append_str(&mut out, "\">Source page</a>");
                    assert(out@ =~= card_link(detail_view(detail)));
                },
                None => {},
            }
        },
        None => {},
    }
    out
}

fn card_name_chars(detail: Option<&LocationInfo>, fallback: Option<&str>) -> (r: Vec<char>)
    ensures
        r@ == card_name(detail_view(detail), str_opt(fallback)),
{
    let raw_name: Vec<char> = match detail {
        Some(d) => chars_of(d.name.as_str()),
        None => match fallback {
            Some(f) => chars_of(f),
            None => Vec::new(),
        },
    };
    trim_chars(&raw_name, false)
}

/// A location card for the report; empty when no usable name is known.
pub fn location_card(
    title: &str,
    detail: Option<&LocationInfo>,
    fallback_name: Option<&str>,
    fallback_system: Option<&str>,
) -> (r: String)
    requires
        detail_fits(detail),
    ensures
        r@ == location_card_spec(
            title@,
            detail_view(detail),
            str_opt(fallback_name),
            str_opt(fallback_system),
        ),
{
    let name = card_name_chars(detail, fallback_name);
    let unknown = chars_of("unknown");
    let is_dashes = name.len() == 2 && name[0] == '-' && name[1] == '-';
    proof {
        reveal_strlit("--");
        if name@ == "--"@ {
            assert(name@[0] == '-' && name@[1] == '-');
        }
        if is_dashes {
            assert(name@ =~= "--"@);
        }
    }
    if name.len() == 0 || eq_ignore_ascii_case(&name, &unknown) || is_dashes {
        return String::new();
    }
    let mut out: Vec<char> = Vec::new();
    append_str(&mut out, "<div class=\"card loc\"><h3>");
    push_escaped_str(&mut out, title);
    append_str(&mut out, "</h3>");
    let image = card_image_chars(detail, &name);
    extend_chars(&mut out, &image);
    append_str(&mut out, "<strong>");
    push_escaped(&mut out, &name);
    append_str(&mut out, "</strong><div class=\"muted\">");
    let system = card_system_chars(detail, fallback_system);
    extend_chars(&mut out, &system);
    append_str(&mut out, "</div><p>");
    let description = card_description_chars(detail);
    extend_chars(&mut out, &description);
    append_str(&mut out, "</p><div class=\"source\">");
    let source = card_source_chars(detail);
    extend_chars(&mut out, &source);
    append_str(&mut out, " ");
    let link = card_link_chars(detail);
    extend_chars(&mut out, &link);
    append_str(&mut out, "</div></div>");
    string_of(&out)
}

// ---------------------------------------------------------------------------
// Durations and file names
// ---------------------------------------------------------------------------

/// Whole minutes as `"<h> h <m> min"`, or `"<m> min"` under an hour.
pub open spec fn minutes_label_spec(total: nat) -> Seq<char> {
    if total >= 60 {
        decimal_spec(total / 60) + " h "@ + decimal_spec(total % 60) + " min"@
    } else {
        decimal_spec(total) + " min"@
    }
}

/// The label of a refining duration given in whole minutes.
pub fn minutes_label(total: u64) -> (r: String)
    ensures
        r@ == minutes_label_spec(total as nat),
{
    let mut out: Vec<char> = Vec::new();
    if total >= 60 {
        let hours = decimal_chars(total / 60);
        extend_chars(&mut out, &hours);
        append_str(&mut out, " h ");
        let mins = decimal_chars(total % 60);
        extend_chars(&mut out, &mins);
        append_str(&mut out, " min");
    } else {
        let mins = decimal_chars(total);
        extend_chars(&mut out, &mins);
        append_str(&mut out, " min");
    }
    string_of(&out)
}

/// `<safe name>_<clock>_Mineral_<unix seconds>.html`.
pub open spec fn report_file_name_spec(name: Seq<char>, clock: Seq<char>, unix: int) -> Seq<char> {
    sanitize_filename_spec(name) + "_"@ + clock + "_Mineral_"@ + signed_decimal_spec(unix)
        + ".html"@
}

/// The file name of a report written at the given local clock time
/// (`HHMMSS`) and Unix timestamp.
pub fn report_file_name(name: &str, clock: &str, unix: i64) -> (r: String)
    ensures
        r@ == report_file_name_spec(name@, clock@, unix as int),
{
    let safe = sanitize_filename(name);
    let mut out: Vec<char> = Vec::new();
    append_str(&mut out, safe.as_str());
    append_str(&mut out, "_");
    append_str(&mut out, clock);
    append_str(&mut out, "_Mineral_");
    let stamp = signed_decimal_chars(unix);
    extend_chars(&mut out, &stamp);
    append_str(&mut out, ".html");
    string_of(&out)
}

// ---------------------------------------------------------------------------
// The newest report
// ---------------------------------------------------------------------------

/// A file found in the report directory: its path, its extension and its
/// modification time in nanoseconds since the Unix epoch (`None` when the
/// file's metadata could not be read).
#[derive(Debug, Clone)]
pub struct ReportFile {
    pub path: String,
    pub extension: Option<String>,
    pub modified_ns: Option<i128>,
}

pub open spec fn is_html_file(f: ReportFile) -> bool {
    match f.extension {
        Some(e) => lower(e@) == lower("html"@),
        None => false,
    }
}

pub open spec fn time_of(f: ReportFile) -> int {
    match f.modified_ns {
        Some(t) => t as int,
        None => 0,
    }
}

/// Among the first `n` files, `i` is the first HTML file with the latest
/// modification time.
pub open spec fn newest_html_upto(fs: Seq<ReportFile>, n: int, i: int) -> bool {
    &&& 0 <= i < n <= fs.len()
    &&& is_html_file(fs[i])
    &&& fs[i].modified_ns is Some
    &&& forall|j: int| 0 <= j < n && is_html_file(#[trigger] fs[j]) ==> time_of(fs[j]) <= time_of(fs[i])
    &&& forall|j: int| 0 <= j < i && is_html_file(#[trigger] fs[j]) ==> time_of(fs[j]) < time_of(fs[i])
}

/// Some HTML file among the first `n` has unreadable metadata.
pub open spec fn html_unreadable_upto(fs: Seq<ReportFile>, n: int) -> bool {
    exists|j: int| 0 <= j < n && is_html_file(#[trigger] fs[j]) && fs[j].modified_ns is None
}

pub open spec fn has_html_upto(fs: Seq<ReportFile>, n: int) -> bool {
    exists|j: int| 0 <= j < n && is_html_file(#[trigger] fs[j])
}

fn is_html_extension(extension: &Option<String>) -> (r: bool)
    ensures
        r == match *extension {
            Some(e) => lower(e@) == lower("html"@),
            None => false,
        },
{
    match extension {
        Some(e) => {
            let ec = chars_of(e.as_str());
            let html = chars_of("html");
            eq_ignore_ascii_case(&ec, &html)
        },
        None => false,
    }
}

/// The path of the newest HTML report: the first HTML file with the latest
/// modification time. There is none when the directory holds no HTML file,
/// or when the metadata of some HTML file cannot be read.
pub fn latest_report(files: &[ReportFile]) -> (r: Option<String>)
    ensures
        r is None <==> (html_unreadable_upto(files@, files@.len() as int) || !has_html_upto(
            files@,
            files@.len() as int,
        )),
        r is Some ==> exists|i: int|
            newest_html_upto(files@, files@.len() as int, i) && r->0@ == (#[trigger] files@[i]).path@,
{
    let mut best: Option<usize> = None;
    let mut i: usize = 0;
    while i < files.len()
        invariant
            i <= files.len(),
            !html_unreadable_upto(files@, i as int),
            best is None ==> !has_html_upto(files@, i as int),
            best is Some ==> newest_html_upto(files@, i as int, best->0 as int),
        decreases files.len() - i,
    {
        let html = is_html_extension(&files[i].extension);
        if html {
            match files[i].modified_ns {
                None => {
                    assert(html_unreadable_upto(files@, files@.len() as int)) by {
                        assert(is_html_file(files@[i as int]));
                    }
                    return None;
                },
                Some(t) => {
                    match best {
                        None => {
                            best = Some(i);
                            assert(newest_html_upto(files@, i + 1, i as int));
                        },
                        Some(b) => {
                            let bt = match files[b].modified_ns {
                                Some(x) => x,
                                None => 0,
                            };
                            if t > bt {
                                best = Some(i);
                                assert(newest_html_upto(files@, i + 1, i as int));
                            } else {
                                assert(newest_html_upto(files@, i + 1, b as int));
                            }
                        },
                    }
                },
            }
        } else {
            assert(!is_html_file(files@[i as int]));
            proof {
                if best is Some {
                    assert(newest_html_upto(files@, i + 1, best->0 as int));
                }
            }
        }
        i += 1;
    }
    match best {
        Some(b) => {
            let p = files[b].path.clone();
            assert(p@ == files@[b as int].path@);
            Some(p)
        },
        None => None,
    }
}

// ---------------------------------------------------------------------------
// The report page
// ---------------------------------------------------------------------------

pub const REPORT_HEAD: &'static str = "<!doctype html>\n<html lang=\"en\"><head><meta charset=\"utf-8\"><meta name=\"viewport\" content=\"width=device-width,initial-scale=1\">\n<title>";

pub const REPORT_AFTER_TITLE: &'static str = " - StarSync MinerScan Report</title>\n<style>\n:root{--bg:#0e0e0e;--panel:#191817;--panel2:#2d2925;--line:#795230;--accent:#e1842d;--text:#eee9e3;--muted:#99938d;--good:#71e7a0;--gold:#e3b75d}\n*{box-sizing:border-box} body{margin:0;padding:4px;background:var(--bg);color:var(--text);font-family:\"Segoe UI\",Arial,sans-serif;font-size:13px} .wrap{width:100%;max-width:none;margin:0;padding:4px}\n.brand{text-align:center;border-bottom:1px solid var(--line);padding:2px 0 5px} .brand img{width:min(150px,26vw);max-height:92px;object-fit:contain;height:auto} h1{font-size:24px;margin:8px 0 3px} h2{font-size:12px;letter-spacing:.08em;color:var(--accent);margin:0 0 8px} .muted,.note{color:var(--muted)}\n.hero{display:flex;flex-wrap:wrap;align-items:stretch;gap:7px;margin-top:7px} .hero>.card{flex:1 1 520px} .hero>div:last-child{flex:0 1 270px} .card,section{background:var(--panel);border:1px solid #4d4035;border-radius:5px;padding:9px;margin-bottom:7px} .hero-image,.locimg{width:100%;max-height:190px;object-fit:cover;border-radius:4px;border:1px solid #8b5a32}\n.grid3,.locations{display:flex;flex-wrap:wrap;align-items:stretch;gap:7px} .grid3>section,.locations>.card{flex:1 1 280px;min-width:230px} .metric{display:flex;justify-content:space-between;gap:12px;padding:5px 0;border-bottom:1px solid #403831} .metric span{color:var(--muted)} .metric strong{text-align:right} .value{font-size:19px;color:var(--good)} .loc h3{margin:0 0 5px;color:var(--accent);font-size:13px} .loc p{line-height:1.35;margin:7px 0} .location-section{padding:8px} a{color:var(--accent)} .source{font-size:10px;color:var(--muted)}\n@media(max-width:650px){body{padding:2px} .wrap{padding:2px} .hero>div:last-child,.grid3>section,.locations>.card{flex-basis:100%}}\n</style></head><body><div class=\"wrap\">\n<div class=\"brand\"><img src=\"";

pub const REPORT_AFTER_LOGO: &'static str = "\" alt=\"StarSync MinerScan\"></div>\n<div class=\"hero\"><div class=\"card\"><h1>";

pub const REPORT_AFTER_NAME: &'static str = "</h1><div class=\"muted\">Generated ";

pub const REPORT_AFTER_GENERATED: &'static str = " | Analysis basis ";

pub const REPORT_AFTER_SCU: &'static str = " SCU</div>\n<p>";

pub const REPORT_AFTER_DESCRIPTION: &'static str = "</p><div class=\"source\">UUID ";

pub const REPORT_AFTER_UUID: &'static str = "<br>Providers: ";

pub const REPORT_AFTER_PROVIDERS: &'static str = "</div></div><div>";

pub const REPORT_AFTER_IMAGE: &'static str = "</div></div>\n<div class=\"grid3\">\n<section><h2>RAW SALE</h2><div class=\"value\">";

pub const REPORT_AFTER_RAW_PRICE: &'static str = "</div><div class=\"metric\"><span>Basis value</span><strong>";

pub const REPORT_AFTER_RAW_VALUE: &'static str = "</strong></div></section>\n<section><h2>REFINING</h2>";

pub const REPORT_AFTER_REFINERY: &'static str = "</section>\n<section><h2>REFINED SALE</h2><div class=\"value\">";

pub const REPORT_AFTER_REFINED_PRICE: &'static str = "</div><div class=\"metric\"><span>Gross</span><strong>";

pub const REPORT_AFTER_GROSS: &'static str = "</strong></div><div class=\"metric\"><span>Estimated net</span><strong>";

pub const REPORT_AFTER_NET: &'static str = "</strong></div></section>\n</div>\n";

pub const REPORT_AFTER_LOCATIONS: &'static str = "\n";

pub const REPORT_TAIL: &'static str = "\n</div></body></html>";

pub const METRIC_REFINERY: &'static str = "<div class=\"metric\"><span>Refinery</span><strong>";

pub const METRIC_TERMINAL: &'static str = "</strong></div><div class=\"metric\"><span>Terminal</span><strong>";

pub const METRIC_BONUS: &'static str = "</strong></div><div class=\"metric\"><span>Yield bonus</span><strong>";

pub const METRIC_METHOD: &'static str = "%</strong></div><div class=\"metric\"><span>Method</span><strong>";

pub const METRIC_OUTPUT: &'static str = "</strong></div><div class=\"metric\"><span>Output</span><strong>";

pub const METRIC_COST: &'static str = " SCU</strong></div><div class=\"metric\"><span>Cost</span><strong>";

pub const METRIC_TIME: &'static str = "</strong></div><div class=\"metric\"><span>Time</span><strong>";

pub const METRIC_NOTE: &'static str = "</strong></div><p class=\"note\">";

pub const NO_REFINERY: &'static str = "<p>No refinery recommendation available.</p>";

pub const LOCATIONS_OPEN: &'static str = "<section class=\"location-section\"><h2>LOCATIONS</h2><div class=\"locations\">";

pub const LOCATIONS_CLOSE: &'static str = "</div></section>";

pub const NOTES_OPEN: &'static str = "<section><h2>Data notes</h2><ul>";

pub const NOTES_CLOSE: &'static str = "</ul></section>";

/// Where a market quote was found.
#[derive(Debug, Clone)]
pub struct MarketPlace {
    pub location: String,
    pub system: String,
}

/// The refinery recommendation as the report shows it, with its numbers
/// already formatted: the signed yield bonus in whole percent, the output
/// with two decimals, the cost in whole aUEC, and the refining time in
/// whole minutes.
#[derive(Debug, Clone)]
pub struct RefineryReport {
    pub location: String,
    pub terminal: String,
    pub system: String,
    pub yield_bonus: String,
    pub method_name: Option<String>,
    pub output_scu: String,
    pub cost: Option<String>,
    pub minutes: Option<u64>,
    pub estimate_basis: String,
}

/// Everything a report page shows, with its numbers already formatted (the
/// analysis amount with two decimals, prices and values in whole aUEC).
#[derive(Debug, Clone, Default)]
pub struct ReportFields {
    pub name: String,
    pub generated_at: String,
    pub analysis_scu: String,
    pub description: Option<String>,
    pub uuid: Option<String>,
    pub providers: Vec<String>,
    pub media: Option<MediaInfo>,
    pub raw_price: Option<String>,
    pub raw_value: Option<String>,
    pub refined_price: Option<String>,
    pub refined_gross: Option<String>,
    pub estimated_net: Option<String>,
    pub raw_market: Option<MarketPlace>,
    pub refined_market: Option<MarketPlace>,
    pub refinery: Option<RefineryReport>,
    pub raw_sale_location: Option<LocationInfo>,
    pub refined_sale_location: Option<LocationInfo>,
    pub refinery_location: Option<LocationInfo>,
    pub warnings: Vec<String>,
}

pub open spec fn amount_or(o: Option<String>, suffix: Seq<char>, missing: Seq<char>) -> Seq<char> {
    match o {
        Some(t) => t@ + suffix,
        None => missing,
    }
}

pub open spec fn text_or_default(o: Option<String>, d: Seq<char>) -> Seq<char> {
    match o {
        Some(t) => t@,
        None => d,
    }
}

pub open spec fn hero_image_spec(media: Option<MediaInfo>) -> Seq<char> {
    match media {
        Some(m) => match m.image_bytes {
            Some(b) => "<img class=\"hero-image\" src=\""@ + data_uri_spec(b@) + "\" alt=\"Mineral\">"@,
            None => seq![],
        },
        None => seq![],
    }
}

pub open spec fn refinery_section_spec(r: Option<RefineryReport>) -> Seq<char> {
    match r {
        Some(x) => METRIC_REFINERY@ + escape_html(x.location@) + METRIC_TERMINAL@ + escape_html(
            x.terminal@,
        ) + METRIC_BONUS@ + x.yield_bonus@ + METRIC_METHOD@ + escape_html(
            text_or_default(x.method_name, "--"@),
        ) + METRIC_OUTPUT@ + x.output_scu@ + METRIC_COST@ + amount_or(x.cost, " aUEC"@, "--"@)
            + METRIC_TIME@ + (match x.minutes {
            Some(m) => minutes_label_spec(m as nat),
            None => "--"@,
        }) + METRIC_NOTE@ + escape_html(x.estimate_basis@) + "</p>"@,
        None => NO_REFINERY@,
    }
}

pub open spec fn place_name(p: Option<MarketPlace>) -> Option<Seq<char>> {
    match p {
        Some(q) => Some(q.location@),
        None => None,
    }
}

pub open spec fn place_system(p: Option<MarketPlace>) -> Option<Seq<char>> {
    match p {
        Some(q) => Some(q.system@),
        None => None,
    }
}

pub open spec fn refinery_place(r: Option<RefineryReport>) -> Option<MarketPlace> {
    match r {
        Some(x) => Some(MarketPlace { location: x.location, system: x.system }),
        None => None,
    }
}

/// The three location cards: raw sale, refining, refined sale.
pub open spec fn report_cards_spec(f: ReportFields) -> Seq<char> {
    location_card_spec(
        "RAW SALE LOCATION"@,
        f.raw_sale_location,
        place_name(f.raw_market),
        place_system(f.raw_market),
    ) + location_card_spec(
        "REFINING LOCATION"@,
        f.refinery_location,
        place_name(refinery_place(f.refinery)),
        place_system(refinery_place(f.refinery)),
    ) + location_card_spec(
        "REFINED SALE LOCATION"@,
        f.refined_sale_location,
        place_name(f.refined_market),
        place_system(f.refined_market),
    )
}

pub open spec fn locations_section_spec(cards: Seq<char>) -> Seq<char> {
    if cards.len() == 0 {
        seq![]
    } else {
        LOCATIONS_OPEN@ + cards + LOCATIONS_CLOSE@
    }
}

pub open spec fn note_items(ws: Seq<String>) -> Seq<char>
    decreases ws.len(),
{
    if ws.len() == 0 {
        seq![]
    } else {
        note_items(ws.drop_last()) + "<li>"@ + escape_html(ws.last()@) + "</li>"@
    }
}

pub open spec fn notes_section_spec(ws: Seq<String>) -> Seq<char> {
    if ws.len() == 0 {
        seq![]
    } else {
        NOTES_OPEN@ + note_items(ws) + NOTES_CLOSE@
    }
}

/// The page up to the refined sale price.
pub open spec fn report_top(f: ReportFields, logo: Seq<u8>) -> Seq<char> {
    let name = escape_html(f.name@);
    REPORT_HEAD@ + name + REPORT_AFTER_TITLE@ + data_uri_spec(logo) + REPORT_AFTER_LOGO@ + name
        + REPORT_AFTER_NAME@ + escape_html(f.generated_at@) + REPORT_AFTER_GENERATED@
        + f.analysis_scu@ + REPORT_AFTER_SCU@ + escape_html(
        text_or_default(f.description, "No description available."@),
    ) + REPORT_AFTER_DESCRIPTION@ + escape_html(text_or_default(f.uuid, "--"@))
        + REPORT_AFTER_UUID@ + escape_html(join_spec(strings_view(f.providers@), " + "@))
        + REPORT_AFTER_PROVIDERS@ + hero_image_spec(f.media) + REPORT_AFTER_IMAGE@ + amount_or(
        f.raw_price,
        " aUEC / SCU"@,
        "No current quote"@,
    ) + REPORT_AFTER_RAW_PRICE@ + amount_or(f.raw_value, " aUEC"@, "--"@)
        + REPORT_AFTER_RAW_VALUE@ + refinery_section_spec(f.refinery) + REPORT_AFTER_REFINERY@
        + amount_or(f.refined_price, " aUEC / SCU"@, "No current quote"@)
}

/// The complete report page.
pub open spec fn report_html(f: ReportFields, logo: Seq<u8>) -> Seq<char> {
    report_top(f, logo) + REPORT_AFTER_REFINED_PRICE@ + amount_or(f.refined_gross, " aUEC"@, "--"@)
        + REPORT_AFTER_GROSS@ + amount_or(f.estimated_net, " aUEC"@, "--"@) + REPORT_AFTER_NET@
        + locations_section_spec(report_cards_spec(f)) + REPORT_AFTER_LOCATIONS@
        + notes_section_spec(f.warnings@) + REPORT_TAIL@
}

/// Every picture on the page can be encoded.
pub open spec fn report_images_fit(f: ReportFields, logo: Seq<u8>) -> bool {
    &&& base64_fits(logo.len())
    &&& match f.media {
        Some(m) => image_fits(m.image_bytes),
        None => true,
    }
    &&& image_fits_opt(f.raw_sale_location)
    &&& image_fits_opt(f.refined_sale_location)
    &&& image_fits_opt(f.refinery_location)
}

pub open spec fn image_fits_opt(d: Option<LocationInfo>) -> bool {
    match d {
        Some(x) => image_fits(x.image_bytes),
        None => true,
    }
}

fn amount_chars(o: &Option<String>, suffix: &str, missing: &str) -> (r: Vec<char>)
    ensures
        r@ == amount_or(*o, suffix@, missing@),
{
    match o {
        Some(t) => {
            let mut v = chars_of(t.as_str());
            append_str(&mut v, suffix);
            v
        },
        None => chars_of(missing),
    }
}

fn escaped_or(o: &Option<String>, d: &str) -> (r: Vec<char>)
    ensures
        r@ == escape_html(text_or_default(*o, d@)),
{
    let mut v: Vec<char> = Vec::new();
    match o {
        Some(t) => push_escaped_str(&mut v, t.as_str()),
        None => push_escaped_str(&mut v, d),
    }
    assert(v@ =~= escape_html(text_or_default(*o, d@)));
    v
}

fn hero_image_chars(media: &Option<MediaInfo>) -> (r: Vec<char>)
    requires
        match *media {
            Some(m) => image_fits(m.image_bytes),
            None => true,
        },
    ensures
        r@ == hero_image_spec(*media),
{
    let mut v: Vec<char> = Vec::new();
    match media {
        Some(m) => match media_data_uri(m) {
            Some(uri) => {
                append_str(&mut v, "<img class=\"hero-image\" src=\"");
                append_str(&mut v, uri.as_str());
                append_str(&mut v, "\" alt=\"Mineral\">");
                assert(v@ =~= hero_image_spec(*media));
            },
            None => {},
        },
        None => {},
    }
    v
}

fn refinery_section_chars(r: &Option<RefineryReport>) -> (out: Vec<char>)
    ensures
        out@ == refinery_section_spec(*r),
{
    match r {
        Some(x) => {
            let mut v: Vec<char> = Vec::new();
            append_str(&mut v, METRIC_REFINERY);
            push_escaped_str(&mut v, x.location.as_str());
            append_str(&mut v, METRIC_TERMINAL);
            push_escaped_str(&mut v, x.terminal.as_str());
            append_str(&mut v, METRIC_BONUS);
            append_str(&mut v, x.yield_bonus.as_str());
            append_str(&mut v, METRIC_METHOD);
            let method = escaped_or(&x.method_name, "--");
            extend_chars(&mut v, &method);
            append_str(&mut v, METRIC_OUTPUT);
            append_str(&mut v, x.output_scu.as_str());
            append_str(&mut v, METRIC_COST);
            let cost = amount_chars(&x.cost, " aUEC", "--");
            extend_chars(&mut v, &cost);
            append_str(&mut v, METRIC_TIME);
            let time: Vec<char> = match x.minutes {
                Some(m) => chars_of(minutes_label(m).as_str()),
                None => chars_of("--"),
            };
            extend_chars(&mut v, &time);
            append_str(&mut v, METRIC_NOTE);
            push_escaped_str(&mut v, x.estimate_basis.as_str());
            append_str(&mut v, "</p>");
            v
        },
        None => chars_of(NO_REFINERY),
    }
}

fn place_parts(p: &Option<MarketPlace>) -> (r: (Option<&str>, Option<&str>))
    ensures
        str_opt(r.0) == place_name(*p),
        str_opt(r.1) == place_system(*p),
{
    match p {
        Some(q) => (Some(q.location.as_str()), Some(q.system.as_str())),
        None => (None, None),
    }
}

fn report_cards_chars(f: &ReportFields) -> (r: Vec<char>)
    requires
        image_fits_opt(f.raw_sale_location),
        image_fits_opt(f.refined_sale_location),
        image_fits_opt(f.refinery_location),
    ensures
        r@ == report_cards_spec(*f),
{
    let mut v: Vec<char> = Vec::new();
    let (raw_name, raw_system) = place_parts(&f.raw_market);
    let raw = location_card("RAW SALE LOCATION", f.raw_sale_location.as_ref(), raw_name, raw_system);
    append_str(&mut v, raw.as_str());
    let refinery_place_value = match &f.refinery {
        Some(x) => Some(MarketPlace { location: x.location.clone(), system: x.system.clone() }),
        None => None,
    };
    let (ref_name, ref_system) = place_parts(&refinery_place_value);
    proof {
        assert(place_name(refinery_place_value) == place_name(refinery_place(f.refinery)));
        assert(place_system(refinery_place_value) == place_system(refinery_place(f.refinery)));
    }
    let refining = location_card("REFINING LOCATION", f.refinery_location.as_ref(), ref_name, ref_system);
    append_str(&mut v, refining.as_str());
    let (refined_name, refined_system) = place_parts(&f.refined_market);
    let refined = location_card(
        "REFINED SALE LOCATION",
        f.refined_sale_location.as_ref(),
        refined_name,
        refined_system,
    );
    append_str(&mut v, refined.as_str());
    assert(v@ =~= report_cards_spec(*f));
    v
}

fn notes_section_chars(ws: &Vec<String>) -> (r: Vec<char>)
    ensures
        r@ == notes_section_spec(ws@),
{
    if ws.len() == 0 {
        return Vec::new();
    }
    let mut items: Vec<char> = Vec::new();
    let mut i: usize = 0;
    while i < ws.len()
        invariant
            i <= ws.len(),
            items@ == note_items(ws@.take(i as int)),
        decreases ws.len() - i,
    {
        append_str(&mut items, "<li>");
        push_escaped_str(&mut items, ws[i].as_str());
        append_str(&mut items, "</li>");
        assert(ws@.take(i + 1).drop_last() == ws@.take(i as int));
        i += 1;
    }
    assert(ws@.take(ws.len() as int) == ws@);
    let mut v = chars_of(NOTES_OPEN);
    extend_chars(&mut v, &items);
    append_str(&mut v, NOTES_CLOSE);
    v
}

/// The self-contained HTML report of an enrichment, with the logo and all
/// pictures embedded as data URIs.
pub fn render_report(fields: &ReportFields, logo: &[u8]) -> (r: String)
    requires
        report_images_fit(*fields, logo@),
    ensures
        r@ == report_html(*fields, logo@),
{
    let providers = join_strings(&fields.providers, " + ");
    let providers_text = string_of(&providers);
    let hero = hero_image_chars(&fields.media);
    let raw_price = amount_chars(&fields.raw_price, " aUEC / SCU", "No current quote");
    let raw_value = amount_chars(&fields.raw_value, " aUEC", "--");
    let refinery = refinery_section_chars(&fields.refinery);
    let refined_price = amount_chars(&fields.refined_price, " aUEC / SCU", "No current quote");
    let gross = amount_chars(&fields.refined_gross, " aUEC", "--");
    let net = amount_chars(&fields.estimated_net, " aUEC", "--");
    let cards = report_cards_chars(fields);
    let locations: Vec<char> = if cards.len() == 0 {
        Vec::new()
    } else {
        let mut l = chars_of(LOCATIONS_OPEN);
        extend_chars(&mut l, &cards);
        append_str(&mut l, LOCATIONS_CLOSE);
        l
    };
    assert(locations@ =~= locations_section_spec(report_cards_spec(*fields)));
    let notes = notes_section_chars(&fields.warnings);
    let description = escaped_or(&fields.description, "No description available.");
    let uuid = escaped_or(&fields.uuid, "--");
    let logo_uri = data_uri(logo);
    let mut out: Vec<char> = Vec::new();
    append_str(&mut out, REPORT_HEAD);
    push_escaped_str(&mut out, fields.name.as_str());
    append_str(&mut out, REPORT_AFTER_TITLE);
    append_str(&mut out, logo_uri.as_str());
    append_str(&mut out, REPORT_AFTER_LOGO);
    push_escaped_str(&mut out, fields.name.as_str());
    append_str(&mut out, REPORT_AFTER_NAME);
    push_escaped_str(&mut out, fields.generated_at.as_str());
    append_str(&mut out, REPORT_AFTER_GENERATED);
    append_str(&mut out, fields.analysis_scu.as_str());
    append_str(&mut out, REPORT_AFTER_SCU);
    extend_chars(&mut out, &description);
    append_str(&mut out, REPORT_AFTER_DESCRIPTION);
    extend_chars(&mut out, &uuid);
    append_str(&mut out, REPORT_AFTER_UUID);
    push_escaped_str(&mut out, providers_text.as_str());
    append_str(&mut out, REPORT_AFTER_PROVIDERS);
    extend_chars(&mut out, &hero);
    append_str(&mut out, REPORT_AFTER_IMAGE);
    extend_chars(&mut out, &raw_price);
    append_str(&mut out, REPORT_AFTER_RAW_PRICE);
    extend_chars(&mut out, &raw_value);
    append_str(&mut out, REPORT_AFTER_RAW_VALUE);
    extend_chars(&mut out, &refinery);
    append_str(&mut out, REPORT_AFTER_REFINERY);
    extend_chars(&mut out, &refined_price);
    append_str(&mut out, REPORT_AFTER_REFINED_PRICE);
    extend_chars(&mut out, &gross);
    append_str(&mut out, REPORT_AFTER_GROSS);
    extend_chars(&mut out, &net);
    append_str(&mut out, REPORT_AFTER_NET);
    extend_chars(&mut out, &locations);
    append_str(&mut out, REPORT_AFTER_LOCATIONS);
    extend_chars(&mut out, &notes);
    append_str(&mut out, REPORT_TAIL);
    string_of(&out)
}

// ---------------------------------------------------------------------------
// Laws
// ---------------------------------------------------------------------------

/// A report file name is never empty and holds only ASCII letters, digits,
/// `-` and `_`.
pub proof fn law_report_names_are_safe(name: Seq<char>)
    ensures
        sanitize_filename_spec(name).len() > 0,
        forall|i: int|
            0 <= i < sanitize_filename_spec(name).len() ==> {
                let c = #[trigger] sanitize_filename_spec(name)[i];
                is_ascii_alnum(c) || c == '-' || c == '_'
            },
{
    reveal_strlit("Mineral");
}

/// Sanitising a report name twice changes nothing more than sanitising it
/// once.
pub proof fn law_sanitize_is_idempotent(name: Seq<char>)
    ensures
        sanitize_filename_spec(sanitize_filename_spec(name)) == sanitize_filename_spec(name),
{
    reveal_strlit("Mineral");
    let once = sanitize_filename_spec(name);
    assert(once.len() > 0);
    assert(once.map_values(|c: char| filename_char(c)) =~= once);
}

pub open spec fn is_markup_char(c: char) -> bool {
    c == '<' || c == '>' || c == '"'
}

proof fn lemma_escape_char_plain(c: char)
    ensures
        forall|i: int| 0 <= i < escape_char(c).len() ==> !is_markup_char(#[trigger] escape_char(c)[i]),
{
    reveal_strlit("&amp;");
    reveal_strlit("&lt;");
    reveal_strlit("&gt;");
    reveal_strlit("&quot;");
}

/// Escaped text cannot open or close a tag or an attribute value: it holds
/// no `<`, `>` or `"`.
pub proof fn law_escaped_text_has_no_markup(s: Seq<char>)
    ensures
        forall|i: int| 0 <= i < escape_html(s).len() ==> !is_markup_char(#[trigger] escape_html(s)[i]),
    decreases s.len(),
{
    if s.len() > 0 {
        law_escaped_text_has_no_markup(s.drop_last());
        lemma_escape_char_plain(s.last());
        let a = escape_html(s.drop_last());
        let b = escape_char(s.last());
        assert forall|i: int| 0 <= i < escape_html(s).len() implies !is_markup_char(
            #[trigger] escape_html(s)[i],
        ) by {
            if i < a.len() {
                assert(escape_html(s)[i] == a[i]);
            } else {
                assert(escape_html(s)[i] == b[i - a.len()]);
            }
        }
    }
}

proof fn lemma_contains_middle(x: Seq<char>, p: Seq<char>, y: Seq<char>)
    ensures
        contains(x + p + y, p),
{
    assert((x + p + y).subrange(x.len() as int, (x.len() + p.len()) as int) =~= p);
    assert(matches_at(x + p + y, x.len() as int, p));
}

proof fn lemma_contains_extend(x: Seq<char>, p: Seq<char>, y: Seq<char>)
    requires
        contains(x, p),
    ensures
        contains(x + y, p),
{
    let i = choose|i: int| matches_at(x, i, p);
    assert((x + y).subrange(i, i + p.len()) =~= x.subrange(i, i + p.len()));
    assert(matches_at(x + y, i, p));
}

proof fn lemma_refined_sale_labels(top: Seq<char>, gross: Seq<char>, net: Seq<char>)
    ensures
        contains(
            top + REPORT_AFTER_REFINED_PRICE@ + gross + REPORT_AFTER_GROSS@ + net + REPORT_AFTER_NET@,
            "<span>Gross</span><strong>"@ + gross + "</strong>"@,
        ),
        contains(
            top + REPORT_AFTER_REFINED_PRICE@ + gross + REPORT_AFTER_GROSS@ + net + REPORT_AFTER_NET@,
            "<span>Estimated net</span><strong>"@ + net + "</strong>"@,
        ),
{
    reveal_strlit("</div><div class=\"metric\"><span>Gross</span><strong>");
    reveal_strlit("</strong></div><div class=\"metric\"><span>Estimated net</span><strong>");
    reveal_strlit("</strong></div></section>\n</div>\n");
    reveal_strlit("<span>Gross</span><strong>");
    reveal_strlit("<span>Estimated net</span><strong>");
    reveal_strlit("</strong>");
    reveal_strlit("</div><div class=\"metric\">");
    reveal_strlit("</div></section>\n</div>\n");
    let head = "</div><div class=\"metric\">"@;
    let gl = "<span>Gross</span><strong>"@;
    let nl = "<span>Estimated net</span><strong>"@;
    let close = "</strong>"@;
    let after_net = "</div></section>\n</div>\n"@;
    assert(REPORT_AFTER_REFINED_PRICE@ =~= head + gl);
    assert(REPORT_AFTER_GROSS@ =~= close + head + nl);
    assert(REPORT_AFTER_NET@ =~= close + after_net);
    let m = top + REPORT_AFTER_REFINED_PRICE@ + gross + REPORT_AFTER_GROSS@ + net + REPORT_AFTER_NET@;
    assert(m =~= (top + head) + (gl + gross + close) + (head + nl + net + close + after_net));
    lemma_contains_middle(top + head, gl + gross + close, head + nl + net + close + after_net);
    assert(m =~= (top + head + gl + gross + close + head) + (nl + net + close) + after_net);
    lemma_contains_middle(top + head + gl + gross + close + head, nl + net + close, after_net);
}

/// The refined sale section shows each figure under its own label: the
/// page holds "Gross" followed by the gross value (or "--" without one) and
/// "Estimated net" followed by the net value (or "--").
pub proof fn law_report_shows_gross_and_net(f: ReportFields, logo: Seq<u8>)
    ensures
        contains(
            report_html(f, logo),
            "<span>Gross</span><strong>"@ + (match f.refined_gross {
                Some(t) => t@ + " aUEC"@,
                None => "--"@,
            }) + "</strong>"@,
        ),
        contains(
            report_html(f, logo),
            "<span>Estimated net</span><strong>"@ + (match f.estimated_net {
                Some(t) => t@ + " aUEC"@,
                None => "--"@,
            }) + "</strong>"@,
        ),
{
    let top = report_top(f, logo);
    let gross = amount_or(f.refined_gross, " aUEC"@, "--"@);
    let net = amount_or(f.estimated_net, " aUEC"@, "--"@);
    lemma_refined_sale_labels(top, gross, net);
    let m = top + REPORT_AFTER_REFINED_PRICE@ + gross + REPORT_AFTER_GROSS@ + net + REPORT_AFTER_NET@;
    let l = locations_section_spec(report_cards_spec(f));
    let notes = notes_section_spec(f.warnings@);
    let gp = "<span>Gross</span><strong>"@ + gross + "</strong>"@;
    let np = "<span>Estimated net</span><strong>"@ + net + "</strong>"@;
    lemma_contains_extend(m, gp, l);
    lemma_contains_extend(m + l, gp, REPORT_AFTER_LOCATIONS@);
    lemma_contains_extend(m + l + REPORT_AFTER_LOCATIONS@, gp, notes);
    lemma_contains_extend(m + l + REPORT_AFTER_LOCATIONS@ + notes, gp, REPORT_TAIL@);
    lemma_contains_extend(m, np, l);
    lemma_contains_extend(m + l, np, REPORT_AFTER_LOCATIONS@);
    lemma_contains_extend(m + l + REPORT_AFTER_LOCATIONS@, np, notes);
    lemma_contains_extend(m + l + REPORT_AFTER_LOCATIONS@ + notes, np, REPORT_TAIL@);
    assert(report_html(f, logo) == m + l + REPORT_AFTER_LOCATIONS@ + notes + REPORT_TAIL@);
}

} // verus!
