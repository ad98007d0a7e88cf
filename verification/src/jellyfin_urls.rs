//! Request texts for the server: image URLs, the incremental-sync date
//! filter and the server's date, and what a downloaded image is saved as.
use vstd::prelude::*;
use crate::profile_storage::{trim_whitespace, trimmed};
use crate::text::{chars_of, decimal, owned, push_char, push_decimal, push_str};

verus! {

// ---------------------------------------------------------------------------
// Percent-encoding.
// ---------------------------------------------------------------------------

/// The UTF-8 encoding of a character.
pub open spec fn utf8_char(c: char) -> Seq<u8> {
    let x = c as int;
    if x < 0x80 {
        seq![x as u8]
    } else if x < 0x800 {
        seq![(0xc0 + x / 64) as u8, (0x80 + x % 64) as u8]
    } else if x < 0x10000 {
        seq![(0xe0 + x / 4096) as u8, (0x80 + (x / 64) % 64) as u8, (0x80 + x % 64) as u8]
    } else {
        seq![
            (0xf0 + x / 262144) as u8,
            (0x80 + (x / 4096) % 64) as u8,
            (0x80 + (x / 64) % 64) as u8,
            (0x80 + x % 64) as u8,
        ]
    }
}

/// The UTF-8 encoding of a string.
pub open spec fn utf8(s: Seq<char>) -> Seq<u8>
    decreases s.len(),
{
    if s.len() == 0 {
        seq![]
    } else {
        utf8(s.drop_last()) + utf8_char(s.last())
    }
}

/// A byte left as it is by percent-encoding: an ASCII letter or digit, or
/// one of `-`, `.`, `_`, `~`.
pub open spec fn unreserved(b: u8) -> bool {
    (48 <= b <= 57) || (65 <= b <= 90) || (97 <= b <= 122) || b == 45 || b == 46 || b == 95
        || b == 126
}

/// The uppercase hexadecimal digit of `d`.
pub open spec fn upper_hex(d: int) -> char {
    if d < 10 {
        ((48 + d) as u8) as char
    } else {
        ((55 + d) as u8) as char
    }
}

/// Bytes percent-encoded: unreserved bytes as themselves, every other byte
/// as '%' and two uppercase hexadecimal digits.
pub open spec fn percent_encode(b: Seq<u8>) -> Seq<char>
    decreases b.len(),
{
    if b.len() == 0 {
        seq![]
    } else {
        let x = b.last();
        percent_encode(b.drop_last()) + if unreserved(x) {
            seq![x as char]
        } else {
            seq!['%', upper_hex(x as int / 16), upper_hex(x as int % 16)]
        }
    }
}

/// A string percent-encoded over its UTF-8 bytes.
pub open spec fn url_encoded(s: Seq<char>) -> Seq<char> {
    percent_encode(utf8(s))
}

/// `urlencoding::encode`: percent-encodes every byte of the UTF-8 text
/// except ASCII letters, digits and `-`, `.`, `_`, `~`, with uppercase
/// hexadecimal digits.
#[verifier::external_body]
pub(crate) fn url_encode(s: &str) -> (r: String)
    ensures
        r@ == url_encoded(s@),
{
    urlencoding::encode(s).into_owned()
}

/// The filter an incremental fetch adds for a date: items saved since it,
/// and items whose user data changed since it, the date URL-encoded.
pub open spec fn date_filter(date: Seq<char>) -> Seq<char> {
    "&minDateLastSaved="@ + url_encoded(date) + "&minDateLastSavedForUser="@ + url_encoded(date)
}

/// Appends to a query the filter for items changed since `since_date`;
/// without a date the query is left as it is.
pub fn append_incremental_date_filter(base_query: &mut String, since_date: Option<&str>)
    ensures
        final(base_query)@ == match since_date {
            Some(d) => old(base_query)@ + date_filter(d@),
            None => old(base_query)@,
        },
{
    match since_date {
        Some(date) => {
            let encoded = url_encode(date);
            push_str(base_query, "&minDateLastSaved=");
            push_str(base_query, encoded.as_str());
            push_str(base_query, "&minDateLastSavedForUser=");
            push_str(base_query, encoded.as_str());
            assert(final(base_query)@ =~= old(base_query)@ + date_filter(date@));
        },
        None => {},
    }
}

// ---------------------------------------------------------------------------
// The server's date.
// ---------------------------------------------------------------------------

/// The RFC 3339 text of an RFC 2822 date, when it parses as one.
pub uninterp spec fn rfc2822_as_rfc3339(s: Seq<char>) -> Option<Seq<char>>;

/// `DateTime::parse_from_rfc2822`, then `to_rfc3339` of what it parsed.
#[verifier::external_body]
fn parse_rfc2822(s: &str) -> (r: Option<String>)
    ensures
        match r {
            Some(t) => rfc2822_as_rfc3339(s@) == Some(t@),
            None => rfc2822_as_rfc3339(s@) is None,
        },
{
    match chrono::DateTime::parse_from_rfc2822(s) {
        Ok(parsed) => Some(parsed.to_rfc3339()),
        Err(_) => None,
    }
}

/// The sync time from a parsed server date: the parsed date, else `now`.
pub fn server_date_or_now(parsed: Option<String>, now: &str) -> (r: String)
    ensures
        r@ == match parsed {
            Some(t) => t@,
            None => now@,
        },
{
    match parsed {
        Some(t) => t,
        None => owned(now),
    }
}

/// The sync time from the server's Date header: the header's date in RFC
/// 3339 when it parses as an RFC 2822 date, else `now`.
pub fn parse_server_date(date_header: Option<&str>, now: &str) -> (r: String)
    ensures
        r@ == match date_header {
            Some(h) => match rfc2822_as_rfc3339(h@) {
                Some(t) => t,
                None => now@,
            },
            None => now@,
        },
{
    let parsed = match date_header {
        Some(header) => parse_rfc2822(header),
        None => None,
    };
    server_date_or_now(parsed, now)
}

// ---------------------------------------------------------------------------
// Images.
// ---------------------------------------------------------------------------

/// `s` without trailing '/' characters.
pub open spec fn trim_end_slashes(s: Seq<char>) -> Seq<char>
    decreases s.len(),
{
    if s.len() > 0 && s.last() == '/' {
        trim_end_slashes(s.drop_last())
    } else {
        s
    }
}

/// `s` without trailing '/' characters.
pub(crate) fn without_trailing_slashes(s: &str) -> (url: String)
    ensures
        url@ == trim_end_slashes(s@),
{
    let chars = chars_of(s);
    let mut end = chars.len();
    assert(chars@.take(end as int) =~= chars@);
    while end > 0 && chars[end - 1] == '/'
        invariant
            end <= chars@.len(),
            trim_end_slashes(chars@) == trim_end_slashes(chars@.take(end as int)),
        decreases end,
    {
        proof {
            assert(chars@.take(end as int).drop_last() =~= chars@.take(end - 1));
        }
        end = end - 1;
    }
    let mut url = String::new();
    let mut i: usize = 0;
    while i < end
        invariant
            i <= end,
            end <= chars@.len(),
            url@ == chars@.take(i as int),
        decreases end - i,
    {
        push_char(&mut url, chars[i]);
        assert(url@ =~= chars@.take(i + 1));
        i = i + 1;
    }
    proof {
        assert(chars@.take(chars@.len() as int) =~= chars@);
        if end > 0 {
            assert(chars@.take(end as int).last() == chars@[end - 1]);
        }
        assert(trim_end_slashes(chars@.take(end as int)) == chars@.take(end as int));
    }
    url
}

/// The URL of an item's image: under the server (trailing slashes removed),
/// `/Items/<id>/Images/<type>`, with the width, the quality (when given)
/// and the API key as query parameters.
pub open spec fn image_url(
    server_url: Seq<char>,
    token: Seq<char>,
    item_id: Seq<char>,
    image_type: Seq<char>,
    width: Option<u32>,
    quality: Option<u32>,
) -> Seq<char> {
    let w = match width {
        Some(x) => "width="@ + decimal(x as nat) + "&"@,
        None => seq![],
    };
    let q = match quality {
        Some(x) => "quality="@ + decimal(x as nat) + "&"@,
        None => seq![],
    };
    trim_end_slashes(server_url) + "/Items/"@ + item_id + "/Images/"@ + image_type + "?"@ + w + q
        + "api_key="@ + token
}

/// The URL of an item's image.
pub fn build_image_url(
    server_url: String,
    token: String,
    item_id: String,
    image_type: String,
    width: Option<u32>,
    quality: Option<u32>,
) -> (r: Option<String>)
    ensures
        r matches Some(u) && u@ == image_url(server_url@, token@, item_id@, image_type@, width, quality),
{
    let mut url = without_trailing_slashes(server_url.as_str());
    push_str(&mut url, "/Items/");
    push_str(&mut url, item_id.as_str());
    push_str(&mut url, "/Images/");
    push_str(&mut url, image_type.as_str());
    push_str(&mut url, "?");
    match width {
        Some(w) => {
            push_str(&mut url, "width=");
            push_decimal(&mut url, w as u64);
            push_str(&mut url, "&");
        },
        None => {},
    }
    match quality {
        Some(q) => {
            push_str(&mut url, "quality=");
            push_decimal(&mut url, q as u64);
            push_str(&mut url, "&");
        },
        None => {},
    }
    push_str(&mut url, "api_key=");
    push_str(&mut url, token.as_str());
    assert(url@ =~= image_url(server_url@, token@, item_id@, image_type@, width, quality));
    Some(url)
}

/// The MIME type of a Content-Type value: what precedes the first ';',
/// trimmed.
pub open spec fn mime_type(content_type: Seq<char>) -> Seq<char> {
    let p = crate::lastfm::find_char(content_type, ';');
    trimmed(content_type.take(p))
}

/// The file extension an image of a MIME type is saved with.
pub open spec fn image_extension(mime: Seq<char>) -> Seq<char> {
    if mime == "image/avif"@ {
        "avif"@
    } else if mime == "image/gif"@ {
        "gif"@
    } else if mime == "image/jpeg"@ || mime == "image/jpg"@ {
        "jpg"@
    } else if mime == "image/png"@ {
        "png"@
    } else if mime == "image/svg+xml"@ {
        "svg"@
    } else if mime == "image/webp"@ {
        "webp"@
    } else {
        "img"@
    }
}

/// The file extension for an image of the given Content-Type.
pub fn image_extension_from_content_type(content_type: &str) -> (r: &'static str)
    ensures
        r@ == image_extension(mime_type(content_type@)),
{
    let chars = chars_of(content_type);
    let n = chars.len();
    let mut p: usize = 0;
    assert(chars@.skip(0) =~= chars@);
    while p < n && chars[p] != ';'
        invariant
            n == chars@.len(),
            p <= n,
            crate::lastfm::find_char(chars@, ';') == p + crate::lastfm::find_char(chars@.skip(p as int), ';'),
        decreases n - p,
    {
        proof {
            assert(chars@.skip(p as int).drop_first() =~= chars@.skip(p + 1));
            assert(chars@.skip(p as int)[0] == chars@[p as int]);
        }
        p = p + 1;
    }
    proof {
        if p < n {
            assert(chars@.skip(p as int)[0] == chars@[p as int]);
        } else {
            assert(chars@.skip(p as int).len() == 0);
        }
    }
    let mut head = String::new();
    let mut i: usize = 0;
    while i < p
        invariant
            i <= p,
            p <= chars@.len(),
            head@ == chars@.take(i as int),
        decreases p - i,
    {
        push_char(&mut head, chars[i]);
        assert(head@ =~= chars@.take(i + 1));
        i = i + 1;
    }
    let mime = trim_whitespace(head.as_str());
    let m = mime.as_str();
    if crate::text::str_eq(m, "image/avif") {
        "avif"
    } else if crate::text::str_eq(m, "image/gif") {
        "gif"
    } else if crate::text::str_eq(m, "image/jpeg") || crate::text::str_eq(m, "image/jpg") {
        "jpg"
    } else if crate::text::str_eq(m, "image/png") {
        "png"
    } else if crate::text::str_eq(m, "image/svg+xml") {
        "svg"
    } else if crate::text::str_eq(m, "image/webp") {
        "webp"
    } else {
        "img"
    }
}

/// A bit rate in bits per second: values from 1 to 9999 are taken to be
/// kilobits per second and multiplied by 1000; the result is cut to `i32`.
pub fn normalize_bitrate_to_bps(bit_rate: i64) -> (r: i32)
    ensures
        r == (if 1 <= bit_rate < 10000 { bit_rate * 1000 } else { bit_rate as int }) as i32,
{
    let normalized: i64 = if 1 <= bit_rate && bit_rate < 10000 {
        bit_rate * 1000
    } else {
        bit_rate
    };
    normalized as i32
}


// ---------------------------------------------------------------------------
// Audio streams.
// ---------------------------------------------------------------------------

/// The direct (static) stream of an item, for containers that can be
/// seeked in: `<server>/Audio/<id>/stream?api_key=<token>&static=true`.
pub open spec fn static_stream_url(server: Seq<char>, token: Seq<char>, item_id: Seq<char>) -> Seq<char> {
    trim_end_slashes(server) + "/Audio/"@ + item_id + "/stream?api_key="@ + token + "&static=true"@
}

/// The AAC stream of an item, for other containers:
/// `<server>/Audio/<id>/stream.aac?api_key=<token>`.
pub open spec fn aac_stream_url(server: Seq<char>, token: Seq<char>, item_id: Seq<char>) -> Seq<char> {
    trim_end_slashes(server) + "/Audio/"@ + item_id + "/stream.aac?api_key="@ + token
}

/// The query that asks the universal endpoint for a progressive AAC
/// transcode over http.
pub open spec fn universal_query() -> Seq<char> {
    "&container=mp3,aac,m4a|aac,flac,ogg&transcodingContainer=aac&transcodingProtocol=http&audioCodec=aac&maxStreamingBitrate=999999999"@
}

/// The universal (transcoding) stream of an item:
/// `<server>/Audio/<id>/universal?api_key=<token>` and `universal_query`.
pub open spec fn universal_stream_url(server: Seq<char>, token: Seq<char>, item_id: Seq<char>) -> Seq<char> {
    trim_end_slashes(server) + "/Audio/"@ + item_id + "/universal?api_key="@ + token + universal_query()
}

/// The progressive stream URL of an item: the static stream when its
/// container can be seeked in (`seekable`), else the AAC stream.
pub fn get_audio_stream_url(server_url: &str, token: &str, item_id: &str, seekable: bool) -> (url: String)
    ensures
        seekable ==> url@ == static_stream_url(server_url@, token@, item_id@),
        !seekable ==> url@ == aac_stream_url(server_url@, token@, item_id@),
{
    let mut url = without_trailing_slashes(server_url);
    push_str(&mut url, "/Audio/");
    push_str(&mut url, item_id);
    if seekable {
        push_str(&mut url, "/stream?api_key=");
        push_str(&mut url, token);
        push_str(&mut url, "&static=true");
    } else {
        push_str(&mut url, "/stream.aac?api_key=");
        push_str(&mut url, token);
    }
    url
}

/// The stream URL of an item for mobile players: the static stream when its
/// container can be seeked in (`seekable`), else the universal endpoint
/// transcoding to progressive AAC over http.
pub fn get_mobile_audio_stream_url(server_url: &str, token: &str, item_id: &str, seekable: bool) -> (url: String)
    ensures
        seekable ==> url@ == static_stream_url(server_url@, token@, item_id@),
        !seekable ==> url@ == universal_stream_url(server_url@, token@, item_id@),
{
    let mut url = without_trailing_slashes(server_url);
    push_str(&mut url, "/Audio/");
    push_str(&mut url, item_id);
    if seekable {
        push_str(&mut url, "/stream?api_key=");
        push_str(&mut url, token);
        push_str(&mut url, "&static=true");
    } else {
        push_str(&mut url, "/universal?api_key=");
        push_str(&mut url, token);
        push_str(
            &mut url,
            "&container=mp3,aac,m4a|aac,flac,ogg&transcodingContainer=aac&transcodingProtocol=http&audioCodec=aac&maxStreamingBitrate=999999999",
        );
    }
    url
}

/// The stream URL for mobile playback of an item whose container can be
/// seeked in or not (see `get_mobile_audio_stream_url`).
pub fn build_mobile_stream_url(server_url: String, token: String, item_id: String, seekable: bool) -> (url: String)
    ensures
        seekable ==> url@ == static_stream_url(server_url@, token@, item_id@),
        !seekable ==> url@ == universal_stream_url(server_url@, token@, item_id@),
{
    get_mobile_audio_stream_url(server_url.as_str(), token.as_str(), item_id.as_str(), seekable)
}

/// The progressive stream URL for the desktop player of an item whose
/// container can be seeked in or not (see `get_audio_stream_url`).
pub fn build_desktop_stream_url(server_url: String, token: String, item_id: String, seekable: bool) -> (url: String)
    ensures
        seekable ==> url@ == static_stream_url(server_url@, token@, item_id@),
        !seekable ==> url@ == aac_stream_url(server_url@, token@, item_id@),
{
    get_audio_stream_url(server_url.as_str(), token.as_str(), item_id.as_str(), seekable)
}

} // verus!
