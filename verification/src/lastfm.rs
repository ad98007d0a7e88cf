//! Last.fm: request signing, the session state, the parameters of the
//! authentication, scrobble and now-playing requests, and the token in the
//! authentication callback.
use vstd::prelude::*;
use vstd::string::*;
use crate::order::{SortKey, keyed_views, sort_desc, sort_desc_by_key};
use crate::text::{
    chars_of,
    compare_str,
    decimal,
    hex_padded,
    lemma_lt_irreflexive,
    lemma_lt_total,
    lemma_lt_transitive,
    owned,
    push_char,
    push_decimal,
    push_hex_padded,
    push_str,
    seq_lt,
};

verus! {

/// A Last.fm session: the session key, the user it belongs to and the API
/// key it was obtained with.
#[derive(Clone, Debug, PartialEq)]
pub struct LastFmCredentials {
    pub session_key: String,
    pub username: String,
    pub api_key: Option<String>,
}

/// The Last.fm state of the client: the session, if any, and the API secret
/// requests are signed with.
#[derive(Clone, Debug, PartialEq)]
pub struct LastFmState {
    pub credentials: Option<LastFmCredentials>,
    pub api_secret: Option<String>,
}

impl LastFmState {
    /// No session and no secret.
    pub fn new() -> (s: LastFmState)
        ensures
            s.credentials is None,
            s.api_secret is None,
    {
        LastFmState { credentials: None, api_secret: None }
    }
}

/// Stores the API secret.
pub fn lastfm_set_api_secret(api_secret: String, state: &mut LastFmState)
    ensures
        *final(state) == (LastFmState { api_secret: Some(api_secret), ..*old(state) }),
{
    state.api_secret = Some(api_secret);
}

/// Stores the session.
pub fn lastfm_set_credentials(credentials: LastFmCredentials, state: &mut LastFmState)
    ensures
        *final(state) == (LastFmState { credentials: Some(credentials), ..*old(state) }),
{
    state.credentials = Some(credentials);
}

/// Forgets the session and the API secret.
pub fn lastfm_clear_credentials(state: &mut LastFmState)
    ensures
        final(state).credentials is None,
        final(state).api_secret is None,
{
    state.credentials = None;
    state.api_secret = None;
}

/// Whether a session is stored.
pub fn lastfm_is_authenticated(state: &LastFmState) -> (b: bool)
    ensures
        b == state.credentials is Some,
{
    state.credentials.is_some()
}

// ---------------------------------------------------------------------------
// Request signing.
// ---------------------------------------------------------------------------

/// A parameter name, ordered so that a greatest-first sort puts names in
/// ascending code point order.
pub struct ParamName {
    pub name: String,
}

impl SortKey for ParamName {
    open spec fn key_lt(a: ParamName, b: ParamName) -> bool {
        seq_lt(b.name@, a.name@)
    }

    proof fn lemma_key_order(a: ParamName, b: ParamName, c: ParamName) {
        let (x, y, z) = (a.name@, b.name@, c.name@);
        lemma_lt_irreflexive(x);
        if seq_lt(y, x) && seq_lt(z, y) {
            lemma_lt_transitive(z, y, x);
        }
        if !seq_lt(y, x) && !seq_lt(z, y) && seq_lt(z, x) {
            if x != y {
                lemma_lt_total(x, y);
                lemma_lt_transitive(z, x, y);
            }
            if y != z {
                lemma_lt_total(y, z);
                lemma_lt_transitive(y, z, x);
            }
            lemma_lt_irreflexive(z);
        }
    }

    fn key_less(&self, other: &ParamName) -> (r: bool) {
        compare_str(other.name.as_str(), self.name.as_str()) < 0
    }
}

/// The MD5 digest of the UTF-8 bytes of a string.
pub uninterp spec fn md5_of(s: Seq<char>) -> Seq<u8>;

/// `md5::compute` over the bytes of `data`: the 16 bytes of its digest.
#[verifier::external_body]
fn md5_digest(data: &str) -> (r: Vec<u8>)
    ensures
        r@ == md5_of(data@),
        r@.len() == 16,
{
    md5::compute(data.as_bytes()).0.to_vec()
}

/// Bytes as lowercase hexadecimal, two digits each (`{:x}` of a digest).
pub open spec fn hex_bytes(b: Seq<u8>) -> Seq<char>
    decreases b.len(),
{
    if b.len() == 0 {
        seq![]
    } else {
        hex_bytes(b.drop_last()) + hex_padded(b.last() as nat, 2)
    }
}

/// The MD5 digest of `data`, in lowercase hexadecimal.
pub(crate) fn md5_hex(data: &str) -> (r: String)
    ensures
        r@ == hex_bytes(md5_of(data@)),
{
    let digest = md5_digest(data);
    let mut r = String::new();
    let mut k: usize = 0;
    while k < digest.len()
        invariant
            k <= digest@.len(),
            r@ == hex_bytes(digest@.take(k as int)),
        decreases digest@.len() - k,
    {
        proof {
            assert(digest@.take(k + 1).drop_last() =~= digest@.take(k as int));
        }
        push_hex_padded(&mut r, digest[k] as u64, 2);
        k = k + 1;
    }
    assert(digest@.take(digest@.len() as int) =~= digest@);
    r
}

/// The parameters keyed by name for sorting.
pub open spec fn named_params(params: Seq<(String, String)>) -> Seq<(ParamName, Seq<char>)> {
    params.map_values(|p: (String, String)| (ParamName { name: p.0 }, p.1@))
}

/// Names and values concatenated in order.
pub open spec fn concat_params(s: Seq<(ParamName, Seq<char>)>) -> Seq<char>
    decreases s.len(),
{
    if s.len() == 0 {
        seq![]
    } else {
        concat_params(s.drop_last()) + s.last().0.name@ + s.last().1
    }
}

/// The string a request signature is the digest of: the parameters sorted
/// stably by name, each name followed by its value, then the secret.
pub open spec fn signature_base(params: Seq<(String, String)>, secret: Seq<char>) -> Seq<char> {
    concat_params(sort_desc(named_params(params))) + secret
}

/// The Last.fm API signature of the parameters: the MD5 digest, in lowercase
/// hexadecimal, of the parameters sorted by name with each name followed by
/// its value, and the secret at the end.
pub fn build_api_signature(params: &[(String, String)], api_secret: &str) -> (r: String)
    ensures
        r@ == hex_bytes(md5_of(signature_base(params@, api_secret@))),
{
    let ghost np = named_params(params@);
    let mut entries: Vec<(ParamName, String)> = Vec::new();
    let mut i: usize = 0;
    while i < params.len()
        invariant
            i <= params@.len(),
            np == named_params(params@),
            keyed_views(entries@) == np.take(i as int),
        decreases params@.len() - i,
    {
        let ghost prev = keyed_views(entries@);
        entries.push((ParamName { name: params[i].0.clone() }, params[i].1.clone()));
        assert(keyed_views(entries@) =~= prev.push(np[i as int]));
        assert(np.take(i + 1) =~= np.take(i as int).push(np[i as int]));
        i = i + 1;
    }
    assert(np.take(params@.len() as int) =~= np);
    let sorted = sort_desc_by_key(entries);
    let ghost sd = keyed_views(sorted@);
    let mut base = String::new();
    let mut j: usize = 0;
    while j < sorted.len()
        invariant
            j <= sorted@.len(),
            sd == keyed_views(sorted@),
            base@ == concat_params(sd.take(j as int)),
        decreases sorted@.len() - j,
    {
        proof {
            assert(sd.take(j + 1).drop_last() =~= sd.take(j as int));
            assert(sd.take(j + 1).last() == sd[j as int]);
        }
        push_str(&mut base, sorted[j].0.name.as_str());
        push_str(&mut base, sorted[j].1.as_str());
        assert(base@ =~= concat_params(sd.take(j as int)) + sd[j as int].0.name@ + sd[j as int].1);
        j = j + 1;
    }
    assert(sd.take(sorted@.len() as int) =~= sd);
    push_str(&mut base, api_secret);
    md5_hex(base.as_str())
}

/// The parameters other than "format", in order.
pub open spec fn without_format(params: Seq<(String, String)>) -> Seq<(String, String)>
    decreases params.len(),
{
    if params.len() == 0 {
        seq![]
    } else {
        let r = without_format(params.drop_last());
        if params.last().0@ == "format"@ {
            r
        } else {
            r.push(params.last())
        }
    }
}

/// `r` is `params` signed with `secret`: followed by the signature (of all
/// parameters but "format") under "api_sig", and by "format" set to "json".
pub open spec fn signed(r: Seq<(String, String)>, params: Seq<(String, String)>, secret: Seq<char>) -> bool {
    &&& r.len() == params.len() + 2
    &&& r.take(params.len() as int) == params
    &&& r[params.len() as int].0@ == "api_sig"@
    &&& r[params.len() as int].1@ == hex_bytes(md5_of(signature_base(without_format(params), secret)))
    &&& r[params.len() + 1int].0@ == "format"@
    &&& r[params.len() + 1int].1@ == "json"@
}

/// Signs the parameters of a Last.fm request: appends the signature of all
/// parameters but "format" as "api_sig", and "format" = "json".
pub fn sign_request_params(params: Vec<(String, String)>, api_secret: &str) -> (r: Vec<(String, String)>)
    ensures
        signed(r@, params@, api_secret@),
{
    let mut signature_params: Vec<(String, String)> = Vec::new();
    let mut i: usize = 0;
    while i < params.len()
        invariant
            i <= params@.len(),
            signature_params@ == without_format(params@.take(i as int)),
        decreases params@.len() - i,
    {
        proof {
            assert(params@.take(i + 1).drop_last() =~= params@.take(i as int));
            assert(params@.take(i + 1).last() == params@[i as int]);
        }
        if compare_str(params[i].0.as_str(), "format") != 0 {
            signature_params.push((params[i].0.clone(), params[i].1.clone()));
        }
        i = i + 1;
    }
    assert(params@.take(params@.len() as int) =~= params@);
    let api_sig = build_api_signature(signature_params.as_slice(), api_secret);
    let ghost p0 = params@;
    let mut out = params;
    out.push((owned("api_sig"), api_sig));
    out.push((owned("format"), owned("json")));
    assert(out@.take(p0.len() as int) =~= p0);
    out
}

// ---------------------------------------------------------------------------
// Requests.
// ---------------------------------------------------------------------------

/// The decimal text of an integer (`to_string` of an `i64`).
pub open spec fn signed_decimal(n: int) -> Seq<char> {
    if n < 0 {
        seq!['-'] + decimal((-n) as nat)
    } else {
        decimal(n as nat)
    }
}

pub(crate) fn push_signed_decimal(s: &mut String, n: i64)
    ensures
        final(s)@ == old(s)@ + signed_decimal(n as int),
{
    if n < 0 {
        push_char(s, '-');
        let m: u64 = (-(n as i128)) as u64;
        push_decimal(s, m);
        assert(final(s)@ =~= old(s)@ + signed_decimal(n as int));
    } else {
        push_decimal(s, n as u64);
    }
}

/// A (name, value) pair from a literal name.
fn param(name: &str, value: String) -> (p: (String, String))
    ensures
        p.0@ == name@,
        p.1 == value,
{
    (owned(name), value)
}

/// Why a Last.fm request could not be made.
pub open spec fn session_error(state: LastFmState) -> Option<Seq<char>> {
    match state.credentials {
        None => Some("Not authenticated with Last.fm"@),
        Some(c) => match state.api_secret {
            None => Some("Last.fm API secret not available"@),
            Some(_) => match c.api_key {
                None => Some("Last.fm API key not available"@),
                Some(_) => None,
            },
        },
    }
}

/// `base` lists the track parameters of a session request: the API key,
/// the method, the session key, the artist and the track, then `extra`,
/// then the album when there is one.
pub open spec fn track_params(
    base: Seq<(String, String)>,
    c: LastFmCredentials,
    method: Seq<char>,
    artist: String,
    track: String,
    extra: Seq<(Seq<char>, Seq<char>)>,
    album: Option<String>,
) -> bool {
    let n: int = 5int + extra.len();
    &&& base.len() == n + (if album is Some { 1int } else { 0int })
    &&& base[0].0@ == "api_key"@ && Some(base[0].1) == c.api_key
    &&& base[1].0@ == "method"@ && base[1].1@ == method
    &&& base[2].0@ == "sk"@ && base[2].1 == c.session_key
    &&& base[3].0@ == "artist"@ && base[3].1 == artist
    &&& base[4].0@ == "track"@ && base[4].1 == track
    &&& forall|i: int| 0 <= i < extra.len() ==> (#[trigger] base[5 + i]).0@ == extra[i].0 && base[5 + i].1@ == extra[i].1
    &&& album matches Some(a) ==> base[n].0@ == "album"@ && base[n].1 == a
}

/// `v` is the signed request of a session method: the track parameters
/// of the stored session, signed with the stored secret.
pub open spec fn session_request(
    v: Seq<(String, String)>,
    state: LastFmState,
    method: Seq<char>,
    artist: String,
    track: String,
    extra: Seq<(Seq<char>, Seq<char>)>,
    album: Option<String>,
) -> bool {
    exists|base: Seq<(String, String)>|
        {
            &&& track_params(base, state.credentials->0, method, artist, track, extra, album)
            &&& signed(v, base, state.api_secret->0@)
        }
}

fn session_params(
    c: &LastFmCredentials,
    api_key: String,
    method: &str,
    artist: String,
    track: String,
) -> (v: Vec<(String, String)>)
    requires
        c.api_key == Some(api_key),
    ensures
        track_params(v@, *c, method@, artist, track, seq![], None),
{
    let mut v: Vec<(String, String)> = Vec::new();
    v.push(param("api_key", api_key));
    v.push(param("method", owned(method)));
    v.push(param("sk", c.session_key.clone()));
    v.push(param("artist", artist));
    v.push(param("track", track));
    v
}

/// The signed parameters of a scrobble of `track` by `artist` (on `album`),
/// at `timestamp` or else at `now` (seconds since the epoch); or the reason
/// no scrobble can be sent.
pub fn lastfm_scrobble_params(
    artist: String,
    track: String,
    album: Option<String>,
    timestamp: Option<i64>,
    now: i64,
    state: &LastFmState,
) -> (r: Result<Vec<(String, String)>, String>)
    ensures
        session_error(*state) matches Some(msg) ==> (r matches Err(e) && e@ == msg),
        session_error(*state) is None ==> (r matches Ok(v) && session_request(
            v@,
            *state,
            "track.scrobble"@,
            artist,
            track,
            seq![("timestamp"@, signed_decimal((match timestamp { Some(t) => t, None => now }) as int))],
            album,
        )),
{
    let c = match &state.credentials {
        Some(c) => c,
        None => {
            return Err(owned("Not authenticated with Last.fm"));
        },
    };
    let api_secret = match &state.api_secret {
        Some(s) => s,
        None => {
            return Err(owned("Last.fm API secret not available"));
        },
    };
    let ts = match timestamp {
        Some(t) => t,
        None => now,
    };
    let api_key = match &c.api_key {
        Some(k) => k.clone(),
        None => {
            return Err(owned("Last.fm API key not available"));
        },
    };
    let mut params = session_params(c, api_key, "track.scrobble", artist, track);
    let mut ts_text = String::new();
    push_signed_decimal(&mut ts_text, ts);
    assert(ts_text@ =~= signed_decimal(ts as int));
    params.push(param("timestamp", ts_text));
    match album {
        Some(a) => {
            params.push(param("album", a));
        },
        None => {},
    }
    let ghost base = params@;
    let signed_params = sign_request_params(params, api_secret.as_str());
    proof {
        let extra = seq![("timestamp"@, signed_decimal(ts as int))];
        assert(base[5int].0@ == extra[0].0 && base[5int].1@ == extra[0].1);
        assert(track_params(base, *c, "track.scrobble"@, artist, track, extra, album));
        assert(signed(signed_params@, base, api_secret@));
        assert(session_request(signed_params@, *state, "track.scrobble"@, artist, track, extra, album));
    }
    Ok(signed_params)
}

/// The signed parameters of a now-playing update for `track` by `artist`
/// (on `album`); or the reason none can be sent.
pub fn lastfm_update_now_playing_params(
    artist: String,
    track: String,
    album: Option<String>,
    state: &LastFmState,
) -> (r: Result<Vec<(String, String)>, String>)
    ensures
        session_error(*state) matches Some(msg) ==> (r matches Err(e) && e@ == msg),
        session_error(*state) is None ==> (r matches Ok(v) && session_request(
            v@,
            *state,
            "track.updateNowPlaying"@,
            artist,
            track,
            seq![],
            album,
        )),
{
    let c = match &state.credentials {
        Some(c) => c,
        None => {
            return Err(owned("Not authenticated with Last.fm"));
        },
    };
    let api_secret = match &state.api_secret {
        Some(s) => s,
        None => {
            return Err(owned("Last.fm API secret not available"));
        },
    };
    let api_key = match &c.api_key {
        Some(k) => k.clone(),
        None => {
            return Err(owned("Last.fm API key not available"));
        },
    };
    let mut params = session_params(c, api_key, "track.updateNowPlaying", artist, track);
    match album {
        Some(a) => {
            params.push(param("album", a));
        },
        None => {},
    }
    let ghost base = params@;
    let signed_params = sign_request_params(params, api_secret.as_str());
    proof {
        assert(track_params(base, *c, "track.updateNowPlaying"@, artist, track, seq![], album));
        assert(signed(signed_params@, base, api_secret@));
        assert(session_request(signed_params@, *state, "track.updateNowPlaying"@, artist, track, seq![], album));
    }
    Ok(signed_params)
}

/// The signed parameters of the request exchanging an authentication token
/// for a session.
pub fn lastfm_authenticate_params(api_key: String, api_secret: &str, token: String) -> (r: Vec<(String, String)>)
    ensures
        exists|base: Seq<(String, String)>|
            {
                &&& base.len() == 3
                &&& base[0].0@ == "api_key"@ && base[0].1 == api_key
                &&& base[1].0@ == "method"@ && base[1].1@ == "auth.getSession"@
                &&& base[2].0@ == "token"@ && base[2].1 == token
                &&& signed(r@, base, api_secret@)
            },
{
    let mut params: Vec<(String, String)> = Vec::new();
    params.push(param("api_key", api_key));
    params.push(param("method", owned("auth.getSession")));
    params.push(param("token", token));
    let ghost base = params@;
    sign_request_params(params, api_secret)
}

/// Records a session obtained with `api_key` and `api_secret`: the session
/// key and user name the server answered become the stored session, and the
/// secret is stored.
pub fn lastfm_complete_authentication(
    api_key: String,
    api_secret: String,
    session_name: String,
    session_key: String,
    state: &mut LastFmState,
) -> (c: LastFmCredentials)
    ensures
        c == (LastFmCredentials { session_key, username: session_name, api_key: Some(api_key) }),
        final(state).credentials == Some(c),
        final(state).api_secret == Some(api_secret),
{
    let credentials = LastFmCredentials {
        session_key,
        username: session_name,
        api_key: Some(api_key),
    };
    let copy = LastFmCredentials {
        session_key: credentials.session_key.clone(),
        username: credentials.username.clone(),
        api_key: match &credentials.api_key {
            Some(k) => Some(k.clone()),
            None => None,
        },
    };
    state.credentials = Some(copy);
    state.api_secret = Some(api_secret);
    credentials
}

// ---------------------------------------------------------------------------
// The authentication callback.
// ---------------------------------------------------------------------------

/// The index of the first `c` in `s`, or its length when there is none.
pub open spec fn find_char(s: Seq<char>, c: char) -> int
    decreases s.len(),
{
    if s.len() == 0 {
        0
    } else if s[0] == c {
        0
    } else {
        1 + find_char(s.drop_first(), c)
    }
}

/// The first line of `s` as `str::lines` gives it: up to the first line
/// feed, without a carriage return just before it; none for an empty string.
pub open spec fn first_line(s: Seq<char>) -> Option<Seq<char>> {
    if s.len() == 0 {
        None
    } else {
        let i = find_char(s, '\n');
        let line = s.take(i);
        if i < s.len() && line.len() > 0 && line.last() == '\r' {
            Some(line.drop_last())
        } else {
            Some(line)
        }
    }
}

/// The index of the first occurrence of `pat` in `s`.
pub open spec fn find_sub(s: Seq<char>, pat: Seq<char>) -> Option<int>
    decreases s.len(),
{
    if s.len() < pat.len() {
        None
    } else if s.take(pat.len() as int) == pat {
        Some(0)
    } else if s.len() == 0 {
        None
    } else {
        match find_sub(s.drop_first(), pat) {
            Some(i) => Some(i + 1),
            None => None,
        }
    }
}

/// The index of the first '&' or ' ' in `s`, or its length.
pub open spec fn find_token_end(s: Seq<char>) -> int
    decreases s.len(),
{
    if s.len() == 0 {
        0
    } else if s[0] == '&' || s[0] == ' ' {
        0
    } else {
        1 + find_token_end(s.drop_first())
    }
}

/// The text "token=".
pub open spec fn token_key() -> Seq<char> {
    seq!['t', 'o', 'k', 'e', 'n', '=']
}

/// The token of an authentication callback request: in its first line, what
/// follows the first "token=" up to the next '&' or ' ' (or the line's end).
pub open spec fn lastfm_token(request: Seq<char>) -> Option<Seq<char>> {
    match first_line(request) {
        None => None,
        Some(line) => match find_sub(line, token_key()) {
            None => None,
            Some(p) => {
                let rest = line.skip(p + 6);
                Some(rest.take(find_token_end(rest)))
            },
        },
    }
}

proof fn lemma_skip_drop_first(s: Seq<char>, i: int)
    requires
        0 <= i < s.len(),
    ensures
        s.skip(i).drop_first() == s.skip(i + 1),
        s.skip(i)[0] == s[i],
{
    assert(s.skip(i).drop_first() =~= s.skip(i + 1));
}

/// The token of a Last.fm authentication callback request: in its first
/// line, what follows the first "token=" up to the next '&' or ' '.
pub fn extract_lastfm_token(request: &str) -> (r: Option<String>)
    ensures
        match r {
            Some(t) => lastfm_token(request@) == Some(t@),
            None => lastfm_token(request@) is None,
        },
{
    let s = chars_of(request);
    let n = s.len();
    if n == 0 {
        return None;
    }
    let mut i: usize = 0;
    assert(s@.skip(0) =~= s@);
    while i < n && s[i] != '\n'
        invariant
            n == s@.len(),
            i <= n,
            find_char(s@, '\n') == i + find_char(s@.skip(i as int), '\n'),
        decreases n - i,
    {
        proof {
            lemma_skip_drop_first(s@, i as int);
        }
        i = i + 1;
    }
    proof {
        if i < n {
            lemma_skip_drop_first(s@, i as int);
        } else {
            assert(s@.skip(i as int).len() == 0);
        }
    }
    let mut end = i;
    if i < n && end > 0 && s[end - 1] == '\r' {
        end = end - 1;
    }
    let ghost line = s@.take(end as int);
    proof {
        let full = s@.take(i as int);
        if end < i {
            assert(line =~= full.drop_last());
        } else {
            assert(line =~= full);
        }
        assert(first_line(s@) == Some(line));
    }
    // Find "token=" in the line.
    let pat: [char; 6] = ['t', 'o', 'k', 'e', 'n', '='];
    assert(pat@ =~= token_key());
    let mut p: usize = 0;
    let mut found = false;
    assert(line.skip(0) =~= line);
    while 6 <= end - p && !found
        invariant
            end <= n,
            n == s@.len(),
            line == s@.take(end as int),
            pat@ == token_key(),
            p <= end,
            !found ==> find_sub(line, token_key()) == (match find_sub(line.skip(p as int), token_key()) {
                Some(k) => Some(k + p),
                None => None,
            }),
            found ==> p + 6 <= end && find_sub(line, token_key()) == Some(p as int),
        decreases end + 7 - p - (if found { 1int } else { 0int }),
    {
        let mut k: usize = 0;
        let mut same = true;
        while k < 6
            invariant
                k <= 6,
                p + 6 <= end,
                end <= n,
                n == s@.len(),
                pat@ == token_key(),
                same == (forall|j: int| 0 <= j < k ==> s@[p + j] == pat@[j]),
            decreases 6 - k,
        {
            if s[p + k] != pat[k] {
                same = false;
            }
            k = k + 1;
        }
        let ghost rest = line.skip(p as int);
        proof {
            assert(rest.len() >= 6);
            if same {
                assert(rest.take(6) =~= token_key());
            } else {
                let j = choose|j: int| 0 <= j < 6 && s@[p + j] != pat@[j];
                assert(rest.take(6)[j] != token_key()[j]);
            }
            assert(rest.drop_first() =~= line.skip(p + 1));
        }
        if same {
            found = true;
        } else {
            p = p + 1;
        }
    }
    if !found {
        proof {
            let rest = line.skip(p as int);
            assert(rest.len() < 6);
        }
        return None;
    }
    // The token runs from p + 6 to the first '&' or ' '.
    let start = p + 6;
    let ghost rest = line.skip(start as int);
    let mut q: usize = start;
    let mut token = String::new();
    while q < end && s[q] != '&' && s[q] != ' '
        invariant
            start <= q <= end,
            end <= n,
            n == s@.len(),
            line == s@.take(end as int),
            rest == line.skip(start as int),
            token@ == rest.take(q - start),
            find_token_end(rest) == (q - start) + find_token_end(line.skip(q as int)),
        decreases end - q,
    {
        proof {
            assert(line.skip(q as int).drop_first() =~= line.skip(q + 1));
            assert(line.skip(q as int)[0] == s@[q as int]);
        }
        push_char(&mut token, s[q]);
        assert(token@ =~= rest.take(q + 1 - start));
        q = q + 1;
    }
    proof {
        if q < end {
            assert(line.skip(q as int)[0] == s@[q as int]);
        } else {
            assert(line.skip(q as int).len() == 0);
        }
    }
    Some(token)
}

/// The field `name` (at `index` of `arity` fields) of a value read as a
/// struct: an object's member of that name, or an array's element when the
/// array has exactly `arity` elements.
pub open spec fn struct_field(v: crate::json::JsonValue, name: Seq<char>, index: int, arity: int) -> Option<crate::json::JsonValue> {
    match v {
        crate::json::JsonValue::Object(_) => if crate::json::has_key(v, name) {
            Some(crate::json::member(v, name))
        } else {
            None
        },
        crate::json::JsonValue::Array(items) => if items@.len() == arity {
            Some(items@[index])
        } else {
            None
        },
        _ => None,
    }
}

fn field_of<'a>(v: &'a crate::json::JsonValue, name: &str, index: usize, arity: usize) -> (r: Option<&'a crate::json::JsonValue>)
    requires
        index < arity,
    ensures
        match r {
            Some(x) => struct_field(*v, name@, index as int, arity as int) == Some(*x),
            None => struct_field(*v, name@, index as int, arity as int) is None,
        },
{
    match v {
        crate::json::JsonValue::Object(_) => crate::json::get(v, name),
        crate::json::JsonValue::Array(items) => if items.len() == arity {
            Some(&items[index])
        } else {
            None
        },
        _ => None,
    }
}

fn i32_of(v: Option<&crate::json::JsonValue>) -> (r: Option<i32>)
    ensures
        r == match v {
            Some(x) => crate::jellyfin_items::fit_i32(crate::json::int_of(*x)),
            None => None,
        },
{
    match v {
        Some(crate::json::JsonValue::Number { integer: Some(n), .. }) => if i32::MIN as i64 <= *n && *n <= i32::MAX as i64 {
            Some(*n as i32)
        } else {
            None
        },
        _ => None,
    }
}

fn text_of<'a>(v: Option<&'a crate::json::JsonValue>) -> (r: Option<&'a str>)
    ensures
        match r {
            Some(t) => (match v {
                Some(x) => crate::json::str_of(*x),
                None => None,
            }) == Some(t@),
            None => (match v {
                Some(x) => crate::json::str_of(*x),
                None => None,
            }) is None,
        },
{
    match v {
        Some(x) => crate::json::as_str(x),
        None => None,
    }
}

/// The error a Last.fm response reports: its code (an `i32`) and message,
/// when it has both.
pub open spec fn error_report(json: crate::json::JsonValue) -> Option<(i32, Seq<char>)> {
    let code = match struct_field(json, "error"@, 0, 2) {
        Some(x) => crate::jellyfin_items::fit_i32(crate::json::int_of(x)),
        None => None,
    };
    let message = match struct_field(json, "message"@, 1, 2) {
        Some(x) => crate::json::str_of(x),
        None => None,
    };
    match (code, message) {
        (Some(c), Some(m)) => Some((c, m)),
        _ => None,
    }
}

/// What a Last.fm response amounts to: an error when it reports one with a
/// nonzero code ("Last.fm error <code>: <message>"), else nothing.
pub fn lastfm_response_error(json: &crate::json::JsonValue) -> (r: Option<String>)
    ensures
        match error_report(*json) {
            Some((c, m)) => if c != 0 {
                r matches Some(e) && e@ == "Last.fm error "@ + signed_decimal(c as int) + ": "@ + m
            } else {
                r is None
            },
            None => r is None,
        },
{
    let code = i32_of(field_of(json, "error", 0, 2));
    let message = text_of(field_of(json, "message", 1, 2));
    match (code, message) {
        (Some(c), Some(m)) => if c != 0 {
            let mut e = owned("Last.fm error ");
            push_signed_decimal(&mut e, c as i64);
            push_str(&mut e, ": ");
            push_str(&mut e, m);
            Some(e)
        } else {
            None
        },
        _ => None,
    }
}

/// The session a Last.fm session response holds: its user name and key.
pub open spec fn session_of(json: crate::json::JsonValue) -> Option<(Seq<char>, Seq<char>)> {
    match struct_field(json, "session"@, 0, 1) {
        Some(session) => {
            let name = match struct_field(session, "name"@, 0, 2) {
                Some(x) => crate::json::str_of(x),
                None => None,
            };
            let key = match struct_field(session, "key"@, 1, 2) {
                Some(x) => crate::json::str_of(x),
                None => None,
            };
            match (name, key) {
                (Some(n), Some(k)) => Some((n, k)),
                _ => None,
            }
        },
        None => None,
    }
}

/// The user name and session key of a session response; none when it
/// does not hold both.
pub fn lastfm_session(json: &crate::json::JsonValue) -> (r: Option<(String, String)>)
    ensures
        match session_of(*json) {
            Some((n, k)) => r matches Some(p) && p.0@ == n && p.1@ == k,
            None => r is None,
        },
{
    match field_of(json, "session", 0, 1) {
        Some(session) => {
            let name = text_of(field_of(session, "name", 0, 2));
            let key = text_of(field_of(session, "key", 1, 2));
            match (name, key) {
                (Some(n), Some(k)) => Some((n.to_string(), k.to_string())),
                _ => None,
            }
        },
        None => None,
    }
}

} // verus!
