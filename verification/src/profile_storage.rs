//! Where a profile's data lives: a stable directory name per provider,
//! user and server, and the paths built from it.
use vstd::prelude::*;
use std::hash::{Hash, Hasher};
use std::collections::hash_map::DefaultHasher;
use crate::models::{BackendProvider, Credentials};
use crate::text::{chars_of, hex_padded, owned, push_char, push_hex_padded, push_str};

verus! {

// ---------------------------------------------------------------------------
// Paths.
// ---------------------------------------------------------------------------

/// `name` joined under the directory `base` (`Path::join` on Unix for a
/// relative name): a separator is put between them unless `base` is empty
/// or already ends with one.
pub open spec fn join_path(base: Seq<char>, name: Seq<char>) -> Seq<char> {
    if base.len() == 0 {
        name
    } else if base.last() == '/' {
        base + name
    } else {
        base + seq!['/'] + name
    }
}

/// The path of `name` under the directory `base`.
pub fn join(base: &str, name: &str) -> (r: String)
    ensures
        r@ == join_path(base@, name@),
{
    let n = base.unicode_len();
    let mut r = owned(base);
    if n > 0 && base.get_char(n - 1) != '/' {
        push_char(&mut r, '/');
    }
    push_str(&mut r, name);
    proof {
        if n == 0 {
            assert(r@ =~= name@);
        }
    }
    r
}

// ---------------------------------------------------------------------------
// Normalized names.
// ---------------------------------------------------------------------------

/// Unicode White_Space, the whitespace `str::trim` removes.
pub open spec fn is_whitespace(c: char) -> bool {
    let x = c as u32;
    ||| (0x9 <= x <= 0xd)
    ||| x == 0x20
    ||| x == 0x85
    ||| x == 0xa0
    ||| x == 0x1680
    ||| (0x2000 <= x <= 0x200a)
    ||| x == 0x2028
    ||| x == 0x2029
    ||| x == 0x202f
    ||| x == 0x205f
    ||| x == 0x3000
}

fn char_is_whitespace(c: char) -> (b: bool)
    ensures
        b == is_whitespace(c),
{
    let x = c as u32;
    (0x9 <= x && x <= 0xd) || x == 0x20 || x == 0x85 || x == 0xa0 || x == 0x1680 || (0x2000 <= x
        && x <= 0x200a) || x == 0x2028 || x == 0x2029 || x == 0x202f || x == 0x205f || x == 0x3000
}

/// `s` without the characters satisfying `p` at its start.
pub open spec fn strip_leading(s: Seq<char>, p: spec_fn(char) -> bool) -> Seq<char>
    decreases s.len(),
{
    if s.len() > 0 && p(s[0]) {
        strip_leading(s.drop_first(), p)
    } else {
        s
    }
}

/// `s` without the characters satisfying `p` at its end.
pub open spec fn strip_trailing(s: Seq<char>, p: spec_fn(char) -> bool) -> Seq<char>
    decreases s.len(),
{
    if s.len() > 0 && p(s.last()) {
        strip_trailing(s.drop_last(), p)
    } else {
        s
    }
}

/// `s` without the characters satisfying `p` at either end.
pub open spec fn strip_both(s: Seq<char>, p: spec_fn(char) -> bool) -> Seq<char> {
    strip_trailing(strip_leading(s, p), p)
}

/// The characters of `s` from `a` to `b` after dropping those satisfying
/// `p` at both ends: the stripped sequence is `s[a..b]`.
proof fn lemma_strip_bounds(s: Seq<char>, p: spec_fn(char) -> bool, a: int, b: int)
    requires
        0 <= a <= b <= s.len(),
        forall|i: int| 0 <= i < a ==> p(#[trigger] s[i]),
        a < b ==> !p(s[a]) && !p(s[b - 1]),
        a == b ==> forall|i: int| 0 <= i < s.len() ==> p(#[trigger] s[i]),
        forall|i: int| b <= i < s.len() ==> p(#[trigger] s[i]),
    ensures
        strip_both(s, p) == s.subrange(a, b),
{
    let t = s.subrange(a, s.len() as int);
    if a == b {
        lemma_strip_leading(s, p, s.len() as int);
        assert(strip_leading(s, p) =~= seq![]);
        assert(s.subrange(a, b) =~= seq![]);
    } else {
        lemma_strip_leading(s, p, a);
        assert(strip_leading(s, p) == t);
        lemma_strip_trailing(t, p, b - a);
        assert(t.subrange(0, b - a) =~= s.subrange(a, b));
    }
}

proof fn lemma_strip_leading(s: Seq<char>, p: spec_fn(char) -> bool, a: int)
    requires
        0 <= a <= s.len(),
        forall|i: int| 0 <= i < a ==> p(#[trigger] s[i]),
        a < s.len() ==> !p(s[a]),
    ensures
        strip_leading(s, p) == s.subrange(a, s.len() as int),
    decreases a,
{
    if a == 0 {
        assert(s.subrange(0, s.len() as int) =~= s);
    } else {
        let d = s.drop_first();
        assert forall|i: int| 0 <= i < a - 1 implies p(#[trigger] d[i]) by {
            assert(d[i] == s[i + 1]);
        }
        lemma_strip_leading(d, p, a - 1);
        assert(d.subrange(a - 1, d.len() as int) =~= s.subrange(a, s.len() as int));
    }
}

proof fn lemma_strip_trailing(s: Seq<char>, p: spec_fn(char) -> bool, b: int)
    requires
        0 <= b <= s.len(),
        forall|i: int| b <= i < s.len() ==> p(#[trigger] s[i]),
        b > 0 ==> !p(s[b - 1]),
    ensures
        strip_trailing(s, p) == s.subrange(0, b),
    decreases s.len() - b,
{
    if b == s.len() {
        assert(s.subrange(0, b) =~= s);
    } else {
        let d = s.drop_last();
        assert forall|i: int| b <= i < d.len() implies p(#[trigger] d[i]) by {
            assert(d[i] == s[i]);
        }
        lemma_strip_trailing(d, p, b);
        assert(d.subrange(0, b) =~= s.subrange(0, b));
    }
}

fn strip_char(c: char, dash: bool) -> (b: bool)
    ensures
        b == (if dash { c == '-' } else { is_whitespace(c) }),
{
    if dash {
        c == '-'
    } else {
        char_is_whitespace(c)
    }
}

/// The characters of `s` with the ends stripped of those satisfying `p`,
/// given as the bounds of what remains.
fn stripped_bounds(s: &Vec<char>, dash: bool) -> (r: (usize, usize))
    ensures
        r.0 <= r.1 <= s@.len(),
        strip_both(s@, if dash { |c: char| c == '-' } else { |c: char| is_whitespace(c) })
            == s@.subrange(r.0 as int, r.1 as int),
{
    let ghost p: spec_fn(char) -> bool = if dash {
        |c: char| c == '-'
    } else {
        |c: char| is_whitespace(c)
    };
    let n = s.len();
    let mut a: usize = 0;
    while a < n && strip_char(s[a], dash)
        invariant
            a <= n,
            n == s@.len(),
            forall|i: int| 0 <= i < a ==> p(#[trigger] s@[i]),
            p == (if dash { |c: char| c == '-' } else { |c: char| is_whitespace(c) }),
        decreases n - a,
    {
        a = a + 1;
    }
    let mut b: usize = n;
    while b > a && strip_char(s[b - 1], dash)
        invariant
            a <= b <= n,
            n == s@.len(),
            forall|i: int| b <= i < n ==> p(#[trigger] s@[i]),
            p == (if dash { |c: char| c == '-' } else { |c: char| is_whitespace(c) }),
        decreases b,
    {
        b = b - 1;
    }
    proof {
        lemma_strip_bounds(s@, p, a as int, b as int);
    }
    (a, b)
}

pub(crate) fn string_from(s: &Vec<char>, a: usize, b: usize) -> (r: String)
    requires
        a <= b <= s@.len(),
    ensures
        r@ == s@.subrange(a as int, b as int),
{
    let mut r = String::new();
    let mut i = a;
    while i < b
        invariant
            a <= i <= b,
            b <= s@.len(),
            r@ == s@.subrange(a as int, i as int),
        decreases b - i,
    {
        push_char(&mut r, s[i]);
        assert(r@ =~= s@.subrange(a as int, i + 1));
        i = i + 1;
    }
    r
}

/// `s` without leading and trailing Unicode whitespace (`str::trim`).
pub open spec fn trimmed(s: Seq<char>) -> Seq<char> {
    strip_both(s, |c: char| is_whitespace(c))
}

/// A copy of `s` without leading and trailing whitespace.
pub fn trim_whitespace(s: &str) -> (r: String)
    ensures
        r@ == trimmed(s@),
{
    let chars = chars_of(s);
    let (a, b) = stripped_bounds(&chars, false);
    string_from(&chars, a, b)
}

/// The Unicode lowercase mapping of a string (`str::to_lowercase`).
pub uninterp spec fn lowercase(s: Seq<char>) -> Seq<char>;

/// `str::to_lowercase`: the string mapped to lowercase.
#[verifier::external_body]
pub(crate) fn to_lowercase(s: &str) -> (r: String)
    ensures
        r@ == lowercase(s@),
{
    s.to_lowercase()
}

/// An ASCII letter or digit.
pub open spec fn is_ascii_alnum(c: char) -> bool {
    ('0' <= c <= '9') || ('a' <= c <= 'z') || ('A' <= c <= 'Z')
}

/// The characters with every run of non-alphanumeric characters replaced by
/// one '-', and whether the last character seen was such a run.
pub open spec fn dashed(s: Seq<char>) -> (Seq<char>, bool)
    decreases s.len(),
{
    if s.len() == 0 {
        (seq![], false)
    } else {
        let (r, dash) = dashed(s.drop_last());
        if is_ascii_alnum(s.last()) {
            (r.push(s.last()), false)
        } else if !dash {
            (r.push('-'), true)
        } else {
            (r, true)
        }
    }
}

/// A name component as it enters a directory name: trimmed, lowercased,
/// each run of characters other than ASCII letters and digits made one '-',
/// and dashes trimmed off both ends.
pub open spec fn normalized(value: Seq<char>) -> Seq<char> {
    strip_both(dashed(lowercase(trimmed(value))).0, |c: char| c == '-')
}

/// Normalizes a name component for use in a directory name.
pub fn normalize_component(value: &str) -> (r: String)
    ensures
        r@ == normalized(value@),
{
    let t = trim_whitespace(value);
    let lower = to_lowercase(t.as_str());
    let chars = chars_of(lower.as_str());
    let ghost src = chars@;
    let mut out: Vec<char> = Vec::new();
    let mut previous_was_dash = false;
    let mut i: usize = 0;
    while i < chars.len()
        invariant
            i <= chars@.len(),
            src == chars@,
            (out@, previous_was_dash) == dashed(src.take(i as int)),
        decreases chars@.len() - i,
    {
        let ch = chars[i];
        proof {
            assert(src.take(i + 1).drop_last() =~= src.take(i as int));
            assert(src.take(i + 1).last() == ch);
        }
        if ('0' <= ch && ch <= '9') || ('a' <= ch && ch <= 'z') || ('A' <= ch && ch <= 'Z') {
            out.push(ch);
            previous_was_dash = false;
        } else if !previous_was_dash {
            out.push('-');
            previous_was_dash = true;
        }
        i = i + 1;
    }
    assert(src.take(chars@.len() as int) =~= src);
    let (a, b) = stripped_bounds(&out, true);
    string_from(&out, a, b)
}

// ---------------------------------------------------------------------------
// Profile keys and directories.
// ---------------------------------------------------------------------------

/// The hash `DefaultHasher::new()` gives a string.
pub uninterp spec fn default_hash(s: Seq<char>) -> u64;

/// Hashes `s` with a fresh `DefaultHasher` (`Hash::hash`, then `finish`).
#[verifier::external_body]
fn hash_text(s: &str) -> (h: u64)
    ensures
        h == default_hash(s@),
{
    let mut hasher = DefaultHasher::new();
    s.hash(&mut hasher);
    hasher.finish()
}

/// The name of a provider in directory names.
pub open spec fn provider_name(p: BackendProvider) -> Seq<char> {
    match p {
        BackendProvider::Jellyfin => "jellyfin"@,
    }
}

/// The directory name of a profile: the provider, the normalized user name
/// and server, joined by '-', then '-' and a 16-digit hexadecimal checksum
/// of the provider, trimmed lowercased user name and server joined by '|'.
pub open spec fn storage_key(c: Credentials) -> Seq<char> {
    let provider = provider_name(c.provider);
    let slug = provider + seq!['-'] + normalized(c.username@) + seq!['-'] + normalized(
        c.server_url@,
    );
    let stable_raw = provider + seq!['|'] + lowercase(trimmed(c.username@)) + seq!['|']
        + lowercase(trimmed(c.server_url@));
    slug + seq!['-'] + hex_padded(default_hash(stable_raw) as nat, 16)
}

/// The storage key of a profile.
pub fn profile_storage_key(credentials: &Credentials) -> (r: String)
    ensures
        r@ == storage_key(*credentials),
{
    let provider = match credentials.provider {
        BackendProvider::Jellyfin => "jellyfin",
    };
    let normalized_username = normalize_component(credentials.username.as_str());
    let normalized_server = normalize_component(credentials.server_url.as_str());
    let mut slug = owned(provider);
    push_char(&mut slug, '-');
    push_str(&mut slug, normalized_username.as_str());
    push_char(&mut slug, '-');
    push_str(&mut slug, normalized_server.as_str());
    let user = to_lowercase(trim_whitespace(credentials.username.as_str()).as_str());
    let server = to_lowercase(trim_whitespace(credentials.server_url.as_str()).as_str());
    let mut stable_raw = owned(provider);
    push_char(&mut stable_raw, '|');
    push_str(&mut stable_raw, user.as_str());
    push_char(&mut stable_raw, '|');
    push_str(&mut stable_raw, server.as_str());
    let checksum = hash_text(stable_raw.as_str());
    let mut key = slug;
    push_char(&mut key, '-');
    push_hex_padded(&mut key, checksum, 16);
    proof {
        assert(stable_raw@ =~= provider_name(credentials.provider) + seq!['|'] + lowercase(
            trimmed(credentials.username@),
        ) + seq!['|'] + lowercase(trimmed(credentials.server_url@)));
        assert(key@ =~= storage_key(*credentials));
    }
    key
}

/// The data directory of a profile: `profiles/<storage key>` under `base_dir`.
pub fn profile_data_dir(base_dir: &str, credentials: &Credentials) -> (r: String)
    ensures
        r@ == join_path(join_path(base_dir@, "profiles"@), storage_key(*credentials)),
{
    let profiles = join(base_dir, "profiles");
    let key = profile_storage_key(credentials);
    join(profiles.as_str(), key.as_str())
}

/// The data directory in use: the profile's when signed in, else the base
/// directory.
pub fn resolve_active_data_dir(base_dir: &str, credentials: Option<&Credentials>) -> (r: String)
    ensures
        r@ == match credentials {
            Some(c) => join_path(join_path(base_dir@, "profiles"@), storage_key(*c)),
            None => base_dir@,
        },
{
    match credentials {
        Some(c) => profile_data_dir(base_dir, c),
        None => owned(base_dir),
    }
}

/// The legacy database file under a directory, as checked and migrated
/// into a profile directory.
pub fn database_path(dir: &str) -> (r: String)
    ensures
        r@ == join_path(dir@, "aurelia.redb"@),
{
    join(dir, "aurelia.redb")
}

/// Two sign-ins of the same provider whose user names and server addresses
/// agree once trimmed and lowercased share one storage key, and so one data
/// directory.
pub proof fn lemma_storage_key_stable(a: Credentials, b: Credentials)
    requires
        a.provider == b.provider,
        lowercase(trimmed(a.username@)) == lowercase(trimmed(b.username@)),
        lowercase(trimmed(a.server_url@)) == lowercase(trimmed(b.server_url@)),
    ensures
        storage_key(a) == storage_key(b),
{
}

} // verus!
