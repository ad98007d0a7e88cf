//! Character-sequence utilities: lexicographic order of strings (the order
//! in which the on-disk tables keep their keys), comparison, and a few
//! building blocks for producing strings char by char.
use vstd::prelude::*;
use vstd::string::*;

verus! {

/// `a` and `b` agree on their first `k` characters.
pub open spec fn agree_upto(a: Seq<char>, b: Seq<char>, k: int) -> bool {
    forall|j: int| 0 <= j < k ==> a[j] == b[j]
}

/// `k` is the position at which `a` first sorts before `b`.
pub open spec fn lt_at(a: Seq<char>, b: Seq<char>, k: int) -> bool {
    &&& 0 <= k <= a.len()
    &&& k <= b.len()
    &&& agree_upto(a, b, k)
    &&& ((k == a.len() && k < b.len()) || (k < a.len() && k < b.len() && (a[k] as int) < (b[k] as int)))
}

/// Strict lexicographic order by code point: the order of `str`'s `Ord`
/// (UTF-8 byte order and code point order agree).
pub open spec fn seq_lt(a: Seq<char>, b: Seq<char>) -> bool {
    exists|k: int| lt_at(a, b, k)
}

/// Lexicographic order, reflexive.
pub open spec fn seq_le(a: Seq<char>, b: Seq<char>) -> bool {
    a == b || seq_lt(a, b)
}

pub proof fn lemma_lt_irreflexive(a: Seq<char>)
    ensures
        !seq_lt(a, a),
{
}

pub proof fn lemma_lt_transitive(a: Seq<char>, b: Seq<char>, c: Seq<char>)
    requires
        seq_lt(a, b),
        seq_lt(b, c),
    ensures
        seq_lt(a, c),
{
    let k1 = choose|k: int| lt_at(a, b, k);
    let k2 = choose|k: int| lt_at(b, c, k);
    if k1 < k2 {
        assert(lt_at(a, c, k1));
    } else if k2 < k1 {
        assert(lt_at(a, c, k2));
    } else {
        assert(lt_at(a, c, k1));
    }
}

pub proof fn lemma_lt_asymmetric(a: Seq<char>, b: Seq<char>)
    requires
        seq_lt(a, b),
    ensures
        !seq_lt(b, a),
{
    if seq_lt(b, a) {
        lemma_lt_transitive(a, b, a);
    }
}

proof fn lemma_total_from(a: Seq<char>, b: Seq<char>, i: int)
    requires
        0 <= i <= a.len(),
        i <= b.len(),
        agree_upto(a, b, i),
        a != b,
    ensures
        seq_lt(a, b) || seq_lt(b, a),
    decreases a.len() - i,
{
    if i == a.len() && i == b.len() {
        assert(a =~= b);
    } else if i == a.len() {
        assert(lt_at(a, b, i));
    } else if i == b.len() {
        assert(lt_at(b, a, i));
    } else if a[i] != b[i] {
        if (a[i] as int) < (b[i] as int) {
            assert(lt_at(a, b, i));
        } else {
            assert(lt_at(b, a, i));
        }
    } else {
        lemma_total_from(a, b, i + 1);
    }
}

pub proof fn lemma_lt_total(a: Seq<char>, b: Seq<char>)
    requires
        a != b,
    ensures
        seq_lt(a, b) || seq_lt(b, a),
{
    lemma_total_from(a, b, 0);
}

/// Three-way comparison of two strings in code point order: negative when
/// `a` sorts first, zero when they are equal, positive when `b` sorts first.
pub fn compare_str(a: &str, b: &str) -> (r: i8)
    ensures
        r == 0 <==> a@ == b@,
        r < 0 <==> seq_lt(a@, b@),
        r > 0 <==> seq_lt(b@, a@),
        -1 <= r <= 1,
{
    let la = a.unicode_len();
    let lb = b.unicode_len();
    let mut i: usize = 0;
    while i < la && i < lb
        invariant
            la == a@.len(),
            lb == b@.len(),
            i <= la,
            i <= lb,
            agree_upto(a@, b@, i as int),
        decreases la - i,
    {
        let ca = a.get_char(i);
        let cb = b.get_char(i);
        if ca != cb {
            if (ca as u32) < (cb as u32) {
                proof {
                    assert(lt_at(a@, b@, i as int));
                    lemma_lt_asymmetric(a@, b@);
                }
                return -1;
            } else {
                proof {
                    assert(lt_at(b@, a@, i as int));
                    lemma_lt_asymmetric(b@, a@);
                }
                return 1;
            }
        }
        i = i + 1;
    }
    if la == lb {
        proof {
            assert(a@ =~= b@);
            lemma_lt_irreflexive(a@);
        }
        0
    } else if la < lb {
        proof {
            assert(lt_at(a@, b@, i as int));
            lemma_lt_asymmetric(a@, b@);
        }
        -1
    } else {
        proof {
            assert(lt_at(b@, a@, i as int));
            lemma_lt_asymmetric(b@, a@);
        }
        1
    }
}

/// Whether two strings hold the same characters.
pub fn str_eq(a: &str, b: &str) -> (r: bool)
    ensures
        r == (a@ == b@),
{
    compare_str(a, b) == 0
}

/// The characters of an optional string.
pub open spec fn opt_chars(o: Option<String>) -> Option<Seq<char>> {
    match o {
        Some(s) => Some(s@),
        None => None,
    }
}

/// Whether two optional strings are both absent or hold the same characters.
pub fn opt_str_eq(a: &Option<String>, b: &Option<String>) -> (r: bool)
    ensures
        r == (opt_chars(*a) == opt_chars(*b)),
{
    match (a, b) {
        (Some(x), Some(y)) => str_eq(x.as_str(), y.as_str()),
        (None, None) => true,
        _ => false,
    }
}

/// Appends one character to a string (`String::push`).
#[verifier::external_body]
pub(crate) fn push_char(s: &mut String, c: char)
    ensures
        final(s)@ == old(s)@.push(c),
{
    s.push(c);
}

/// Appends a string slice (`String::push_str`).
#[verifier::external_body]
pub(crate) fn push_str(s: &mut String, t: &str)
    ensures
        final(s)@ == old(s)@ + t@,
{
    s.push_str(t);
}

/// A fresh copy of a string slice.
pub fn owned(s: &str) -> (r: String)
    ensures
        r@ == s@,
{
    s.to_string()
}

/// The view of every string in a sequence.
pub open spec fn views(v: Seq<String>) -> Seq<Seq<char>> {
    v.map_values(|s: String| s@)
}

/// A string-by-string copy of a vector of strings.
pub fn copy_strings(v: &Vec<String>) -> (r: Vec<String>)
    ensures
        r@ == v@,
{
    let mut r: Vec<String> = Vec::new();
    let mut i: usize = 0;
    while i < v.len()
        invariant
            i <= v.len(),
            r@ == v@.subrange(0, i as int),
        decreases v.len() - i,
    {
        r.push(v[i].clone());
        assert(r@ =~= v@.subrange(0, i + 1));
        i = i + 1;
    }
    assert(r@ =~= v@);
    r
}

/// The decimal digit character of `d`.
pub open spec fn digit_char(d: int) -> char {
    (('0' as int) + d) as char
}

/// The decimal representation of `n`, without sign or leading zeros.
pub open spec fn decimal(n: nat) -> Seq<char>
    decreases n,
{
    if n < 10 {
        seq![digit_char(n as int)]
    } else {
        decimal(n / 10).push(digit_char((n % 10) as int))
    }
}

fn digit(d: u64) -> (c: char)
    requires
        d < 10,
    ensures
        c == digit_char(d as int),
{
    if d == 0 { '0' }
    else if d == 1 { '1' }
    else if d == 2 { '2' }
    else if d == 3 { '3' }
    else if d == 4 { '4' }
    else if d == 5 { '5' }
    else if d == 6 { '6' }
    else if d == 7 { '7' }
    else if d == 8 { '8' }
    else { '9' }
}

/// Appends the decimal representation of `n` (the output of `{}`).
pub fn push_decimal(s: &mut String, n: u64)
    ensures
        final(s)@ == old(s)@ + decimal(n as nat),
    decreases n,
{
    if n < 10 {
        push_char(s, digit(n));
        assert(decimal(n as nat) =~= seq![digit_char(n as int)]);
    } else {
        push_decimal(s, n / 10);
        push_char(s, digit(n % 10));
    }
}

/// The lowercase hexadecimal digit character of `d`.
pub open spec fn hex_char(d: int) -> char {
    if d < 10 {
        digit_char(d)
    } else {
        (('a' as int) + (d - 10)) as char
    }
}

/// The last `width` hexadecimal digits of `n`, zero-padded (the output of
/// `{:0width$x}` for values that fit).
pub open spec fn hex_padded(n: nat, width: nat) -> Seq<char>
    decreases width,
{
    if width == 0 {
        seq![]
    } else {
        hex_padded(n / 16, (width - 1) as nat).push(hex_char((n % 16) as int))
    }
}

fn hex_digit(d: u64) -> (c: char)
    requires
        d < 16,
    ensures
        c == hex_char(d as int),
{
    if d < 10 {
        digit(d)
    } else if d == 10 { 'a' }
    else if d == 11 { 'b' }
    else if d == 12 { 'c' }
    else if d == 13 { 'd' }
    else if d == 14 { 'e' }
    else { 'f' }
}

/// Appends `n` as `width` lowercase hexadecimal digits.
pub fn push_hex_padded(s: &mut String, n: u64, width: u64)
    ensures
        final(s)@ == old(s)@ + hex_padded(n as nat, width as nat),
    decreases width,
{
    if width > 0 {
        push_hex_padded(s, n / 16, width - 1);
        push_char(s, hex_digit(n % 16));
    } else {
        assert(hex_padded(n as nat, 0) =~= seq![]);
        assert(old(s)@ + seq![] =~= old(s)@);
    }
}

/// The characters of a string slice.
pub fn chars_of(text: &str) -> (r: Vec<char>)
    ensures
        r@ == text@,
{
    let n = text.unicode_len();
    let mut r: Vec<char> = Vec::new();
    let mut i: usize = 0;
    while i < n
        invariant
            n == text@.len(),
            i <= n,
            r@ == text@.take(i as int),
        decreases n - i,
    {
        r.push(text.get_char(i));
        assert(r@ =~= text@.take(i + 1));
        i = i + 1;
    }
    assert(r@ =~= text@);
    r
}

} // verus!
