//! Naming rules of the generated API bindings: which HTTP methods carry a
//! body, and the Pascal-case and camel-case forms of snake-case names.
use vstd::prelude::*;
use crate::profile_storage::{lowercase, to_lowercase};
use crate::text::{chars_of, push_char, push_str};

verus! {

/// The HTTP method of an API operation.
#[derive(Clone, Copy, Debug, PartialEq, Eq, Structural)]
pub enum HttpMethod {
    Get,
    Post,
    Put,
    Delete,
    Patch,
}

/// Whether requests of this method carry a body: POST, PUT and PATCH do.
pub fn uses_body(method: &HttpMethod) -> (b: bool)
    ensures
        b == (*method == HttpMethod::Post || *method == HttpMethod::Put || *method
            == HttpMethod::Patch),
{
    match method {
        HttpMethod::Post | HttpMethod::Put | HttpMethod::Patch => true,
        _ => false,
    }
}

/// The ASCII uppercase of a character (others unchanged).
pub open spec fn ascii_upper(c: char) -> char {
    if 'a' <= c <= 'z' {
        ((c as u32) - 32) as char
    } else {
        c
    }
}

/// The ASCII lowercase of a character (others unchanged).
pub open spec fn ascii_lower(c: char) -> char {
    if 'A' <= c <= 'Z' {
        ((c as u32) + 32) as char
    } else {
        c
    }
}

fn to_ascii_uppercase(c: char) -> (r: char)
    ensures
        r == ascii_upper(c),
{
    if 'a' <= c && c <= 'z' {
        ((c as u8) - 32) as char
    } else {
        c
    }
}

fn to_ascii_lowercase(c: char) -> (r: char)
    ensures
        r == ascii_lower(c),
{
    if 'A' <= c && c <= 'Z' {
        ((c as u8) + 32) as char
    } else {
        c
    }
}

/// The camel-case form of `s` (the prefix `s` ends a longer name with):
/// underscores are dropped and the character after one is uppercased; the
/// first character is lowercased; the flag is whether the next character
/// follows an underscore.
pub open spec fn camel(s: Seq<char>) -> (Seq<char>, bool)
    decreases s.len(),
{
    if s.len() == 0 {
        (seq![], false)
    } else {
        let (r, cap) = camel(s.drop_last());
        let ch = s.last();
        if ch == '_' {
            (r, true)
        } else if cap {
            (r.push(ascii_upper(ch)), false)
        } else if s.len() == 1 {
            (r.push(ascii_lower(ch)), false)
        } else {
            (r.push(ch), false)
        }
    }
}

/// The camel-case form of a snake-case name.
pub fn to_camel_case(s: &str) -> (r: String)
    ensures
        r@ == camel(s@).0,
{
    let chars = chars_of(s);
    let mut result = String::new();
    let mut capitalize_next = false;
    let mut i: usize = 0;
    while i < chars.len()
        invariant
            i <= chars@.len(),
            chars@ == s@,
            (result@, capitalize_next) == camel(s@.take(i as int)),
        decreases chars@.len() - i,
    {
        let ch = chars[i];
        proof {
            assert(s@.take(i + 1).drop_last() =~= s@.take(i as int));
            assert(s@.take(i + 1).last() == ch);
        }
        if ch == '_' {
            capitalize_next = true;
        } else if capitalize_next {
            push_char(&mut result, to_ascii_uppercase(ch));
            capitalize_next = false;
        } else if i == 0 {
            push_char(&mut result, to_ascii_lowercase(ch));
        } else {
            push_char(&mut result, ch);
        }
        i = i + 1;
    }
    assert(s@.take(chars@.len() as int) =~= s@);
    result
}

/// The Unicode uppercase mapping of a character (`char::to_uppercase`).
pub uninterp spec fn uppercase_char(c: char) -> Seq<char>;

/// `char::to_uppercase`, collected into a string.
#[verifier::external_body]
fn char_to_uppercase(c: char) -> (r: String)
    ensures
        r@ == uppercase_char(c),
{
    c.to_uppercase().collect::<String>()
}

/// The words of `s` between underscores (an underscore at either end, or
/// two in a row, give an empty word).
pub open spec fn words(s: Seq<char>) -> Seq<Seq<char>>
    decreases s.len(),
{
    if s.len() == 0 {
        seq![seq![]]
    } else {
        let r = words(s.drop_last());
        if s.last() == '_' {
            r.push(seq![])
        } else {
            r.update(r.len() - 1, r.last().push(s.last()))
        }
    }
}

/// A word capitalized: its first character uppercased and the rest
/// lowercased (empty stays empty).
pub open spec fn capitalized(w: Seq<char>) -> Seq<char> {
    if w.len() == 0 {
        seq![]
    } else {
        uppercase_char(w[0]) + lowercase(w.drop_first())
    }
}

/// The words capitalized and concatenated.
pub open spec fn join_capitalized(ws: Seq<Seq<char>>) -> Seq<char>
    decreases ws.len(),
{
    if ws.len() == 0 {
        seq![]
    } else {
        join_capitalized(ws.drop_last()) + capitalized(ws.last())
    }
}

proof fn lemma_words_nonempty(s: Seq<char>)
    ensures
        words(s).len() >= 1,
    decreases s.len(),
{
    if s.len() > 0 {
        lemma_words_nonempty(s.drop_last());
    }
}

fn capitalize(word: &Vec<char>) -> (r: String)
    ensures
        r@ == capitalized(word@),
{
    if word.len() == 0 {
        return String::new();
    }
    let mut rest = String::new();
    let mut i: usize = 1;
    while i < word.len()
        invariant
            1 <= i <= word@.len(),
            rest@ == word@.subrange(1, i as int),
        decreases word@.len() - i,
    {
        push_char(&mut rest, word[i]);
        assert(rest@ =~= word@.subrange(1, i + 1));
        i = i + 1;
    }
    assert(rest@ =~= word@.drop_first());
    let mut r = char_to_uppercase(word[0]);
    let lower = to_lowercase(rest.as_str());
    push_str(&mut r, lower.as_str());
    r
}

/// The Pascal-case form of a snake-case name: each word between underscores
/// capitalized, the words concatenated.
pub fn to_pascal_case(s: &str) -> (r: String)
    ensures
        r@ == join_capitalized(words(s@)),
{
    let chars = chars_of(s);
    let mut result = String::new();
    let mut word: Vec<char> = Vec::new();
    let mut i: usize = 0;
    while i < chars.len()
        invariant
            i <= chars@.len(),
            chars@ == s@,
            words(s@.take(i as int)).len() >= 1,
            result@ == join_capitalized(words(s@.take(i as int)).drop_last()),
            word@ == words(s@.take(i as int)).last(),
        decreases chars@.len() - i,
    {
        let ch = chars[i];
        let ghost ws = words(s@.take(i as int));
        proof {
            assert(s@.take(i + 1).drop_last() =~= s@.take(i as int));
            assert(s@.take(i + 1).last() == ch);
        }
        if ch == '_' {
            let w = capitalize(&word);
            push_str(&mut result, w.as_str());
            word = Vec::new();
            proof {
                let nws = ws.push(seq![]);
                assert(nws.drop_last() =~= ws);
                assert(ws =~= ws.drop_last().push(ws.last()));
                assert(word@ =~= nws.last());
            }
        } else {
            word.push(ch);
            proof {
                let nws = ws.update(ws.len() - 1, ws.last().push(ch));
                assert(nws.drop_last() =~= ws.drop_last());
            }
        }
        i = i + 1;
    }
    assert(s@.take(chars@.len() as int) =~= s@);
    let ghost ws = words(s@);
    let w = capitalize(&word);
    push_str(&mut result, w.as_str());
    assert(ws =~= ws.drop_last().push(ws.last()));
    result
}

} // verus!
