//! Names of the files of the on-disk image cache.
use vstd::prelude::*;
use crate::text::{decimal, owned, push_decimal, push_str};

verus! {

/// The name an image is cached under: `<item>_<type>`, then `_w<width>`
/// and `_q<quality>` when given (the extension follows on disk).
pub open spec fn cache_name_text(item_id: Seq<char>, image_type: Seq<char>, width: Option<u32>, quality: Option<u32>) -> Seq<char> {
    item_id + "_"@ + image_type + match width {
        Some(w) => "_w"@ + decimal(w as nat),
        None => Seq::empty(),
    } + match quality {
        Some(q) => "_q"@ + decimal(q as nat),
        None => Seq::empty(),
    }
}

/// The name an image is cached under.
pub fn image_cache_name(item_id: &str, image_type: &str, width: Option<u32>, quality: Option<u32>) -> (r: String)
    ensures
        r@ == cache_name_text(item_id@, image_type@, width, quality),
{
    let mut name = owned(item_id);
    push_str(&mut name, "_");
    push_str(&mut name, image_type);
    match width {
        Some(w) => {
            push_str(&mut name, "_w");
            push_decimal(&mut name, w as u64);
        },
        None => {},
    }
    match quality {
        Some(q) => {
            push_str(&mut name, "_q");
            push_decimal(&mut name, q as u64);
        },
        None => {},
    }
    assert(name@ =~= cache_name_text(item_id@, image_type@, width, quality));
    name
}

/// Whether a cache file holds the image cached under `name`: the file is
/// named `name`, or `name` and an extension.
pub open spec fn holds_image(file_name: Seq<char>, name: Seq<char>) -> bool {
    file_name == name || (name + "."@).is_prefix_of(file_name)
}

fn has_prefix(s: &str, p: &str) -> (b: bool)
    ensures
        b == p@.is_prefix_of(s@),
{
    let sc = crate::text::chars_of(s);
    let pc = crate::text::chars_of(p);
    if pc.len() > sc.len() {
        return false;
    }
    let mut i: usize = 0;
    while i < pc.len()
        invariant
            pc@ == p@,
            sc@ == s@,
            pc@.len() <= sc@.len(),
            i <= pc@.len(),
            forall|j: int| 0 <= j < i ==> pc@[j] == sc@[j],
        decreases pc@.len() - i,
    {
        if pc[i] != sc[i] {
            return false;
        }
        i = i + 1;
    }
    assert(p@ =~= s@.take(p@.len() as int));
    true
}

/// Whether the cache file `file_name` holds the image cached under `name`.
pub fn is_cached_image(file_name: &str, name: &str) -> (b: bool)
    ensures
        b == holds_image(file_name@, name@),
{
    if crate::text::str_eq(file_name, name) {
        return true;
    }
    let mut with_dot = owned(name);
    push_str(&mut with_dot, ".");
    has_prefix(file_name, with_dot.as_str())
}

/// Whether the cache file `file_name` is one of the images of an item of a
/// type (any size): its name starts with `<item>_<type>`.
pub fn is_image_of(file_name: &str, item_id: &str, image_type: &str) -> (b: bool)
    ensures
        b == (item_id@ + "_"@ + image_type@).is_prefix_of(file_name@),
{
    let mut prefix = owned(item_id);
    push_str(&mut prefix, "_");
    push_str(&mut prefix, image_type);
    has_prefix(file_name, prefix.as_str())
}

} // verus!
