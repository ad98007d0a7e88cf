//! Where the Last.fm API secret is kept.
use vstd::prelude::*;
use crate::profile_storage::{join, join_path};

verus! {

/// The secret's file: "lastfm_secret.json" under the app directory.
pub fn path(app_dir: &str) -> (r: String)
    ensures
        r@ == join_path(app_dir@, "lastfm_secret.json"@),
{
    join(app_dir, "lastfm_secret.json")
}

} // verus!
