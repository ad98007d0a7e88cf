//! Paging through the media server's item lists.
//!
//! A listing asks for pages of items from a start index until a page comes
//! back empty or the pages have covered the total the server reports. The
//! caller fetches each page and hands what came back to a [`Paging`].
use vstd::prelude::*;
use crate::json::{JsonValue, array_of, member, str_of, unsigned_of, array_member, unsigned_member, str_member};
use crate::text::{decimal, owned, push_decimal, push_str, views};

verus! {

/// The query of the page of `limit` items from `start` of a listing.
pub open spec fn page_query_text(base: Seq<char>, start: nat, limit: nat) -> Seq<char> {
    base + "&StartIndex="@ + decimal(start) + "&Limit="@ + decimal(limit)
        + "&enableTotalRecordCount=true"@
}

/// The query of the page of `limit` items from `start` of the listing
/// `base`, with the total count requested.
pub fn items_page_query(base: &str, start: u64, limit: u64) -> (q: String)
    ensures
        q@ == page_query_text(base@, start as nat, limit as nat),
{
    let mut q = owned(base);
    push_str(&mut q, "&StartIndex=");
    push_decimal(&mut q, start);
    push_str(&mut q, "&Limit=");
    push_decimal(&mut q, limit);
    push_str(&mut q, "&enableTotalRecordCount=true");
    q
}

/// The total a page reports: its unsigned "TotalRecordCount", else 0.
pub open spec fn total_of(page: JsonValue) -> u64 {
    match unsigned_of(member(page, "TotalRecordCount"@)) {
        Some(n) => n,
        None => 0,
    }
}

/// The total item count a page reports (0 when it reports none).
pub fn page_total(page: &JsonValue) -> (n: u64)
    ensures
        n == total_of(*page),
{
    match unsigned_member(page, "TotalRecordCount") {
        Some(n) => n,
        None => 0,
    }
}

/// The items of a page (none when it has no item list).
pub fn page_items(page: &JsonValue) -> (r: Option<&Vec<JsonValue>>)
    ensures
        match r {
            Some(items) => array_of(member(*page, "Items"@)) == Some(items@),
            None => array_of(member(*page, "Items"@)) is None,
        },
{
    array_member(page, "Items")
}

/// The string ids of items, in order; items without one are skipped.
pub open spec fn ids_of(items: Seq<JsonValue>) -> Seq<Seq<char>>
    decreases items.len(),
{
    if items.len() == 0 {
        Seq::empty()
    } else {
        match str_of(member(items.last(), "Id"@)) {
            Some(id) => ids_of(items.drop_last()).push(id),
            None => ids_of(items.drop_last()),
        }
    }
}

/// The string ids of items, in order.
pub fn item_ids(items: &Vec<JsonValue>) -> (r: Vec<String>)
    ensures
        views(r@) == ids_of(items@),
{
    let mut out: Vec<String> = Vec::new();
    let mut i: usize = 0;
    while i < items.len()
        invariant
            i <= items@.len(),
            views(out@) == ids_of(items@.take(i as int)),
        decreases items@.len() - i,
    {
        let ghost t = items@.take(i + 1);
        assert(t.drop_last() =~= items@.take(i as int));
        assert(t.last() == items@[i as int]);
        if let Some(id) = str_member(&items[i], "Id") {
            let ghost prev = views(out@);
            out.push(id.to_string());
            assert(views(out@) =~= prev.push(id@));
        }
        i = i + 1;
    }
    assert(items@.take(i as int) =~= items@);
    out
}

/// Where a listing stands.
#[derive(Clone, Debug, PartialEq)]
pub struct Paging {
    /// Where the next page starts.
    pub start_index: u64,
    /// The server's date, from the first page that reported one.
    pub server_date: Option<String>,
    /// No page is left to fetch.
    pub finished: bool,
}

impl Paging {
    /// A listing from its first item.
    pub fn new() -> (p: Paging)
        ensures
            p.start_index == 0,
            p.server_date is None,
            !p.finished,
    {
        Paging { start_index: 0, server_date: None, finished: false }
    }

    /// Records a fetched page: its server date (kept if none was known),
    /// its item count and the total the server reports. An empty page ends
    /// the listing; otherwise its items are skipped, and the listing ends
    /// once the total is reached.
    pub fn page_read(&mut self, server_date: Option<String>, item_count: u64, total: u64)
        requires
            !old(self).finished,
            old(self).start_index + item_count <= u64::MAX,
        ensures
            final(self).server_date == (if old(self).server_date is None {
                server_date
            } else {
                old(self).server_date
            }),
            item_count == 0 ==> final(self).finished && final(self).start_index == old(
                self,
            ).start_index,
            item_count > 0 ==> final(self).start_index == old(self).start_index + item_count
                && final(self).finished == (final(self).start_index >= total),
    {
        if self.server_date.is_none() {
            self.server_date = server_date;
        }
        if item_count == 0 {
            self.finished = true;
        } else {
            self.start_index = self.start_index + item_count;
            self.finished = self.start_index >= total;
        }
    }
}

impl Default for Paging {
    fn default() -> (p: Paging)
        ensures
            p.start_index == 0,
            p.server_date is None,
            !p.finished,
    {
        Paging::new()
    }
}

} // verus!
