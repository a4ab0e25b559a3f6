//! The Hacker News firebase API: where each list and item is fetched,
//! which fetched items are shown, and how a server-sent event is framed.
use vstd::prelude::*;
use vstd::string::*;
use crate::text::{decimal, push_decimal_u64};
use crate::types::{article_type_name, ArticleType, Item};

verus! {

/// The base of every API address.
pub open spec fn api_end_point() -> Seq<char> {
    "https://hacker-news.firebaseio.com/v0"@
}

/// The resource that lists the stories of a category.
pub open spec fn endpoint_name(t: ArticleType) -> Seq<char> {
    match t {
        ArticleType::New => "newstories.json"@,
        ArticleType::Best => "beststories.json"@,
        ArticleType::Top => "topstories.json"@,
        ArticleType::Ask => "askstories.json"@,
        ArticleType::Show => "showstories.json"@,
        ArticleType::Job => "jobstories.json"@,
    }
}

/// The resource that lists the stories of `article_type`.
pub fn article_endpoint(article_type: ArticleType) -> (r: &'static str)
    ensures
        r@ == endpoint_name(article_type),
{
    match article_type {
        ArticleType::New => "newstories.json",
        ArticleType::Best => "beststories.json",
        ArticleType::Top => "topstories.json",
        ArticleType::Ask => "askstories.json",
        ArticleType::Show => "showstories.json",
        ArticleType::Job => "jobstories.json",
    }
}

/// A text with its ASCII capitals made small.
pub open spec fn ascii_lower(s: Seq<char>) -> Seq<char> {
    s.map_values(|c: char| if 'A' <= c && c <= 'Z' { ((c as u32) + 32) as char } else { c })
}

/// Each category's stories are listed by the resource named after it: its
/// display name in small letters followed by `stories.json`; so no two
/// categories share a resource.
pub proof fn lemma_endpoint_names_category(t: ArticleType, u: ArticleType)
    ensures
        endpoint_name(t) == ascii_lower(article_type_name(t)) + "stories.json"@,
        t != u ==> endpoint_name(t) != endpoint_name(u),
{
    reveal_strlit("New");
    reveal_strlit("Best");
    reveal_strlit("Top");
    reveal_strlit("Ask");
    reveal_strlit("Show");
    reveal_strlit("Job");
    reveal_strlit("stories.json");
    reveal_strlit("newstories.json");
    reveal_strlit("beststories.json");
    reveal_strlit("topstories.json");
    reveal_strlit("askstories.json");
    reveal_strlit("showstories.json");
    reveal_strlit("jobstories.json");
    assert(endpoint_name(t) =~= ascii_lower(article_type_name(t)) + "stories.json"@);
    if t != u {
        assert(endpoint_name(t)[0] != endpoint_name(u)[0]);
    }
}

/// The address of the list of stories of `article_type`.
pub fn articles_url(article_type: ArticleType) -> (r: String)
    ensures
        r@ == api_end_point() + "/"@ + endpoint_name(article_type),
{
    let mut s = String::from_str("https://hacker-news.firebaseio.com/v0");
    s.append("/");
    s.append(article_endpoint(article_type));
    s
}

/// The address of the item `id`.
pub fn item_url(id: u64) -> (r: String)
    ensures
        r@ == api_end_point() + "/item/"@ + decimal(id as int) + ".json"@,
{
    let mut s = String::from_str("https://hacker-news.firebaseio.com/v0");
    s.append("/item/");
    push_decimal_u64(&mut s, id);
    s.append(".json");
    s
}

/// The address of the user `handle`.
pub fn user_url(handle: &str) -> (r: String)
    ensures
        r@ == api_end_point() + "/user/"@ + handle@ + ".json"@,
{
    let mut s = String::from_str("https://hacker-news.firebaseio.com/v0");
    s.append("/user/");
    s.append(handle);
    s.append(".json");
    s
}

/// The address of the public page of item `id`.
pub fn item_page_url(id: u64) -> (r: String)
    ensures
        r@ == "https://news.ycombinator.com/item?id="@ + decimal(id as int),
{
    let mut s = String::from_str("https://news.ycombinator.com/item?id=");
    push_decimal_u64(&mut s, id);
    s
}

/// Keeps the first `limit` ids of a list.
pub fn truncate_ids(ids: &mut Vec<u64>, limit: usize)
    ensures
        final(ids)@ == if limit < old(ids)@.len() { old(ids)@.take(limit as int) } else { old(ids)@ },
{
    ids.truncate(limit);
}

/// Whether a fetched item is shown: neither dead nor deleted.
pub fn is_live(item: &Item) -> (r: bool)
    ensures
        r == !(item.dead || item.deleted),
{
    !(item.dead || item.deleted)
}

/// The live items of a list, in order.
pub open spec fn live_items(items: Seq<Item>) -> Seq<Item>
    decreases items.len(),
{
    if items.len() == 0 {
        items
    } else if items.last().dead || items.last().deleted {
        live_items(items.drop_last())
    } else {
        live_items(items.drop_last()).push(items.last())
    }
}

/// Keeps the items that are neither dead nor deleted, in order.
pub fn keep_live(items: Vec<Item>) -> (r: Vec<Item>)
    ensures
        r@ == live_items(items@),
{
    let ghost all = items@;
    let mut out: Vec<Item> = Vec::new();
    for item in iter: items.into_iter()
        invariant
            iter.seq() == all,
            out@ == live_items(all.take(iter.index())),
    {
        assert(all.take(iter.index() + 1).drop_last() =~= all.take(iter.index()));
        if !(item.dead || item.deleted) {
            out.push(item);
        }
    }
    assert(all.take(all.len() as int) =~= all);
    out
}

/// Whether a fetch result is passed on: every failure, and every fetched
/// item that is neither dead nor deleted.
pub open spec fn result_shown<E>(r: Result<Item, E>) -> bool {
    match r {
        Ok(item) => !(item.dead || item.deleted),
        Err(_) => true,
    }
}

/// The fetch results passed on, in order.
pub open spec fn live_results<E>(results: Seq<Result<Item, E>>) -> Seq<Result<Item, E>>
    decreases results.len(),
{
    if results.len() == 0 {
        results
    } else if result_shown(results.last()) {
        live_results(results.drop_last()).push(results.last())
    } else {
        live_results(results.drop_last())
    }
}

/// Passes on the results of fetching items one by one, in order: each
/// failure as it came, and each fetched item that is neither dead nor
/// deleted.
pub fn keep_live_results<E>(results: Vec<Result<Item, E>>) -> (r: Vec<Result<Item, E>>)
    ensures
        r@ == live_results(results@),
{
    let ghost all = results@;
    let mut out: Vec<Result<Item, E>> = Vec::new();
    for res in iter: results.into_iter()
        invariant
            iter.seq() == all,
            out@ == live_results(all.take(iter.index())),
    {
        assert(all.take(iter.index() + 1).drop_last() =~= all.take(iter.index()));
        let shown = match &res {
            Ok(item) => !(item.dead || item.deleted),
            Err(_) => true,
        };
        if shown {
            out.push(res);
        }
    }
    assert(all.take(all.len() as int) =~= all);
    out
}

/// The bytes `event: put`.
pub open spec fn event_put() -> Seq<u8> {
    seq![101u8, 118u8, 101u8, 110u8, 116u8, 58u8, 32u8, 112u8, 117u8, 116u8]
}

/// The bytes `data: `.
pub open spec fn data_prefix() -> Seq<u8> {
    seq![100u8, 97u8, 116u8, 97u8, 58u8, 32u8]
}

/// Whether `b` begins with `p`.
pub open spec fn starts_with(b: Seq<u8>, p: Seq<u8>) -> bool {
    p.len() <= b.len() && b.take(p.len() as int) == p
}

/// Where the line that holds position `from` ends: the first newline at or
/// after `from`, or the end of the bytes.
pub open spec fn line_end(b: Seq<u8>, from: int) -> int
    decreases b.len() - from,
{
    if from >= b.len() {
        b.len() as int
    } else if b[from] == 10u8 {
        from
    } else {
        line_end(b, from + 1)
    }
}

/// The payload of a server-sent event: the first line must begin with
/// `event: put` and a second line must follow that begins with `data: `;
/// the payload is the rest of the second line.
pub open spec fn event_payload_of(b: Seq<u8>) -> Option<Seq<u8>> {
    let e1 = line_end(b, 0);
    if !starts_with(b.take(e1), event_put()) || e1 >= b.len() {
        None
    } else {
        let second = b.subrange(e1 + 1, line_end(b, e1 + 1));
        if starts_with(second, data_prefix()) {
            Some(second.skip(6))
        } else {
            None
        }
    }
}

fn find_line_end(b: &[u8], from: usize) -> (r: usize)
    requires
        from <= b@.len(),
    ensures
        r == line_end(b@, from as int),
        from <= r <= b@.len(),
    decreases b@.len() - from,
{
    if from >= b.len() {
        b.len()
    } else if b[from] == 10u8 {
        from
    } else {
        find_line_end(b, from + 1)
    }
}

fn has_prefix(b: &[u8], from: usize, to: usize, p: &Vec<u8>) -> (r: bool)
    requires
        from <= to <= b@.len(),
    ensures
        r == starts_with(b@.subrange(from as int, to as int), p@),
{
    if p.len() > to - from {
        return false;
    }
    let mut k: usize = 0;
    while k < p.len()
        invariant
            from <= to <= b@.len(),
            p@.len() <= to - from,
            k <= p@.len(),
            forall|j: int| 0 <= j < k ==> b@[from + j] == p@[j],
        decreases p@.len() - k,
    {
        if b[from + k] != p[k] {
            assert(b@.subrange(from as int, to as int).take(p@.len() as int)[k as int] != p@[k as int]);
            return false;
        }
        k = k + 1;
    }
    assert(b@.subrange(from as int, to as int).take(p@.len() as int) =~= p@);
    true
}

/// The payload of a server-sent event of the firebase API, which the
/// caller then decodes as JSON.
pub fn event_payload(bytes: &[u8]) -> (r: Option<Vec<u8>>)
    ensures
        match r {
            Some(v) => event_payload_of(bytes@) == Some(v@),
            None => event_payload_of(bytes@) is None,
        },
{
    let put: Vec<u8> = vec![101u8, 118u8, 101u8, 110u8, 116u8, 58u8, 32u8, 112u8, 117u8, 116u8];
    let data: Vec<u8> = vec![100u8, 97u8, 116u8, 97u8, 58u8, 32u8];
    assert(put@ =~= event_put());
    assert(data@ =~= data_prefix());
    let e1 = find_line_end(bytes, 0);
    assert(bytes@.subrange(0, e1 as int) =~= bytes@.take(e1 as int));
    if !has_prefix(bytes, 0, e1, &put) || e1 >= bytes.len() {
        return None;
    }
    let e2 = find_line_end(bytes, e1 + 1);
    if !has_prefix(bytes, e1 + 1, e2, &data) {
        return None;
    }
    let mut out: Vec<u8> = Vec::new();
    let mut i: usize = e1 + 7;
    while i < e2
        invariant
            e1 + 7 <= i <= e2,
            e2 <= bytes@.len(),
            e1 + 7 <= e2,
            out@ == bytes@.subrange(e1 + 7, i as int),
        decreases e2 - i,
    {
        out.push(bytes[i]);
        i = i + 1;
        assert(out@ =~= bytes@.subrange(e1 + 7, i as int));
    }
    assert(bytes@.subrange(e1 + 1, e2 as int).skip(6) =~= out@);
    Some(out)
}

} // verus!
