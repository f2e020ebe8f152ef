//! Listing the repositories of an organization: the addresses to ask, and what the pages
//! of an answer hold.

use vstd::prelude::*;

verus! {

/// `serde_json::Value`: any JSON value.
#[verifier::external_type_specification]
#[verifier::external_body]
pub struct ExJsonValue(serde_json::Value);

/// What `serde_json::Value::as_array` gives for `value`: its elements where it is an
/// array, and nothing where it is anything else.
pub uninterp spec fn json_items(value: serde_json::Value) -> Option<Seq<serde_json::Value>>;

/// `serde_json::Value::as_array`, the elements cloned one by one.
#[verifier::external_body]
fn array_items(value: &serde_json::Value) -> (r: Option<Vec<serde_json::Value>>)
    ensures
        r matches Some(v) ==> json_items(*value) == Some(v@),
        r is None ==> json_items(*value) is None,
{
    value.as_array().cloned()
}

/// What a user may do to a repository.
#[derive(Clone, Copy, Debug, PartialEq, Eq, Structural)]
pub struct Permissions {
    pub admin: bool,
    pub push: bool,
    pub pull: bool,
}

/// A page of an answer that is no list.
#[derive(Clone, Copy, Debug, PartialEq, Eq, Structural)]
pub struct PageNotList {
    /// The position of the page among the pages, from 0.
    pub page: usize,
}

/// How a link of an answer relates to the page that carries it.
#[derive(Clone, Copy, Debug, PartialEq, Eq, Structural)]
pub enum Relation {
    Next,
    Other,
}

/// One link of an answer's `Link` header.
#[derive(Clone, Debug)]
pub struct PageLink {
    pub link: String,
    /// The relations that the link is given, where it is given any.
    pub rel: Option<Vec<Relation>>,
}

/// So many entries are asked for on a page.
pub open spec fn page_size_param() -> Seq<char> {
    "per_page=100"@
}

/// The elements of all pages in order, where each page has elements.
pub open spec fn joined(items: Seq<Option<Seq<serde_json::Value>>>) -> Option<
    Seq<serde_json::Value>,
>
    decreases items.len(),
{
    if items.len() == 0 {
        Some(Seq::empty())
    } else {
        match (joined(items.drop_last()), items.last()) {
            (Some(before), Some(last)) => Some(before + last),
            _ => None,
        }
    }
}

/// The elements of all pages in order, where every page is an array.
pub open spec fn flat(pages: Seq<serde_json::Value>) -> Option<Seq<serde_json::Value>> {
    joined(pages.map_values(|page: serde_json::Value| json_items(page)))
}

/// The views of pages that were read as arrays.
pub open spec fn item_views(items: Seq<Option<Vec<serde_json::Value>>>) -> Seq<
    Option<Seq<serde_json::Value>>,
> {
    items.map_values(
        |page: Option<Vec<serde_json::Value>>|
            match page {
                Some(v) => Some(v@),
                None => None,
            },
    )
}

impl PageLink {
    /// Whether the link leads to the next page: `next` is its one relation.
    pub open spec fn leads_on(&self) -> bool {
        self.rel matches Some(r) && r@ == seq![Relation::Next]
    }
}

/// The link to the next page among `links`: the first that leads on.
pub open spec fn next_of(links: Seq<PageLink>) -> Option<Seq<char>>
    decreases links.len(),
{
    if links.len() == 0 {
        None
    } else if links[0].leads_on() {
        Some(links[0].link@)
    } else {
        next_of(links.drop_first())
    }
}

/// The entries of pages that were read as arrays, in the order of the pages. A page
/// that is none fails the whole, with its position.
pub fn join_pages(items: Vec<Option<Vec<serde_json::Value>>>) -> (r: Result<
    Vec<serde_json::Value>,
    PageNotList,
>)
    ensures
        r matches Ok(v) ==> joined(item_views(items@)) == Some(v@),
        r matches Err(e) ==> joined(item_views(items@)) is None && e.page < items.len()
            && items@[e.page as int] is None && joined(item_views(items@).take(e.page as int))
            is Some,
{
    let ghost all = item_views(items@);
    let count: usize = items.len();
    let mut ret: Vec<serde_json::Value> = Vec::new();
    let mut i: usize = 0;
    proof {
        assert(all.take(0) == Seq::<Option<Seq<serde_json::Value>>>::empty());
    }
    for page in it: items.into_iter()
        invariant
            it.seq() == items@,
            items@.len() == count,
            all == item_views(items@),
            i == it.index(),
            joined(all.take(i as int)) == Some(ret@),
    {
        assert(i < items@.len());
        proof {
            assert(all.take(i as int + 1).drop_last() == all.take(i as int));
            assert(all.take(i as int + 1).last() == all[i as int]);
        }
        match page {
            Some(mut values) => {
                ret.append(&mut values);
            },
            None => {
                proof {
                    lemma_joined_fails(all, i as int + 1);
                }
                return Err(PageNotList { page: i });
            },
        }
        i = i + 1;
    }
    proof {
        assert(all.take(items.len() as int) == all);
    }
    Ok(ret)
}

/// The entries of all pages, in the order of the pages. A page that is no list fails
/// the whole.
pub fn flatten(pages: Vec<serde_json::Value>) -> (r: Result<Vec<serde_json::Value>, PageNotList>)
    ensures
        r matches Ok(v) ==> flat(pages@) == Some(v@),
        r matches Err(e) ==> flat(pages@) is None && e.page < pages.len() && json_items(
            pages@[e.page as int],
        ) is None && flat(pages@.take(e.page as int)) is Some,
{
    let mut items: Vec<Option<Vec<serde_json::Value>>> = Vec::new();
    let mut i: usize = 0;
    while i < pages.len()
        invariant
            i <= pages.len(),
            item_views(items@) == pages@.map_values(
                |page: serde_json::Value| json_items(page),
            ).take(i as int),
        decreases pages.len() - i,
    {
        let page = array_items(&pages[i]);
        proof {
            let all = pages@.map_values(|page: serde_json::Value| json_items(page));
            assert(item_views(items@.push(page)) == item_views(items@).push(all[i as int]));
            assert(all.take(i as int + 1) == all.take(i as int).push(all[i as int]));
        }
        items.push(page);
        i = i + 1;
    }
    proof {
        let all = pages@.map_values(|page: serde_json::Value| json_items(page));
        assert(all.take(pages.len() as int) == all);
    }
    let r = join_pages(items);
    proof {
        let all = pages@.map_values(|page: serde_json::Value| json_items(page));
        match r {
            Ok(_) => {},
            Err(e) => {
                assert(all.take(e.page as int) == pages@.take(e.page as int).map_values(
                    |page: serde_json::Value| json_items(page),
                ));
                assert(item_views(items@)[e.page as int] == all[e.page as int]);
                assert(all[e.page as int] == json_items(pages@[e.page as int]));
            },
        }
    }
    r
}

/// Pages that begin with pages that do not join do not join.
pub proof fn lemma_joined_fails(items: Seq<Option<Seq<serde_json::Value>>>, i: int)
    requires
        0 <= i <= items.len(),
        joined(items.take(i)) is None,
    ensures
        joined(items) is None,
    decreases items.len() - i,
{
    if i < items.len() {
        assert(items.take(i + 1).drop_last() == items.take(i));
        lemma_joined_fails(items, i + 1);
    } else {
        assert(items.take(i) == items);
    }
}

/// The address that lists the repositories of the organization `org`.
pub fn org_repos_url(org: &str) -> (r: String)
    ensures
        r@ == "https://api.github.com/orgs/"@ + org@ + "/repos"@,
{
    let mut out = String::new();
    out.append("https://api.github.com/orgs/");
    out.append(org);
    out.append("/repos");
    out
}

/// The query of an address with the page size added to it.
pub fn with_page_size(query: Option<&str>) -> (r: String)
    ensures
        query matches Some(q) ==> r@ == q@ + "&"@ + page_size_param(),
        query is None ==> r@ == page_size_param(),
{
    let mut out = String::new();
    match query {
        Some(q) => {
            out.append(q);
            out.append("&");
            out.append("per_page=100");
        },
        None => {
            out.append("per_page=100");
        },
    }
    out
}

/// The address of the next page, where the answer's links name one.
pub fn next_page(links: &Vec<PageLink>) -> (r: Option<String>)
    ensures
        r matches Some(url) ==> next_of(links@) == Some(url@),
        r is None ==> next_of(links@) is None,
{
    let mut i: usize = 0;
    proof {
        assert(links@.skip(0) == links@);
    }
    while i < links.len()
        invariant
            i <= links.len(),
            next_of(links@) == next_of(links@.skip(i as int)),
        decreases links.len() - i,
    {
        proof {
            assert(links@.skip(i as int).drop_first() == links@.skip(i as int + 1));
        }
        let leads_on = match &links[i].rel {
            Some(rel) => rel.len() == 1 && is_next(rel[0]),
            None => false,
        };
        proof {
            if leads_on {
                assert(links@[i as int].rel->0@ == seq![Relation::Next]);
            }
        }
        if leads_on {
            return Some(links[i].link.clone());
        }
        i = i + 1;
    }
    None
}

/// Tells whether the relation is `next`.
fn is_next(rel: Relation) -> (r: bool)
    ensures
        r == (rel == Relation::Next),
{
    match rel {
        Relation::Next => true,
        Relation::Other => false,
    }
}

} // verus!
