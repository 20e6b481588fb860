//! The categories of the feed and the addresses of its resources.

use vstd::prelude::*;
use crate::text::decimal;
use crate::text::push_decimal;

verus! {

/// The ranked lists the feed offers.
#[derive(Clone, Copy, Debug, PartialEq, Eq, Structural)]
pub enum ListType {
    TopStories,
    NewStories,
    BestStories,
    AskStories,
    ShowStories,
    JobStories,
}

/// The address every resource of the feed starts with.
pub open spec fn uri_prefix() -> Seq<char> {
    "https://hacker-news.firebaseio.com/v0/"@
}

/// The name of the resource that lists the ids of a category.
pub open spec fn endpoint(story_type: ListType) -> Seq<char> {
    match story_type {
        ListType::TopStories => "topstories"@,
        ListType::NewStories => "newstories"@,
        ListType::BestStories => "beststories"@,
        ListType::AskStories => "askstories"@,
        ListType::ShowStories => "showstories"@,
        ListType::JobStories => "jobstories"@,
    }
}

/// The address of the id list of a category.
pub open spec fn list_address(story_type: ListType) -> Seq<char> {
    uri_prefix() + endpoint(story_type) + ".json"@
}

/// The address of the item with the id `id`.
pub open spec fn item_address(id: Seq<char>) -> Seq<char> {
    uri_prefix() + "item/"@ + id + ".json"@
}

/// The address of the id list of a category.
pub fn stories_url(story_type: &ListType) -> (url: String)
    ensures
        url@ == list_address(*story_type),
{
    let name: &str = match story_type {
        ListType::TopStories => "topstories",
        ListType::NewStories => "newstories",
        ListType::BestStories => "beststories",
        ListType::AskStories => "askstories",
        ListType::ShowStories => "showstories",
        ListType::JobStories => "jobstories",
    };
    let mut url = String::from_str("https://hacker-news.firebaseio.com/v0/");
    url.append(name);
    url.append(".json");
    url
}

/// The address of the item whose id is written `id`.
pub fn item_url(id: &str) -> (url: String)
    ensures
        url@ == item_address(id@),
{
    let mut url = String::from_str("https://hacker-news.firebaseio.com/v0/");
    url.append("item/");
    url.append(id);
    url.append(".json");
    url
}

/// The address of the comment with the id `id`.
pub fn comment_url(id: i64) -> (url: String)
    ensures
        url@ == item_address(decimal(id as int)),
{
    let mut url = String::from_str("https://hacker-news.firebaseio.com/v0/");
    url.append("item/");
    push_decimal(&mut url, id);
    url.append(".json");
    url
}

} // verus!
