//! Hacker News API records and the article categories.
use vstd::prelude::*;
use vstd::string::*;
use crate::text::str_eq;

verus! {

/// The story lists that Hacker News publishes.
#[derive(Debug, Eq, PartialEq, Structural, Copy, Clone, Hash)]
pub enum ArticleType {
    New,
    Best,
    Top,
    Ask,
    Show,
    Job,
}

/// The display name of a category.
pub open spec fn article_type_name(t: ArticleType) -> Seq<char> {
    match t {
        ArticleType::New => "New"@,
        ArticleType::Best => "Best"@,
        ArticleType::Top => "Top"@,
        ArticleType::Ask => "Ask"@,
        ArticleType::Show => "Show"@,
        ArticleType::Job => "Job"@,
    }
}

impl ArticleType {
    /// The display name of this category.
    pub fn as_str(&self) -> (r: &'static str)
        ensures
            r@ == article_type_name(*self),
    {
        match self {
            ArticleType::New => "New",
            ArticleType::Best => "Best",
            ArticleType::Top => "Top",
            ArticleType::Ask => "Ask",
            ArticleType::Show => "Show",
            ArticleType::Job => "Job",
        }
    }
}

/// The category a display name denotes, if any.
pub open spec fn article_type_from_name(s: Seq<char>) -> Option<ArticleType> {
    if s == "New"@ {
        Some(ArticleType::New)
    } else if s == "Best"@ {
        Some(ArticleType::Best)
    } else if s == "Top"@ {
        Some(ArticleType::Top)
    } else if s == "Ask"@ {
        Some(ArticleType::Ask)
    } else if s == "Show"@ {
        Some(ArticleType::Show)
    } else if s == "Job"@ {
        Some(ArticleType::Job)
    } else {
        None
    }
}

impl ArticleType {
    /// Parses a display name; `None` for any other string.
    pub fn parse(s: &str) -> (r: Option<ArticleType>)
        ensures
            r == article_type_from_name(s@),
    {
        if str_eq(s, "New") {
            Some(ArticleType::New)
        } else if str_eq(s, "Best") {
            Some(ArticleType::Best)
        } else if str_eq(s, "Top") {
            Some(ArticleType::Top)
        } else if str_eq(s, "Ask") {
            Some(ArticleType::Ask)
        } else if str_eq(s, "Show") {
            Some(ArticleType::Show)
        } else if str_eq(s, "Job") {
            Some(ArticleType::Job)
        } else {
            None
        }
    }

    /// The display name as an owned string.
    pub fn to_string(&self) -> (r: String)
        ensures
            r@ == article_type_name(*self),
    {
        String::from_str(self.as_str())
    }
}

impl Default for ArticleType {
    fn default() -> (r: ArticleType)
        ensures
            r == ArticleType::Top,
    {
        ArticleType::Top
    }
}

impl core::str::FromStr for ArticleType {
    type Err = ();

    fn from_str(s: &str) -> (r: Result<ArticleType, ()>)
        ensures
            match article_type_from_name(s@) {
                Some(t) => r == Ok::<ArticleType, ()>(t),
                None => r is Err,
            },
    {
        match ArticleType::parse(s) {
            Some(t) => Ok(t),
            None => Err(()),
        }
    }
}

/// Parsing the display name of a category gives the category back.
pub proof fn lemma_article_type_round_trip(t: ArticleType)
    ensures
        article_type_from_name(article_type_name(t)) == Some(t),
{
    reveal_strlit("New");
    reveal_strlit("Best");
    reveal_strlit("Top");
    reveal_strlit("Ask");
    reveal_strlit("Show");
    reveal_strlit("Job");
    let names = seq!["New"@, "Best"@, "Top"@, "Ask"@, "Show"@, "Job"@];
    assert forall|i: int, j: int| 0 <= i < j < 6 implies names[i] != names[j] by {
        if names[i].len() == names[j].len() {
            assert(names[i][0] != names[j][0]);
        }
    }
    assert(names[0] != names[1] && names[0] != names[2] && names[0] != names[3]);
    assert(names[0] != names[4] && names[0] != names[5] && names[1] != names[2]);
    assert(names[1] != names[3] && names[1] != names[4] && names[1] != names[5]);
    assert(names[2] != names[3] && names[2] != names[4] && names[2] != names[5]);
    assert(names[3] != names[4] && names[3] != names[5] && names[4] != names[5]);
}

/// Only the six display names parse, and each names one category.
pub proof fn lemma_article_type_parse_only_names(s: Seq<char>)
    ensures
        article_type_from_name(s) is Some ==> article_type_name(article_type_from_name(s)->0) == s,
{
}

/// A Hacker News item: a story, comment, job, poll or poll option.
#[derive(Debug, Clone)]
pub struct Item {
    /// The item's unique id.
    pub id: u64,
    /// The ids of the item's comments, in ranked display order.
    pub kids: Vec<u64>,
    /// The comment, story or poll text. HTML.
    pub text: Option<String>,
    /// The URL of the story.
    pub url: Option<String>,
    /// The title of the story, poll or job. HTML.
    pub title: Option<String>,
    /// The story's score, or the votes for a poll option.
    pub score: u64,
    /// Creation date of the item, in Unix Time.
    pub time: u64,
    /// The username of the item's author.
    pub by: String,
    /// true if the item is dead.
    pub dead: bool,
    /// true if the item is deleted.
    pub deleted: bool,
    /// The type of item. One of "job", "story", "comment", "poll", or "pollopt".
    pub ty: String,
    /// The comment's parent: either another comment or the relevant story.
    pub parent: Option<u64>,
    /// In the case of stories or polls, the total comment count.
    pub descendants: Option<u64>,
}

/// A Hacker News user.
#[derive(Debug, Clone)]
pub struct User {
    pub id: String,
    pub about: Option<String>,
    pub created: u64,
    pub karma: u64,
    pub submitted: Vec<u64>,
}

/// An event of the story lists' event source.
#[derive(Debug)]
pub struct StoriesEventData {
    pub path: String,
    pub data: Vec<u64>,
}

/// An event of an item's event source.
#[derive(Debug)]
pub struct ItemEventData {
    pub path: String,
    pub data: Item,
}

/// Extension trait for results whose failure is reported where it is
/// consumed.
pub trait ResultExt<T, E>: Sized {
    /// The result, unchanged.
    fn log_error(self) -> (r: Self)
        ensures
            r == self,
    ;

    /// Consumes the result when its value is not needed.
    fn log_error_consume(self);
}

impl<T, E> ResultExt<T, E> for Result<T, E> {
    fn log_error(self) -> (r: Self) {
        self
    }

    fn log_error_consume(self) {
        let _ = self.log_error();
    }
}

} // verus!
