//! The first, simpler form of stories and comments read from the index:
//! every field but the body and the link is required, and a document that
//! lacks one is skipped.
use vstd::prelude::*;
use vstd::string::*;
use crate::search::{
    doc_view, opt_view, read_str, read_u64, str_value, u64_value, DocField, ValueView, ITEM_BODY, ITEM_BY,
    ITEM_DESCENDANT_COUNT, ITEM_ID, ITEM_TIME, ITEM_TITLE, ITEM_TYPE, ITEM_URL,
};
use crate::text::push_decimal_u64;

verus! {

/// Hacker news story
#[derive(Debug)]
pub struct Story {
    /// Id
    pub id: u64,
    /// Title
    pub title: String,
    /// Body
    pub body: Option<String>,
    /// Url
    pub url: Option<String>,
    /// By
    pub by: String,
    /// Type
    pub ty: String,
    /// Descendant count
    pub descendants: u64,
    /// Time posted
    pub time: u64,
}

/// The view of a story.
pub struct StoryView {
    pub id: u64,
    pub title: Seq<char>,
    pub body: Option<Seq<char>>,
    pub url: Option<Seq<char>>,
    pub by: Seq<char>,
    pub ty: Seq<char>,
    pub descendants: u64,
    pub time: u64,
}

impl View for Story {
    type V = StoryView;

    open spec fn view(&self) -> StoryView {
        StoryView {
            id: self.id,
            title: self.title@,
            body: opt_view(self.body),
            url: opt_view(self.url),
            by: self.by@,
            ty: self.ty@,
            descendants: self.descendants,
            time: self.time,
        }
    }
}

/// Hacker news comment
#[derive(Debug)]
pub struct Comment {
    /// Id
    pub id: u64,
    /// Body
    pub body: String,
    /// By
    pub by: String,
    /// Time posted
    pub time: u64,
}

/// The view of a comment.
pub struct CommentView {
    pub id: u64,
    pub body: Seq<char>,
    pub by: Seq<char>,
    pub time: u64,
}

impl View for Comment {
    type V = CommentView;

    open spec fn view(&self) -> CommentView {
        CommentView { id: self.id, body: self.body@, by: self.by@, time: self.time }
    }
}

/// The story a stored document holds, if it has every required field.
pub open spec fn story_of(d: Seq<(Seq<char>, ValueView)>) -> Option<StoryView> {
    if read_u64(d, "id"@) is Some && read_str(d, "title"@) is Some && read_str(d, "by"@) is Some
        && read_str(d, "type"@) is Some && read_u64(d, "descendants"@) is Some && read_u64(d, "time"@) is Some {
        Some(StoryView {
            id: read_u64(d, "id"@)->0,
            title: read_str(d, "title"@)->0,
            body: read_str(d, "body"@),
            url: read_str(d, "url"@),
            by: read_str(d, "by"@)->0,
            ty: read_str(d, "type"@)->0,
            descendants: read_u64(d, "descendants"@)->0,
            time: read_u64(d, "time"@)->0,
        })
    } else {
        None
    }
}

/// The comment a stored document holds, if it has every required field.
pub open spec fn comment_of(d: Seq<(Seq<char>, ValueView)>) -> Option<CommentView> {
    if read_u64(d, "id"@) is Some && read_str(d, "body"@) is Some && read_str(d, "by"@) is Some
        && read_u64(d, "time"@) is Some {
        Some(CommentView {
            id: read_u64(d, "id"@)->0,
            body: read_str(d, "body"@)->0,
            by: read_str(d, "by"@)->0,
            time: read_u64(d, "time"@)->0,
        })
    } else {
        None
    }
}

/// The story a stored document holds; none when a required field is
/// missing or of another kind.
pub fn story_from_fields(doc: &Vec<DocField>) -> (r: Option<Story>)
    ensures
        match r {
            Some(s) => story_of(doc_view(doc@)) == Some(s@),
            None => story_of(doc_view(doc@)) is None,
        },
{
    proof {
        reveal_strlit("id");
        reveal_strlit("title");
        reveal_strlit("body");
        reveal_strlit("url");
        reveal_strlit("by");
        reveal_strlit("type");
        reveal_strlit("descendants");
        reveal_strlit("time");
    }
    let id = u64_value(doc, ITEM_ID)?;
    let title = str_value(doc, ITEM_TITLE)?;
    let body = str_value(doc, ITEM_BODY);
    let url = str_value(doc, ITEM_URL);
    let by = str_value(doc, ITEM_BY)?;
    let ty = str_value(doc, ITEM_TYPE)?;
    let descendants = u64_value(doc, ITEM_DESCENDANT_COUNT)?;
    let time = u64_value(doc, ITEM_TIME)?;
    Some(Story { id, title, body, url, by, ty, descendants, time })
}

/// The comment a stored document holds; none when a required field is
/// missing or of another kind.
pub fn comment_from_fields(doc: &Vec<DocField>) -> (r: Option<Comment>)
    ensures
        match r {
            Some(c) => comment_of(doc_view(doc@)) == Some(c@),
            None => comment_of(doc_view(doc@)) is None,
        },
{
    proof {
        reveal_strlit("id");
        reveal_strlit("body");
        reveal_strlit("by");
        reveal_strlit("time");
    }
    let id = u64_value(doc, ITEM_ID)?;
    let body = str_value(doc, ITEM_BODY)?;
    let by = str_value(doc, ITEM_BY)?;
    let time = u64_value(doc, ITEM_TIME)?;
    Some(Comment { id, body, by, time })
}

/// The query for the top stories of the index.
pub fn top_stories_query() -> (r: &'static str)
    ensures
        r@ == "category:top AND type:story"@,
{
    "category:top AND type:story"
}

/// The query for the comments under `parent_id`.
pub fn comments_query(parent_id: u64) -> (r: String)
    ensures
        r@ == "parent_id:"@ + crate::text::decimal(parent_id as int),
{
    let mut out = crate::text::owned("parent_id:");
    push_decimal_u64(&mut out, parent_id);
    out
}

} // verus!
