//! Stories and comments as the search index stores them: the fields a
//! fetched item is written with, how a stored document is read back, and
//! the decisions around keeping the index up to date.
use vstd::prelude::*;
use vstd::string::*;
use crate::text::{owned, str_eq};
use crate::types::{ArticleType, Item};

verus! {

/// Field holding the item id.
pub const ITEM_ID: &'static str = "id";
/// Field holding the parent item id.
pub const ITEM_PARENT_ID: &'static str = "parent_id";
/// Field holding the title.
pub const ITEM_TITLE: &'static str = "title";
/// Field holding the text.
pub const ITEM_BODY: &'static str = "body";
/// Field holding the story url.
pub const ITEM_URL: &'static str = "url";
/// Field holding the author.
pub const ITEM_BY: &'static str = "by";
/// Field holding the item type.
pub const ITEM_TYPE: &'static str = "type";
/// Field holding the rank within its list.
pub const ITEM_RANK: &'static str = "rank";
/// Field holding the comment count.
pub const ITEM_DESCENDANT_COUNT: &'static str = "descendants";
/// Field holding the story category; indexed, not stored.
pub const ITEM_CATEGORY: &'static str = "category";
/// Field holding the creation time.
pub const ITEM_TIME: &'static str = "time";
/// Field holding the id of a comment's story.
pub const ITEM_STORY_ID: &'static str = "story_id";
/// Field holding the child comment ids.
pub const ITEM_KIDS: &'static str = "kids";
/// Field holding the score.
pub const ITEM_SCORE: &'static str = "score";

/// A value of a document field.
#[derive(Debug)]
pub enum DocValue {
    Str(String),
    U64(u64),
    /// A value of another kind, which neither text nor number reads accept.
    Other,
}

/// One field value of a document.
#[derive(Debug)]
pub struct DocField {
    pub name: String,
    pub value: DocValue,
}

/// The view of a field value.
pub enum ValueView {
    Str(Seq<char>),
    U64(u64),
    Other,
}

impl View for DocValue {
    type V = ValueView;

    open spec fn view(&self) -> ValueView {
        match self {
            DocValue::Str(s) => ValueView::Str(s@),
            DocValue::U64(n) => ValueView::U64(*n),
            DocValue::Other => ValueView::Other,
        }
    }
}

impl View for DocField {
    type V = (Seq<char>, ValueView);

    open spec fn view(&self) -> (Seq<char>, ValueView) {
        (self.name@, self.value@)
    }
}

/// The view of a document.
pub open spec fn doc_view(d: Seq<DocField>) -> Seq<(Seq<char>, ValueView)> {
    Seq::new(d.len(), |i: int| d[i]@)
}

/// The values of field `name`, in document order.
pub open spec fn field_values(d: Seq<(Seq<char>, ValueView)>, name: Seq<char>) -> Seq<ValueView>
    decreases d.len(),
{
    if d.len() == 0 {
        Seq::empty()
    } else if d.last().0 == name {
        field_values(d.drop_last(), name).push(d.last().1)
    } else {
        field_values(d.drop_last(), name)
    }
}

/// The text read from field `name`: its last value, if that is text.
pub open spec fn read_str(d: Seq<(Seq<char>, ValueView)>, name: Seq<char>) -> Option<Seq<char>> {
    let vs = field_values(d, name);
    if vs.len() == 0 {
        None
    } else {
        match vs.last() {
            ValueView::Str(s) => Some(s),
            _ => None,
        }
    }
}

/// The number read from field `name`: its last value, if that is a number.
pub open spec fn read_u64(d: Seq<(Seq<char>, ValueView)>, name: Seq<char>) -> Option<u64> {
    let vs = field_values(d, name);
    if vs.len() == 0 {
        None
    } else {
        match vs.last() {
            ValueView::U64(n) => Some(n),
            _ => None,
        }
    }
}

/// The numbers among the values of a field, in order.
pub open spec fn numbers(vs: Seq<ValueView>) -> Seq<u64>
    decreases vs.len(),
{
    if vs.len() == 0 {
        Seq::empty()
    } else {
        match vs.last() {
            ValueView::U64(n) => numbers(vs.drop_last()).push(n),
            _ => numbers(vs.drop_last()),
        }
    }
}

/// The values of field `name` that are numbers, in order.
pub open spec fn read_u64s(d: Seq<(Seq<char>, ValueView)>, name: Seq<char>) -> Seq<u64> {
    numbers(field_values(d, name))
}

/// Search failures that reading documents can report.
#[derive(Debug)]
pub enum SearchError {
    /// The document lacks a field that must be present.
    MissingField(String),
    /// No document matched.
    MissingDoc,
    /// A document could not be transformed.
    BadDoc,
    /// A remote call timed out.
    TimedOut(String),
}

/// A Hacker News story.
#[derive(Debug, Clone)]
pub struct Story {
    /// Id
    pub id: u64,
    /// Title
    pub title: String,
    /// Body
    pub body: Option<String>,
    /// Url
    pub url: Option<String>,
    /// By
    pub by: String,
    /// Type
    pub ty: String,
    /// Descendant count
    pub descendants: u64,
    /// Time posted
    pub time: u64,
    /// Score
    pub score: u64,
    /// Rank
    pub rank: u64,
}

/// The view of a story.
pub struct StoryView {
    pub id: u64,
    pub title: Seq<char>,
    pub body: Option<Seq<char>>,
    pub url: Option<Seq<char>>,
    pub by: Seq<char>,
    pub ty: Seq<char>,
    pub descendants: u64,
    pub time: u64,
    pub score: u64,
    pub rank: u64,
}

/// The view of an optional string.
pub open spec fn opt_view(o: Option<String>) -> Option<Seq<char>> {
    match o {
        Some(s) => Some(s@),
        None => None,
    }
}

impl Story {
    /// How long ago the story was posted, as a friendly sentence; `None`
    /// when its time is out of range, or the clock cannot be read as a date.
    pub fn age_label(&self) -> (r: Option<String>)
        ensures
            exists|reading: Option<(u64, u32)>|
                crate::age::clock_ok(reading) && #[trigger] crate::age::friendly_age(self.time, reading)
                    == crate::age::label_view(r),
            r is Some ==> self.time <= i64::MAX && crate::age::representable(self.time as int),
            !(self.time <= i64::MAX && crate::age::representable(self.time as int)) ==> r is None,
            r matches Some(s) ==> crate::age::is_age_of(s@, self.time as int),
    {
        crate::age::parse_friendly_age(self.time)
    }
}

impl View for Story {
    type V = StoryView;

    open spec fn view(&self) -> StoryView {
        StoryView {
            id: self.id,
            title: self.title@,
            body: opt_view(self.body),
            url: opt_view(self.url),
            by: self.by@,
            ty: self.ty@,
            descendants: self.descendants,
            time: self.time,
            score: self.score,
            rank: self.rank,
        }
    }
}

/// A Hacker News comment.
#[derive(Debug, Clone)]
pub struct Comment {
    /// Id
    pub id: u64,
    /// Body
    pub body: String,
    /// By
    pub by: String,
    /// Time posted
    pub time: u64,
    /// Kids
    pub kids: Vec<u64>,
    /// Parent story
    pub story_id: u64,
    /// Parent comment or story
    pub parent_id: u64,
    /// Rank
    pub rank: u64,
}

/// The view of a comment.
pub struct CommentView {
    pub id: u64,
    pub body: Seq<char>,
    pub by: Seq<char>,
    pub time: u64,
    pub kids: Seq<u64>,
    pub story_id: u64,
    pub parent_id: u64,
    pub rank: u64,
}

impl View for Comment {
    type V = CommentView;

    open spec fn view(&self) -> CommentView {
        CommentView {
            id: self.id,
            body: self.body@,
            by: self.by@,
            time: self.time,
            kids: self.kids@,
            story_id: self.story_id,
            parent_id: self.parent_id,
            rank: self.rank,
        }
    }
}

/// A comment and the chain of its parents, up to its story.
#[derive(Debug)]
pub struct CommentStack {
    pub comments: Vec<Comment>,
    pub story: Story,
}

/// The story a stored document holds, or the name of the first required
/// field that is missing: id, title, author, type, time and rank are
/// required; a missing comment count reads as 0 and a missing score as 1.
pub open spec fn story_of(d: Seq<(Seq<char>, ValueView)>) -> Result<StoryView, Seq<char>> {
    if read_u64(d, "id"@) is None {
        Err("id"@)
    } else if read_str(d, "title"@) is None {
        Err("title"@)
    } else if read_str(d, "by"@) is None {
        Err("by"@)
    } else if read_str(d, "type"@) is None {
        Err("type"@)
    } else if read_u64(d, "time"@) is None {
        Err("time"@)
    } else if read_u64(d, "rank"@) is None {
        Err("rank"@)
    } else {
        Ok(StoryView {
            id: read_u64(d, "id"@)->0,
            title: read_str(d, "title"@)->0,
            body: read_str(d, "body"@),
            url: read_str(d, "url"@),
            by: read_str(d, "by"@)->0,
            ty: read_str(d, "type"@)->0,
            descendants: match read_u64(d, "descendants"@) { Some(n) => n, None => 0 },
            time: read_u64(d, "time"@)->0,
            score: match read_u64(d, "score"@) { Some(n) => n, None => 1 },
            rank: read_u64(d, "rank"@)->0,
        })
    }
}

/// The comment a stored document holds, or the name of the first required
/// field that is missing: id, body, author, time, story, parent and rank
/// are required; missing child ids read as none.
pub open spec fn comment_of(d: Seq<(Seq<char>, ValueView)>) -> Result<CommentView, Seq<char>> {
    if read_u64(d, "id"@) is None {
        Err("id"@)
    } else if read_str(d, "body"@) is None {
        Err("body"@)
    } else if read_str(d, "by"@) is None {
        Err("by"@)
    } else if read_u64(d, "time"@) is None {
        Err("time"@)
    } else if read_u64(d, "story_id"@) is None {
        Err("story_id"@)
    } else if read_u64(d, "parent_id"@) is None {
        Err("parent_id"@)
    } else if read_u64(d, "rank"@) is None {
        Err("rank"@)
    } else {
        Ok(CommentView {
            id: read_u64(d, "id"@)->0,
            body: read_str(d, "body"@)->0,
            by: read_str(d, "by"@)->0,
            time: read_u64(d, "time"@)->0,
            kids: read_u64s(d, "kids"@),
            story_id: read_u64(d, "story_id"@)->0,
            parent_id: read_u64(d, "parent_id"@)->0,
            rank: read_u64(d, "rank"@)->0,
        })
    }
}

/// The index of the last field named `name`.
fn last_index(doc: &Vec<DocField>, name: &str) -> (r: Option<usize>)
    ensures
        match r {
            Some(i) => i < doc@.len() && field_values(doc_view(doc@), name@).len() > 0
                && field_values(doc_view(doc@), name@).last() == doc@[i as int].value@,
            None => field_values(doc_view(doc@), name@).len() == 0,
        },
{
    let mut i: usize = doc.len();
    assert(doc@.take(doc@.len() as int) =~= doc@);
    while i > 0
        invariant
            i <= doc@.len(),
            field_values(doc_view(doc@), name@) == field_values(doc_view(doc@.take(i as int)), name@),
        decreases i,
    {
        assert(doc_view(doc@.take(i as int)).drop_last() =~= doc_view(doc@.take(i as int - 1)));
        assert(doc_view(doc@.take(i as int)).last() == doc@[i - 1]@);
        if str_eq(doc[i - 1].name.as_str(), name) {
            return Some(i - 1);
        }
        i = i - 1;
    }
    assert(doc_view(doc@.take(0)) =~= Seq::<(Seq<char>, ValueView)>::empty());
    None
}

/// The text read from field `name`.
pub fn str_value(doc: &Vec<DocField>, name: &str) -> (r: Option<String>)
    ensures
        opt_view(r) == read_str(doc_view(doc@), name@),
{
    match last_index(doc, name) {
        Some(i) => match &doc[i].value {
            DocValue::Str(s) => Some(owned(s.as_str())),
            _ => None,
        },
        None => None,
    }
}

/// The number read from field `name`.
pub fn u64_value(doc: &Vec<DocField>, name: &str) -> (r: Option<u64>)
    ensures
        r == read_u64(doc_view(doc@), name@),
{
    match last_index(doc, name) {
        Some(i) => match &doc[i].value {
            DocValue::U64(n) => Some(*n),
            _ => None,
        },
        None => None,
    }
}

/// The numbers among the values of field `name`, in order.
pub fn u64_values(doc: &Vec<DocField>, name: &str) -> (r: Vec<u64>)
    ensures
        r@ == read_u64s(doc_view(doc@), name@),
{
    let mut out: Vec<u64> = Vec::new();
    let mut i: usize = 0;
    while i < doc.len()
        invariant
            i <= doc@.len(),
            out@ == read_u64s(doc_view(doc@.take(i as int)), name@),
        decreases doc@.len() - i,
    {
        assert(doc_view(doc@.take(i as int + 1)).drop_last() =~= doc_view(doc@.take(i as int)));
        assert(doc_view(doc@.take(i as int + 1)).last() == doc@[i as int]@);
        let ghost before = field_values(doc_view(doc@.take(i as int)), name@);
        if str_eq(doc[i].name.as_str(), name) {
            assert(before.push(doc@[i as int].value@).drop_last() =~= before);
            match &doc[i].value {
                DocValue::U64(n) => out.push(*n),
                _ => {},
            }
        }
        i = i + 1;
    }
    assert(doc@.take(doc@.len() as int) =~= doc@);
    out
}

/// The error for a missing required field.
pub fn missing_field(field: &str) -> (r: SearchError)
    ensures
        r matches SearchError::MissingField(n) && n@ == field@,
{
    SearchError::MissingField(owned(field))
}

/// Reads the story a stored document holds.
pub fn story_from_doc(doc: &Vec<DocField>) -> (r: Result<Story, SearchError>)
    ensures
        match r {
            Ok(story) => story_of(doc_view(doc@)) == Ok::<StoryView, Seq<char>>(story@),
            Err(e) => story_of(doc_view(doc@)) matches Err(name) && e matches SearchError::MissingField(n) && n@ == name,
        },
{
    let id = match u64_value(doc, ITEM_ID) {
        Some(v) => v,
        None => return Err(missing_field(ITEM_ID)),
    };
    let title = match str_value(doc, ITEM_TITLE) {
        Some(v) => v,
        None => return Err(missing_field(ITEM_TITLE)),
    };
    let body = str_value(doc, ITEM_BODY);
    let url = str_value(doc, ITEM_URL);
    let by = match str_value(doc, ITEM_BY) {
        Some(v) => v,
        None => return Err(missing_field(ITEM_BY)),
    };
    let ty = match str_value(doc, ITEM_TYPE) {
        Some(v) => v,
        None => return Err(missing_field(ITEM_TYPE)),
    };
    let descendants = match u64_value(doc, ITEM_DESCENDANT_COUNT) {
        Some(v) => v,
        None => 0,
    };
    let time = match u64_value(doc, ITEM_TIME) {
        Some(v) => v,
        None => return Err(missing_field(ITEM_TIME)),
    };
    let score = match u64_value(doc, ITEM_SCORE) {
        Some(v) => v,
        None => 1,
    };
    let rank = match u64_value(doc, ITEM_RANK) {
        Some(v) => v,
        None => return Err(missing_field(ITEM_RANK)),
    };
    Ok(Story { id, title, body, url, by, ty, descendants, time, score, rank })
}

/// Reads the comment a stored document holds.
pub fn comment_from_doc(doc: &Vec<DocField>) -> (r: Result<Comment, SearchError>)
    ensures
        match r {
            Ok(comment) => comment_of(doc_view(doc@)) == Ok::<CommentView, Seq<char>>(comment@),
            Err(e) => comment_of(doc_view(doc@)) matches Err(name) && e matches SearchError::MissingField(n) && n@ == name,
        },
{
    let id = match u64_value(doc, ITEM_ID) {
        Some(v) => v,
        None => return Err(missing_field(ITEM_ID)),
    };
    let body = match str_value(doc, ITEM_BODY) {
        Some(v) => v,
        None => return Err(missing_field(ITEM_BODY)),
    };
    let by = match str_value(doc, ITEM_BY) {
        Some(v) => v,
        None => return Err(missing_field(ITEM_BY)),
    };
    let time = match u64_value(doc, ITEM_TIME) {
        Some(v) => v,
        None => return Err(missing_field(ITEM_TIME)),
    };
    let kids = u64_values(doc, ITEM_KIDS);
    let story_id = match u64_value(doc, ITEM_STORY_ID) {
        Some(v) => v,
        None => return Err(missing_field(ITEM_STORY_ID)),
    };
    let parent_id = match u64_value(doc, ITEM_PARENT_ID) {
        Some(v) => v,
        None => return Err(missing_field(ITEM_PARENT_ID)),
    };
    let rank = match u64_value(doc, ITEM_RANK) {
        Some(v) => v,
        None => return Err(missing_field(ITEM_RANK)),
    };
    Ok(Comment { id, body, by, time, kids, story_id, parent_id, rank })
}

/// The child comment ids as document fields.
pub open spec fn kid_fields(kids: Seq<u64>) -> Seq<(Seq<char>, ValueView)> {
    Seq::new(kids.len(), |i: int| ("kids"@, ValueView::U64(kids[i])))
}

/// Appends an optional number field.
pub open spec fn with_u64(d: Seq<(Seq<char>, ValueView)>, name: Seq<char>, v: Option<u64>) -> Seq<(Seq<char>, ValueView)> {
    match v {
        Some(n) => d.push((name, ValueView::U64(n))),
        None => d,
    }
}

/// Appends an optional text field.
pub open spec fn with_str(d: Seq<(Seq<char>, ValueView)>, name: Seq<char>, v: Option<String>) -> Seq<(Seq<char>, ValueView)> {
    match v {
        Some(s) => d.push((name, ValueView::Str(s@))),
        None => d,
    }
}

/// The fields an item is indexed with, in order: rank, id, parent, title,
/// text, url, author, type, comment count, story, then for a story its
/// category and score, then the time and each child comment id.
pub open spec fn item_doc(item: Item, rank: u64, story_id: Option<u64>, category: Seq<char>) -> Seq<(Seq<char>, ValueView)> {
    let d0 = seq![("rank"@, ValueView::U64(rank)), ("id"@, ValueView::U64(item.id))];
    let d1 = with_u64(d0, "parent_id"@, item.parent);
    let d2 = with_str(d1, "title"@, item.title);
    let d3 = with_str(d2, "body"@, item.text);
    let d4 = with_str(d3, "url"@, item.url);
    let d5 = d4.push(("by"@, ValueView::Str(item.by@))).push(("type"@, ValueView::Str(item.ty@)));
    let d6 = with_u64(d5, "descendants"@, item.descendants);
    let d7 = with_u64(d6, "story_id"@, story_id);
    let d8 = if item.ty@ == "story"@ {
        d7.push(("category"@, ValueView::Str(category))).push(("score"@, ValueView::U64(item.score)))
    } else {
        d7
    };
    d8.push(("time"@, ValueView::U64(item.time))) + kid_fields(item.kids@)
}

/// The fields that the index stores and gives back: all but the category,
/// which is only indexed.
pub open spec fn stored(d: Seq<(Seq<char>, ValueView)>) -> Seq<(Seq<char>, ValueView)>
    decreases d.len(),
{
    if d.len() == 0 {
        d
    } else if d.last().0 == "category"@ {
        stored(d.drop_last())
    } else {
        stored(d.drop_last()).push(d.last())
    }
}

fn push_u64(doc: &mut Vec<DocField>, name: &str, v: u64)
    ensures
        doc_view(final(doc)@) == doc_view(old(doc)@).push((name@, ValueView::U64(v))),
{
    doc.push(DocField { name: owned(name), value: DocValue::U64(v) });
    assert(doc_view(doc@) =~= doc_view(old(doc)@).push((name@, ValueView::U64(v))));
}

fn push_str(doc: &mut Vec<DocField>, name: &str, v: &str)
    ensures
        doc_view(final(doc)@) == doc_view(old(doc)@).push((name@, ValueView::Str(v@))),
{
    doc.push(DocField { name: owned(name), value: DocValue::Str(owned(v)) });
    assert(doc_view(doc@) =~= doc_view(old(doc)@).push((name@, ValueView::Str(v@))));
}

/// The fields an item is written to the index with; `rank` is its place in
/// its list, `story_id` the story of a comment and `category` the list of
/// a story.
pub fn document_fields(item: &Item, rank: u64, story_id: Option<u64>, category: &str) -> (r: Vec<DocField>)
    ensures
        doc_view(r@) == item_doc(*item, rank, story_id, category@),
{
    let mut doc: Vec<DocField> = Vec::new();
    assert(doc_view(doc@) =~= Seq::<(Seq<char>, ValueView)>::empty());
    push_u64(&mut doc, ITEM_RANK, rank);
    push_u64(&mut doc, ITEM_ID, item.id);
    assert(doc_view(doc@) =~= seq![("rank"@, ValueView::U64(rank)), ("id"@, ValueView::U64(item.id))]);
    if let Some(id) = item.parent {
        push_u64(&mut doc, ITEM_PARENT_ID, id);
    }
    if let Some(t) = &item.title {
        push_str(&mut doc, ITEM_TITLE, t.as_str());
    }
    if let Some(t) = &item.text {
        push_str(&mut doc, ITEM_BODY, t.as_str());
    }
    if let Some(u) = &item.url {
        push_str(&mut doc, ITEM_URL, u.as_str());
    }
    push_str(&mut doc, ITEM_BY, item.by.as_str());
    push_str(&mut doc, ITEM_TYPE, item.ty.as_str());
    if let Some(n) = item.descendants {
        push_u64(&mut doc, ITEM_DESCENDANT_COUNT, n);
    }
    if let Some(id) = story_id {
        push_u64(&mut doc, ITEM_STORY_ID, id);
    }
    if str_eq(item.ty.as_str(), "story") {
        push_str(&mut doc, ITEM_CATEGORY, category);
        push_u64(&mut doc, ITEM_SCORE, item.score);
    }
    push_u64(&mut doc, ITEM_TIME, item.time);
    let ghost base = doc_view(doc@);
    let mut i: usize = 0;
    while i < item.kids.len()
        invariant
            i <= item.kids@.len(),
            doc_view(doc@) == base + kid_fields(item.kids@.take(i as int)),
        decreases item.kids@.len() - i,
    {
        push_u64(&mut doc, ITEM_KIDS, item.kids[i]);
        i = i + 1;
        assert(kid_fields(item.kids@.take(i as int)) =~= kid_fields(item.kids@.take(i - 1)).push(("kids"@, ValueView::U64(item.kids@[i - 1]))));
        assert(base + kid_fields(item.kids@.take(i as int)) =~= (base + kid_fields(item.kids@.take(i - 1))).push(("kids"@, ValueView::U64(item.kids@[i - 1]))));
    }
    assert(item.kids@.take(item.kids@.len() as int) =~= item.kids@);
    doc
}

/// The values of a field after one more field is appended.
pub broadcast proof fn lemma_field_values_push(d: Seq<(Seq<char>, ValueView)>, x: (Seq<char>, ValueView), n: Seq<char>)
    ensures
        #[trigger] field_values(d.push(x), n) == if x.0 == n { field_values(d, n).push(x.1) } else { field_values(d, n) },
{
    assert(d.push(x).drop_last() =~= d);
}

/// Appending child ids changes no other field.
proof fn lemma_field_values_kids(d: Seq<(Seq<char>, ValueView)>, kids: Seq<u64>, n: Seq<char>)
    ensures
        n != "kids"@ ==> field_values(d + kid_fields(kids), n) == field_values(d, n),
        n == "kids"@ ==> numbers(field_values(d + kid_fields(kids), n)) == numbers(field_values(d, n)) + kids,
    decreases kids.len(),
{
    broadcast use lemma_field_values_push;
    if kids.len() == 0 {
        assert(d + kid_fields(kids) =~= d);
        assert(numbers(field_values(d, n)) + kids =~= numbers(field_values(d, n)));
    } else {
        let k0 = kids.drop_last();
        lemma_field_values_kids(d, k0, n);
        assert(d + kid_fields(kids) =~= (d + kid_fields(k0)).push(("kids"@, ValueView::U64(kids.last()))));
        if n == "kids"@ {
            let fv = field_values(d + kid_fields(k0), n);
            assert(fv.push(ValueView::U64(kids.last())).drop_last() =~= fv);
            assert(numbers(field_values(d, n)) + k0.push(kids.last()) =~= (numbers(field_values(d, n)) + k0).push(kids.last()));
            assert(k0.push(kids.last()) =~= kids);
        }
    }
}

/// Storing a document keeps every field but the category.
proof fn lemma_stored_field_values(d: Seq<(Seq<char>, ValueView)>, n: Seq<char>)
    requires
        n != "category"@,
    ensures
        field_values(stored(d), n) == field_values(d, n),
    decreases d.len(),
{
    broadcast use lemma_field_values_push;
    if d.len() > 0 {
        lemma_stored_field_values(d.drop_last(), n);
        assert(d.drop_last().push(d.last()) =~= d);
    }
}

/// The field names are pairwise different.
proof fn lemma_field_names_distinct()
    ensures
        ({
            let names = seq!["id"@, "parent_id"@, "title"@, "body"@, "url"@, "by"@, "type"@, "rank"@,
                "descendants"@, "category"@, "time"@, "story_id"@, "kids"@, "score"@];
            forall|i: int, j: int| 0 <= i < j < 14 ==> names[i] != names[j]
        }),
{
    reveal_strlit("id");
    reveal_strlit("parent_id");
    reveal_strlit("title");
    reveal_strlit("body");
    reveal_strlit("url");
    reveal_strlit("by");
    reveal_strlit("type");
    reveal_strlit("rank");
    reveal_strlit("descendants");
    reveal_strlit("category");
    reveal_strlit("time");
    reveal_strlit("story_id");
    reveal_strlit("kids");
    reveal_strlit("score");
    let names = seq!["id"@, "parent_id"@, "title"@, "body"@, "url"@, "by"@, "type"@, "rank"@,
        "descendants"@, "category"@, "time"@, "story_id"@, "kids"@, "score"@];
    assert forall|i: int, j: int| 0 <= i < j < 14 implies names[i] != names[j] by {
        if names[i].len() == names[j].len() {
            if names[i][0] == names[j][0] {
                assert(names[i][1] != names[j][1]);
            }
        }
    }
}

/// Writing a titled item to the index and reading the stored document back
/// as a story gives the item's fields: the text as body, a missing comment
/// count as 0, and the score for a story (any other type reads as 1).
pub proof fn lemma_story_round_trip(item: Item, rank: u64, category: Seq<char>)
    requires
        item.title is Some,
    ensures
        story_of(stored(item_doc(item, rank, None, category))) == Ok::<StoryView, Seq<char>>(StoryView {
            id: item.id,
            title: item.title->0@,
            body: opt_view(item.text),
            url: opt_view(item.url),
            by: item.by@,
            ty: item.ty@,
            descendants: match item.descendants { Some(n) => n, None => 0 },
            time: item.time,
            score: if item.ty@ == "story"@ { item.score } else { 1 },
            rank: rank,
        }),
{
    broadcast use lemma_field_values_push;
    lemma_field_names_distinct();
    let names = seq!["id"@, "parent_id"@, "title"@, "body"@, "url"@, "by"@, "type"@, "rank"@,
        "descendants"@, "category"@, "time"@, "story_id"@, "kids"@, "score"@];
    let d = item_doc(item, rank, None, category);
    let base = d.subrange(0, d.len() - item.kids@.len());
    assert(d =~= base + kid_fields(item.kids@));
    assert forall|k: int| 0 <= k < 14 && k != 12 && k != 9 implies
        #[trigger] field_values(stored(d), names[k]) == field_values(base, names[k]) by {
        lemma_stored_field_values(d, names[k]);
        lemma_field_values_kids(base, item.kids@, names[k]);
    }
    assert(field_values(stored(d), "id"@) == field_values(base, "id"@)) by { assert(names[0] == "id"@); }
    assert(field_values(stored(d), "title"@) == field_values(base, "title"@)) by { assert(names[2] == "title"@); }
    assert(field_values(stored(d), "body"@) == field_values(base, "body"@)) by { assert(names[3] == "body"@); }
    assert(field_values(stored(d), "url"@) == field_values(base, "url"@)) by { assert(names[4] == "url"@); }
    assert(field_values(stored(d), "by"@) == field_values(base, "by"@)) by { assert(names[5] == "by"@); }
    assert(field_values(stored(d), "type"@) == field_values(base, "type"@)) by { assert(names[6] == "type"@); }
    assert(field_values(stored(d), "rank"@) == field_values(base, "rank"@)) by { assert(names[7] == "rank"@); }
    assert(field_values(stored(d), "descendants"@) == field_values(base, "descendants"@)) by { assert(names[8] == "descendants"@); }
    assert(field_values(stored(d), "time"@) == field_values(base, "time"@)) by { assert(names[10] == "time"@); }
    assert(field_values(stored(d), "score"@) == field_values(base, "score"@)) by { assert(names[13] == "score"@); }
    let d0 = seq![("rank"@, ValueView::U64(rank)), ("id"@, ValueView::U64(item.id))];
    let d1 = with_u64(d0, "parent_id"@, item.parent);
    let d2 = with_str(d1, "title"@, item.title);
    let d3 = with_str(d2, "body"@, item.text);
    let d4 = with_str(d3, "url"@, item.url);
    let d5 = d4.push(("by"@, ValueView::Str(item.by@))).push(("type"@, ValueView::Str(item.ty@)));
    let d6 = with_u64(d5, "descendants"@, item.descendants);
    let d7 = with_u64(d6, "story_id"@, None);
    let d8 = if item.ty@ == "story"@ {
        d7.push(("category"@, ValueView::Str(category))).push(("score"@, ValueView::U64(item.score)))
    } else {
        d7
    };
    assert(base =~= d8.push(("time"@, ValueView::U64(item.time))));
    let e = Seq::<(Seq<char>, ValueView)>::empty();
    assert(d0 =~= e.push(("rank"@, ValueView::U64(rank))).push(("id"@, ValueView::U64(item.id))));
    assert(field_values(e, "id"@) =~= Seq::<ValueView>::empty());
    assert(read_u64(base, "id"@) == Some(item.id));
    assert(read_str(base, "title"@) == Some(item.title->0@));
    assert(read_str(base, "by"@) == Some(item.by@));
    assert(read_str(base, "type"@) == Some(item.ty@));
    assert(read_u64(base, "time"@) == Some(item.time));
    assert(read_u64(base, "rank"@) == Some(rank));
    assert(read_str(base, "body"@) == opt_view(item.text));
    assert(read_str(base, "url"@) == opt_view(item.url));
}

/// Writing an item without a title to the index and reading the stored
/// document back as a story fails on the missing title.
pub proof fn lemma_untitled_story_is_missing_title(item: Item, rank: u64, category: Seq<char>)
    requires
        item.title is None,
    ensures
        story_of(stored(item_doc(item, rank, None, category))) == Err::<StoryView, Seq<char>>("title"@),
{
    broadcast use lemma_field_values_push;
    lemma_field_names_distinct();
    let names = seq!["id"@, "parent_id"@, "title"@, "body"@, "url"@, "by"@, "type"@, "rank"@,
        "descendants"@, "category"@, "time"@, "story_id"@, "kids"@, "score"@];
    let d = item_doc(item, rank, None, category);
    let base = d.subrange(0, d.len() - item.kids@.len());
    assert(d =~= base + kid_fields(item.kids@));
    assert forall|k: int| 0 <= k < 14 && k != 12 && k != 9 implies
        #[trigger] field_values(stored(d), names[k]) == field_values(base, names[k]) by {
        lemma_stored_field_values(d, names[k]);
        lemma_field_values_kids(base, item.kids@, names[k]);
    }
    assert(field_values(stored(d), "id"@) == field_values(base, "id"@)) by { assert(names[0] == "id"@); }
    assert(field_values(stored(d), "title"@) == field_values(base, "title"@)) by { assert(names[2] == "title"@); }
    let d0 = seq![("rank"@, ValueView::U64(rank)), ("id"@, ValueView::U64(item.id))];
    let d1 = with_u64(d0, "parent_id"@, item.parent);
    let d2 = with_str(d1, "title"@, item.title);
    let d3 = with_str(d2, "body"@, item.text);
    let d4 = with_str(d3, "url"@, item.url);
    let d5 = d4.push(("by"@, ValueView::Str(item.by@))).push(("type"@, ValueView::Str(item.ty@)));
    let d6 = with_u64(d5, "descendants"@, item.descendants);
    let d7 = with_u64(d6, "story_id"@, None);
    let d8 = if item.ty@ == "story"@ {
        d7.push(("category"@, ValueView::Str(category))).push(("score"@, ValueView::U64(item.score)))
    } else {
        d7
    };
    assert(base =~= d8.push(("time"@, ValueView::U64(item.time))));
    let e = Seq::<(Seq<char>, ValueView)>::empty();
    assert(d0 =~= e.push(("rank"@, ValueView::U64(rank))).push(("id"@, ValueView::U64(item.id))));
    assert(field_values(e, "id"@) =~= Seq::<ValueView>::empty());
    assert(field_values(e, "title"@) =~= Seq::<ValueView>::empty());
    assert(read_u64(base, "id"@) == Some(item.id));
    assert(read_str(base, "title"@) is None);
}

/// Writing a comment (an item with text and a parent) to the index with its
/// story and reading the stored document back as a comment gives the
/// item's fields, its child ids in order.
pub proof fn lemma_comment_round_trip(item: Item, rank: u64, story_id: u64, category: Seq<char>)
    requires
        item.text is Some,
        item.parent is Some,
    ensures
        comment_of(stored(item_doc(item, rank, Some(story_id), category))) == Ok::<CommentView, Seq<char>>(CommentView {
            id: item.id,
            body: item.text->0@,
            by: item.by@,
            time: item.time,
            kids: item.kids@,
            story_id: story_id,
            parent_id: item.parent->0,
            rank: rank,
        }),
{
    broadcast use lemma_field_values_push;
    lemma_field_names_distinct();
    let names = seq!["id"@, "parent_id"@, "title"@, "body"@, "url"@, "by"@, "type"@, "rank"@,
        "descendants"@, "category"@, "time"@, "story_id"@, "kids"@, "score"@];
    let d = item_doc(item, rank, Some(story_id), category);
    let base = d.subrange(0, d.len() - item.kids@.len());
    assert(d =~= base + kid_fields(item.kids@));
    assert forall|k: int| 0 <= k < 14 && k != 12 && k != 9 implies
        #[trigger] field_values(stored(d), names[k]) == field_values(base, names[k]) by {
        lemma_stored_field_values(d, names[k]);
        lemma_field_values_kids(base, item.kids@, names[k]);
    }
    assert(field_values(stored(d), "id"@) == field_values(base, "id"@)) by { assert(names[0] == "id"@); }
    assert(field_values(stored(d), "parent_id"@) == field_values(base, "parent_id"@)) by { assert(names[1] == "parent_id"@); }
    assert(field_values(stored(d), "body"@) == field_values(base, "body"@)) by { assert(names[3] == "body"@); }
    assert(field_values(stored(d), "by"@) == field_values(base, "by"@)) by { assert(names[5] == "by"@); }
    assert(field_values(stored(d), "rank"@) == field_values(base, "rank"@)) by { assert(names[7] == "rank"@); }
    assert(field_values(stored(d), "time"@) == field_values(base, "time"@)) by { assert(names[10] == "time"@); }
    assert(field_values(stored(d), "story_id"@) == field_values(base, "story_id"@)) by { assert(names[11] == "story_id"@); }
    lemma_stored_field_values(d, "kids"@);
    lemma_field_values_kids(base, item.kids@, "kids"@);
    let d0 = seq![("rank"@, ValueView::U64(rank)), ("id"@, ValueView::U64(item.id))];
    let d1 = with_u64(d0, "parent_id"@, item.parent);
    let d2 = with_str(d1, "title"@, item.title);
    let d3 = with_str(d2, "body"@, item.text);
    let d4 = with_str(d3, "url"@, item.url);
    let d5 = d4.push(("by"@, ValueView::Str(item.by@))).push(("type"@, ValueView::Str(item.ty@)));
    let d6 = with_u64(d5, "descendants"@, item.descendants);
    let d7 = with_u64(d6, "story_id"@, Some(story_id));
    let d8 = if item.ty@ == "story"@ {
        d7.push(("category"@, ValueView::Str(category))).push(("score"@, ValueView::U64(item.score)))
    } else {
        d7
    };
    assert(base =~= d8.push(("time"@, ValueView::U64(item.time))));
    let e = Seq::<(Seq<char>, ValueView)>::empty();
    assert(d0 =~= e.push(("rank"@, ValueView::U64(rank))).push(("id"@, ValueView::U64(item.id))));
    assert(field_values(e, "id"@) =~= Seq::<ValueView>::empty());
    assert(field_values(base, "kids"@) =~= Seq::<ValueView>::empty());
    assert(numbers(Seq::<ValueView>::empty()) + item.kids@ =~= item.kids@);
    assert(read_u64(base, "id"@) == Some(item.id));
    assert(read_str(base, "body"@) == Some(item.text->0@));
    assert(read_str(base, "by"@) == Some(item.by@));
    assert(read_u64(base, "time"@) == Some(item.time));
    assert(read_u64(base, "story_id"@) == Some(story_id));
    assert(read_u64(base, "parent_id"@) == Some(item.parent->0));
    assert(read_u64(base, "rank"@) == Some(rank));
}

/// Whether every character is an ASCII digit.
pub open spec fn all_digits(s: Seq<char>) -> bool {
    forall|i: int| 0 <= i < s.len() ==> '0' <= #[trigger] s[i] <= '9'
}

/// The number an all-digit string writes in decimal.
pub open spec fn digits_value(s: Seq<char>) -> nat
    decreases s.len(),
{
    if s.len() == 0 {
        0
    } else {
        digits_value(s.drop_last()) * 10 + ((s.last() as u32) - ('0' as u32)) as nat
    }
}

/// What `str::parse::<u64>` gives: an optional `+`, then at least one
/// digit, all digits, of a value that fits.
pub open spec fn parse_u64_of(s: Seq<char>) -> Option<u64> {
    let digits = if s.len() > 0 && s[0] == '+' { s.skip(1) } else { s };
    if digits.len() == 0 || !all_digits(digits) || digits_value(digits) > u64::MAX {
        None
    } else {
        Some(digits_value(digits) as u64)
    }
}

proof fn lemma_digits_value_grows(s: Seq<char>, k: int)
    requires
        0 <= k <= s.len(),
        all_digits(s),
    ensures
        digits_value(s.take(k)) <= digits_value(s),
    decreases s.len() - k,
{
    if k < s.len() {
        lemma_digits_value_grows(s, k + 1);
        assert(s.take(k + 1).drop_last() =~= s.take(k));
        assert(s.take(k + 1).last() == s[k]);
        assert('0' <= s[k] <= '9');
    } else {
        assert(s.take(k) =~= s);
    }
}

/// Parses a decimal `u64` the way `str::parse::<u64>` does.
pub fn parse_u64(s: &str) -> (r: Option<u64>)
    ensures
        r == parse_u64_of(s@),
{
    let chars = crate::text::chars_of(s);
    let n = chars.len();
    let start: usize = if n > 0 && chars[0] == '+' { 1 } else { 0 };
    let ghost digits = if s@.len() > 0 && s@[0] == '+' { s@.skip(1) } else { s@ };
    assert(digits =~= s@.skip(start as int));
    assert(parse_u64_of(s@) == (if digits.len() == 0 || !all_digits(digits) || digits_value(digits) > u64::MAX {
        None
    } else {
        Some(digits_value(digits) as u64)
    }));
    if start >= n {
        return None;
    }
    let mut value: u64 = 0;
    let mut i: usize = start;
    while i < n
        invariant
            start <= i <= n,
            n == s@.len(),
            chars@ == s@,
            digits == s@.skip(start as int),
            parse_u64_of(s@) == (if digits.len() == 0 || !all_digits(digits) || digits_value(digits) > u64::MAX {
                None
            } else {
                Some(digits_value(digits) as u64)
            }),
            all_digits(s@.subrange(start as int, i as int)),
            value as nat == digits_value(s@.subrange(start as int, i as int)),
        decreases n - i,
    {
        let c = chars[i];
        assert(s@.subrange(start as int, i + 1).drop_last() =~= s@.subrange(start as int, i as int));
        if c < '0' || c > '9' {
            proof {
                assert(digits[i - start] == c);
                if all_digits(digits) {
                    assert('0' <= digits[i - start] <= '9');
                }
                assert(!all_digits(digits));
            }
            return None;
        }
        let d = (c as u32 - '0' as u32) as u64;
        if value > 1844674407370955161u64 || (value == 1844674407370955161u64 && d > 5) {
            proof {
                let k = (i - start) as int;
                let pre = s@.subrange(start as int, i + 1);
                assert(pre.last() == c);
                assert(digits_value(pre) == value as nat * 10 + d as nat);
                assert(value as nat * 10 + d as nat > u64::MAX) by (nonlinear_arith)
                    requires
                        value > 1844674407370955161u64 || (value == 1844674407370955161u64 && d > 5),
                        d < 10,
                ;
                if all_digits(digits) {
                    assert(digits.take(k + 1) =~= s@.subrange(start as int, i + 1));
                    lemma_digits_value_grows(digits, k + 1);
                    assert(digits_value(digits) > u64::MAX);
                }
                assert(parse_u64_of(s@) is None);
            }
            return None;
        }
        value = value * 10 + d;
        i = i + 1;
    }
    assert(s@.subrange(start as int, n as int) =~= digits);
    Some(value)
}

/// How a story search is run: a number looks up that story by id, any
/// other text searches story titles.
#[derive(Debug)]
pub enum StoryQuery {
    ById(u64),
    Text(String),
}

/// The query text that restricts a search to stories, jobs and polls.
pub open spec fn story_types_query() -> Seq<char> {
    "type: IN [story, job, poll]"@
}

/// The query for a story search.
pub fn story_search_query(search: &str) -> (r: StoryQuery)
    ensures
        match parse_u64_of(search@) {
            Some(id) => r == StoryQuery::ById(id),
            None => r matches StoryQuery::Text(q) && q@ == story_types_query() + " AND title:"@ + search@,
        },
{
    match parse_u64(search) {
        Some(id) => StoryQuery::ById(id),
        None => {
            let mut q = String::from_str("type: IN [story, job, poll]");
            q.append(" AND title:");
            q.append(search);
            StoryQuery::Text(q)
        },
    }
}

/// The query for the top stories list.
pub fn top_stories_query() -> (r: String)
    ensures
        r@ == story_types_query(),
{
    String::from_str("type: IN [story, job, poll]")
}

/// The next parent to look up when walking from a comment up to its story:
/// its parent, unless that is the story itself.
pub fn next_parent(comment: &Comment) -> (r: Option<u64>)
    ensures
        r == if comment.parent_id != comment.story_id { Some(comment.parent_id) } else { None },
{
    if comment.parent_id != comment.story_id {
        Some(comment.parent_id)
    } else {
        None
    }
}

/// What to do when a watched story reports a new version.
#[derive(Debug, Copy, Clone, PartialEq, Eq, Structural)]
pub enum StoryEventAction {
    /// The story is dead or deleted: stop watching.
    Stop,
    /// Comment count or score changed: index the story again.
    Rebuild,
    /// Nothing that the index shows has changed.
    Ignore,
}

/// The comment count an item reports, none counting as 0.
pub open spec fn descendant_count(item: Item) -> u64 {
    match item.descendants {
        Some(n) => n,
        None => 0,
    }
}

/// Decides how to handle a new version `latest` of the watched `current`.
pub fn story_event_action(current: &Story, latest: &Item) -> (r: StoryEventAction)
    ensures
        r == if latest.deleted || latest.dead {
            StoryEventAction::Stop
        } else if descendant_count(*latest) != current.descendants || latest.score != current.score {
            StoryEventAction::Rebuild
        } else {
            StoryEventAction::Ignore
        },
{
    if latest.deleted || latest.dead {
        return StoryEventAction::Stop;
    }
    let latest_descendants = match latest.descendants {
        Some(n) => n,
        None => 0,
    };
    if latest_descendants != current.descendants || latest.score != current.score {
        StoryEventAction::Rebuild
    } else {
        StoryEventAction::Ignore
    }
}

/// Whether a story must be indexed again: its comment count changed.
pub fn needs_reindex(story: &Story, latest: &Item) -> (r: bool)
    ensures
        r == (descendant_count(*latest) != story.descendants),
{
    let latest_descendants = match latest.descendants {
        Some(n) => n,
        None => 0,
    };
    latest_descendants != story.descendants
}

/// Progress of an index rebuild.
#[derive(Debug, Clone, Copy)]
pub enum RebuildProgress {
    Started(usize),
    StoryCompleted,
    Completed,
}

/// Counts of an index and when and how fast it was built.
#[derive(Debug, Clone, Copy)]
pub struct IndexStats {
    pub total_documents: u64,
    pub total_comments: u64,
    pub total_stories: u64,
    pub total_jobs: u64,
    pub total_polls: u64,
    pub build_time: std::time::Duration,
    pub built_on: u64,
    pub category: ArticleType,
}

} // verus!
