//! What the content pane shows, the history of what it showed, and how
//! opening comments, searching, switching index and going back move
//! between them.
use vstd::prelude::*;
use vstd::string::*;
use crate::comments::{
    comment_step, comments_view, navs_view, opt_text, step_ok, CommentMsg, CommentState, CommentTask, MsgView, NavStack,
    NavView, StateView, TaskView,
};
use crate::full_search::{
    full_step, full_step_ok, CriteriaView, FullMsgView, FullSearchMsg, FullSearchState, FullSearchTask, FullStateView,
    FullTaskView, SearchCriteria,
};
use crate::search::{Comment, CommentView, Story, StoryView};
use crate::text::owned;
use crate::types::ArticleType;

verus! {

/// History for the comment state.
#[derive(Debug)]
pub struct CommentHistory {
    pub story_id: u64,
    pub search: Option<String>,
    pub oneline: bool,
    pub offset: usize,
    pub page: usize,
    pub parent_id: u64,
    pub active_comment_id: Option<u64>,
    pub category: ArticleType,
}

/// The view of the history of a comment state.
pub struct CommentHistoryView {
    pub story_id: u64,
    pub search: Option<Seq<char>>,
    pub oneline: bool,
    pub offset: usize,
    pub page: usize,
    pub parent_id: u64,
    pub active: Option<u64>,
    pub category: ArticleType,
}

impl View for CommentHistory {
    type V = CommentHistoryView;

    open spec fn view(&self) -> CommentHistoryView {
        CommentHistoryView {
            story_id: self.story_id,
            search: opt_text(self.search),
            oneline: self.oneline,
            offset: self.offset,
            page: self.page,
            parent_id: self.parent_id,
            active: self.active_comment_id,
            category: self.category,
        }
    }
}

/// History for the search state.
#[derive(Debug)]
pub struct SearchHistory {
    pub search: SearchCriteria,
    pub offset: usize,
    pub page: usize,
    pub category: ArticleType,
}

/// The view of the history of a search state.
pub struct SearchHistoryView {
    pub search: CriteriaView,
    pub offset: usize,
    pub page: usize,
    pub category: ArticleType,
}

impl View for SearchHistory {
    type V = SearchHistoryView;

    open spec fn view(&self) -> SearchHistoryView {
        SearchHistoryView { search: self.search@, offset: self.offset, page: self.page, category: self.category }
    }
}

/// A history element
#[derive(Debug)]
pub enum HistoryElement {
    /// History for the comments state
    Comment(CommentHistory),
    /// History for the search state
    Search(SearchHistory),
    /// History for no state
    Empty(ArticleType),
}

/// The view of a history element.
pub enum HistoryView {
    Comment(CommentHistoryView),
    Search(SearchHistoryView),
    Empty(ArticleType),
}

impl View for HistoryElement {
    type V = HistoryView;

    open spec fn view(&self) -> HistoryView {
        match self {
            HistoryElement::Comment(h) => HistoryView::Comment(h@),
            HistoryElement::Search(h) => HistoryView::Search(h@),
            HistoryElement::Empty(t) => HistoryView::Empty(*t),
        }
    }
}

/// The view of a history stack.
pub open spec fn history_view(v: Seq<HistoryElement>) -> Seq<HistoryView> {
    Seq::new(v.len(), |i: int| v[i]@)
}

/// Type of content to render in the content pane.
#[derive(Debug)]
pub enum Content<S> {
    /// User comments
    Comment(CommentState<S>),
    /// Comment search
    Search(FullSearchState),
    /// Empty
    Empty(ArticleType),
}

/// The view of the content pane.
pub enum ContentView<S> {
    Comment(StateView<S>),
    Search(FullStateView),
    Empty(ArticleType),
}

impl<S> View for Content<S> {
    type V = ContentView<S>;

    open spec fn view(&self) -> ContentView<S> {
        match self {
            Content::Comment(c) => ContentView::Comment(c@),
            Content::Search(s) => ContentView::Search(s@),
            Content::Empty(t) => ContentView::Empty(*t),
        }
    }
}

/// What the history keeps of a comment state, with the index that was
/// active.
pub open spec fn comment_history<S>(st: StateView<S>, active: ArticleType) -> CommentHistoryView {
    CommentHistoryView {
        story_id: st.article.id,
        search: st.search,
        oneline: st.oneline,
        offset: st.offset,
        page: st.page,
        parent_id: st.parent_id,
        active: st.active,
        category: active,
    }
}

/// What the history keeps of a search state, with the index that was
/// active.
pub open spec fn search_history(st: FullStateView, active: ArticleType) -> SearchHistoryView {
    SearchHistoryView { search: st.search, offset: st.offset, page: st.page, category: active }
}

/// What the history keeps of the content pane.
pub open spec fn history_of<S>(c: ContentView<S>, active: ArticleType) -> HistoryView {
    match c {
        ContentView::Comment(st) => HistoryView::Comment(comment_history(st, active)),
        ContentView::Search(st) => HistoryView::Search(search_history(st, active)),
        ContentView::Empty(t) => HistoryView::Empty(t),
    }
}

/// The story whose comments the content shows, if any.
pub open spec fn active_story_of<S>(c: ContentView<S>) -> Option<u64> {
    match c {
        ContentView::Comment(st) => Some(st.article.id),
        ContentView::Search(st) => match st.search {
            CriteriaView::Query(_) => None,
            CriteriaView::StoryId { story_id, .. } => Some(story_id),
        },
        ContentView::Empty(_) => None,
    }
}

/// The query the content searches all comments for, if any.
pub open spec fn search_text_of<S>(c: ContentView<S>) -> Option<Seq<char>> {
    match c {
        ContentView::Search(st) => match st.search {
            CriteriaView::Query(s) => Some(s),
            CriteriaView::StoryId { .. } => None,
        },
        _ => None,
    }
}


/// A stack element for a comment of a thread: its children, first page.
pub open spec fn thread_entry<S>(c: CommentView) -> NavView<S> {
    NavView { comment: Some(c), offset: 0, page: 1, scroll: None }
}

/// The navigation stack that descends from the story through `path`.
pub open spec fn thread_nav<S>(path: Seq<CommentView>) -> Seq<NavView<S>> {
    seq![NavView::<S> { comment: None, offset: 0, page: 1, scroll: None }]
        + Seq::new(path.len(), |i: int| thread_entry::<S>(path[i]))
}

/// The navigation stack from the story down through the comments of
/// `rest`, taken from last to first.
fn thread_stack<S>(rest: Vec<Comment>) -> (nav: Vec<NavStack<S>>)
    ensures
        navs_view(nav@) == thread_nav::<S>(comments_view(rest@).reverse()),
{
    let ghost orig = comments_view(rest@);
    let ghost n = rest@.len();
    let mut rest = rest;
    let mut nav: Vec<NavStack<S>> = Vec::new();
    nav.push(NavStack::root());
    while rest.len() > 0
        invariant
            n == orig.len(),
            rest@.len() <= n,
            comments_view(rest@) == orig.take(rest@.len() as int),
            navs_view(nav@) == seq![NavView::<S> { comment: None, offset: 0, page: 1, scroll: None }]
                + Seq::new((n - rest@.len()) as nat, |i: int| thread_entry::<S>(orig[n - 1 - i])),
        decreases rest@.len(),
    {
        let ghost k = rest@.len();
        let ghost before = rest@;
        let ghost nav_before = nav@;
        let c = rest.pop().unwrap();
        proof {
            assert(comments_view(before)[k - 1] == orig.take(k as int)[k - 1]);
            assert(c@ == orig[k - 1]);
        }
        nav.push(NavStack { comment: Some(c), offset: 0, page: 1, scroll_offset: None });
        proof {
            assert(comments_view(rest@) =~= orig.take(rest@.len() as int));
            assert(navs_view(nav@) =~= navs_view(nav_before).push(thread_entry::<S>(c@)));
            assert(Seq::new((n - rest@.len()) as nat, |i: int| thread_entry::<S>(orig[n - 1 - i]))
                =~= Seq::new((n - k) as nat, |i: int| thread_entry::<S>(orig[n - 1 - i])).push(thread_entry::<S>(c@)));
            assert(navs_view(nav@) =~= seq![NavView::<S> { comment: None, offset: 0, page: 1, scroll: None }]
                + Seq::new((n - rest@.len()) as nat, |i: int| thread_entry::<S>(orig[n - 1 - i])));
        }
    }
    proof {
        assert(Seq::new(n, |i: int| thread_entry::<S>(orig[n - 1 - i]))
            =~= Seq::new(orig.reverse().len(), |i: int| thread_entry::<S>(orig.reverse()[i])));
    }
    nav
}

/// The comments listed and the navigation stack when a thread is opened
/// from `stack`, a comment followed by its ancestors: the first comment is
/// listed, under its ancestors from the top-level one down.
pub open spec fn opened_thread<S>(stack: Seq<CommentView>) -> (Seq<CommentView>, Seq<NavView<S>>) {
    if stack.len() == 0 {
        (Seq::empty(), thread_nav::<S>(Seq::empty()))
    } else {
        (seq![stack[0]], thread_nav::<S>(stack.drop_first().reverse()))
    }
}

/// The comments listed and the navigation stack when a thread is restored
/// from history out of `stack`, a comment followed by its ancestors: the
/// top-level comment is listed, and the stack descends from the one below
/// it to the first comment.
pub open spec fn restored_thread<S>(stack: Seq<CommentView>) -> (Seq<CommentView>, Seq<NavView<S>>) {
    if stack.len() == 0 {
        (Seq::empty(), thread_nav::<S>(Seq::empty()))
    } else {
        (seq![stack.last()], thread_nav::<S>(stack.drop_last().reverse()))
    }
}

/// Splits the stack of a thread being opened into the comment to list and
/// the navigation stack above it.
pub fn open_thread<S>(comment_stack: Vec<Comment>) -> (r: (Vec<Comment>, Vec<NavStack<S>>))
    ensures
        (comments_view(r.0@), navs_view(r.1@)) == opened_thread::<S>(comments_view(comment_stack@)),
{
    let ghost orig = comments_view(comment_stack@);
    let mut comment_stack = comment_stack;
    let mut comments: Vec<Comment> = Vec::new();
    if comment_stack.len() > 0 {
        let first = comment_stack.remove(0);
        comments.push(first);
        proof {
            assert(comments_view(comment_stack@) =~= orig.drop_first());
            assert(comments_view(comments@) =~= seq![orig[0]]);
        }
    } else {
        proof {
            assert(comments_view(comment_stack@) =~= Seq::<CommentView>::empty());
            assert(comments_view(comments@) =~= Seq::<CommentView>::empty());
        }
    }
    let nav = thread_stack(comment_stack);
    (comments, nav)
}

/// Splits the stack of a thread restored from history into the comment to
/// list and the navigation stack above it.
pub fn restore_thread<S>(comment_stack: Vec<Comment>) -> (r: (Vec<Comment>, Vec<NavStack<S>>))
    ensures
        (comments_view(r.0@), navs_view(r.1@)) == restored_thread::<S>(comments_view(comment_stack@)),
{
    let ghost orig = comments_view(comment_stack@);
    let mut comment_stack = comment_stack;
    let mut comments: Vec<Comment> = Vec::new();
    if comment_stack.len() > 0 {
        let last = comment_stack.pop().unwrap();
        comments.push(last);
        proof {
            assert(comments_view(comment_stack@) =~= orig.drop_last());
            assert(comments_view(comments@) =~= seq![orig.last()]);
        }
    } else {
        proof {
            assert(comments_view(comment_stack@) =~= Seq::<CommentView>::empty());
            assert(comments_view(comments@) =~= Seq::<CommentView>::empty());
        }
    }
    let nav = thread_stack(comment_stack);
    (comments, nav)
}

/// The comment state restored from `item`: `article` is the story it names,
/// `page` and `total` the page of children of its parent at its offset,
/// and `thread` the active comment followed by its ancestors (used only
/// when the history names an active comment).
pub open spec fn restored_comments<S>(
    item: CommentHistoryView,
    article: StoryView,
    page: Seq<CommentView>,
    total: usize,
    thread: Seq<CommentView>,
) -> StateView<S> {
    let (comments, nav) = match item.active {
        Some(_) => restored_thread::<S>(thread),
        None => (page, Seq::empty()),
    };
    StateView {
        article: article,
        nav: nav,
        comments: comments,
        search: item.search,
        oneline: item.oneline,
        offset: item.offset,
        page: item.page,
        full_count: total,
        parent_id: item.parent_id,
        active: item.active,
    }
}

/// The search state restored from `item`, with the page of `results` its
/// search finds at its offset out of `full_count`.
pub open spec fn restored_search(item: SearchHistoryView, results: Seq<CommentView>, full_count: usize) -> FullStateView {
    FullStateView { search: item.search, results: results, offset: item.offset, page: item.page, full_count: full_count }
}

/// The content pane and the history of what it showed before.
#[derive(Debug)]
pub struct Navigator<S> {
    /// Main content.
    pub content: Content<S>,
    /// Navigation history.
    pub history: Vec<HistoryElement>,
}

/// The view of the navigator.
pub struct NavigatorView<S> {
    pub content: ContentView<S>,
    pub history: Seq<HistoryView>,
}

impl<S> View for Navigator<S> {
    type V = NavigatorView<S>;

    open spec fn view(&self) -> NavigatorView<S> {
        NavigatorView { content: self.content@, history: history_view(self.history@) }
    }
}

/// Messages that move the content pane.
#[derive(Debug)]
pub enum NavMsg<S> {
    /// Open the comments of `article` under `parent_id`; a non-empty
    /// `comment_stack` is a comment followed by its ancestors, whose thread
    /// is shown as it is.
    OpenComment { article: Story, parent_id: u64, comment_stack: Vec<Comment> },
    /// The comment view was closed.
    CommentsClosed,
    /// A message for the comment view.
    Comments(CommentMsg<S>),
    /// A message for the full search view.
    FullSearch(FullSearchMsg),
    /// Another index was chosen.
    SwitchIndex { category: ArticleType, count: usize },
    /// Go back in the history.
    Back,
    /// The content restored from the last history element, in `index`.
    Restored { index: ArticleType, content: Content<S> },
}

/// The view of a navigation message.
pub enum NavMsgView<S> {
    OpenComment { article: StoryView, parent_id: u64, comment_stack: Seq<CommentView> },
    CommentsClosed,
    Comments(MsgView<S>),
    FullSearch(FullMsgView),
    SwitchIndex { category: ArticleType, count: usize },
    Back,
    Restored { index: ArticleType, content: ContentView<S> },
}

impl<S> View for NavMsg<S> {
    type V = NavMsgView<S>;

    open spec fn view(&self) -> NavMsgView<S> {
        match self {
            NavMsg::OpenComment { article, parent_id, comment_stack } => NavMsgView::OpenComment {
                article: article@,
                parent_id: *parent_id,
                comment_stack: comments_view(comment_stack@),
            },
            NavMsg::CommentsClosed => NavMsgView::CommentsClosed,
            NavMsg::Comments(m) => NavMsgView::Comments(m@),
            NavMsg::FullSearch(m) => NavMsgView::FullSearch(m@),
            NavMsg::SwitchIndex { category, count } => NavMsgView::SwitchIndex { category: *category, count: *count },
            NavMsg::Back => NavMsgView::Back,
            NavMsg::Restored { index, content } => NavMsgView::Restored { index: *index, content: content@ },
        }
    }
}

/// What the navigator asks its host to do.
#[derive(Debug)]
pub enum NavTask<S> {
    /// Nothing.
    Nothing,
    /// Comments of `story_id` were opened: load the children of
    /// `fetch_parent` when there is one, clear the header search, mark the
    /// story viewed and close the full search.
    Opened { fetch_parent: Option<u64>, story_id: u64 },
    /// The comment view was closed: no story is viewed any more; the host
    /// hands `ArticleMsg::ViewingClosed` to the story list.
    Closed,
    /// What the comment view asks for.
    Comments(CommentTask<S>),
    /// What the full search view asks for.
    Search(FullSearchTask),
    /// A search view was opened: mark `viewing` as the viewed story and
    /// handle `msg` in it.
    NewSearch { viewing: Option<u64>, msg: FullSearchMsg },
    /// Activate the index of `category` and list `count` of its stories.
    SwitchIndex { category: ArticleType, count: usize },
    /// Restore this history element and hand the content to `Restored`.
    Restore(HistoryElement),
    /// Content was restored in `index`: mark `viewing` as viewed and put
    /// `search_text` back in the header.
    Restored { index: ArticleType, viewing: Option<u64>, search_text: Option<String> },
}

/// The view of a navigation task.
pub enum NavTaskView<S> {
    Nothing,
    Opened { fetch_parent: Option<u64>, story_id: u64 },
    Closed,
    Comments(TaskView<S>),
    Search(FullTaskView),
    NewSearch { viewing: Option<u64>, msg: FullMsgView },
    SwitchIndex { category: ArticleType, count: usize },
    Restore(HistoryView),
    Restored { index: ArticleType, viewing: Option<u64>, search_text: Option<Seq<char>> },
}

impl<S> View for NavTask<S> {
    type V = NavTaskView<S>;

    open spec fn view(&self) -> NavTaskView<S> {
        match self {
            NavTask::Nothing => NavTaskView::Nothing,
            NavTask::Opened { fetch_parent, story_id } => NavTaskView::Opened { fetch_parent: *fetch_parent, story_id: *story_id },
            NavTask::Closed => NavTaskView::Closed,
            NavTask::Comments(t) => NavTaskView::Comments(t@),
            NavTask::Search(t) => NavTaskView::Search(t@),
            NavTask::NewSearch { viewing, msg } => NavTaskView::NewSearch { viewing: *viewing, msg: msg@ },
            NavTask::SwitchIndex { category, count } => NavTaskView::SwitchIndex { category: *category, count: *count },
            NavTask::Restore(h) => NavTaskView::Restore(h@),
            NavTask::Restored { index, viewing, search_text } => NavTaskView::Restored {
                index: *index,
                viewing: *viewing,
                search_text: opt_text(*search_text),
            },
        }
    }
}

/// The comment state opened for `article` with the thread of `stack`.
pub open spec fn opened_comments<S>(article: StoryView, stack: Seq<CommentView>) -> StateView<S> {
    StateView {
        article: article,
        nav: opened_thread::<S>(stack).1,
        comments: opened_thread::<S>(stack).0,
        search: None,
        oneline: false,
        offset: 0,
        page: 1,
        full_count: 0,
        parent_id: 0,
        active: None,
    }
}

/// Whether leaving `content` to open other content records it in the
/// history: an empty pane is recorded only as the first element.
pub open spec fn records_leaving<S>(content: ContentView<S>, history: Seq<HistoryView>) -> bool {
    match content {
        ContentView::Empty(_) => history.len() == 0,
        _ => true,
    }
}

/// Whether opening the comments of `story_id` records the current content:
/// not when it shows that story's comments already.
pub open spec fn records_opening<S>(content: ContentView<S>, history: Seq<HistoryView>, story_id: u64) -> bool {
    match content {
        ContentView::Comment(st) => st.article.id != story_id,
        _ => records_leaving(content, history),
    }
}

/// The history after leaving `content`, recorded when `record` holds.
pub open spec fn leave<S>(history: Seq<HistoryView>, content: ContentView<S>, record: bool, active: ArticleType) -> Seq<HistoryView> {
    if record {
        history.push(history_of(content, active))
    } else {
        history
    }
}

/// Whether the inner views can handle `msg` without overflow.
pub open spec fn nav_step_ok<S>(st: NavigatorView<S>, msg: NavMsgView<S>) -> bool {
    match msg {
        NavMsgView::Comments(m) => st.content matches ContentView::Comment(c) ==> step_ok(c, m),
        NavMsgView::FullSearch(m) => st.content matches ContentView::Search(f) ==> full_step_ok(f, m),
        _ => true,
    }
}

/// Whether a full search message starts a search.
pub open spec fn starts_search(msg: FullMsgView) -> bool {
    msg is Search || msg is StoryByTime
}

/// The criteria a message that starts a search searches for.
pub open spec fn criteria_of(msg: FullMsgView) -> CriteriaView {
    match msg {
        FullMsgView::StoryByTime { story_id, beyond } => CriteriaView::StoryId { story_id: story_id, beyond: beyond },
        FullMsgView::Search(s) => CriteriaView::Query(s),
        _ => CriteriaView::Query(Seq::empty()),
    }
}

/// A search for `search` on its first page, with nothing found yet.
pub open spec fn fresh_search(search: CriteriaView) -> FullStateView {
    FullStateView { search: search, results: Seq::empty(), offset: 0, page: 1, full_count: 0 }
}

/// How the navigator handles a message, with `active` the index in use:
/// the next state and the task for the host.
pub open spec fn nav_step<S>(st: NavigatorView<S>, msg: NavMsgView<S>, active: ArticleType) -> (NavigatorView<S>, NavTaskView<S>) {
    match msg {
        NavMsgView::OpenComment { article, parent_id, comment_stack } => {
            let record = records_opening(st.content, st.history, article.id);
            (
                NavigatorView {
                    content: ContentView::Comment(opened_comments::<S>(article, comment_stack)),
                    history: leave(st.history, st.content, record, active),
                },
                NavTaskView::Opened {
                    fetch_parent: if comment_stack.len() == 0 { Some(parent_id) } else { None },
                    story_id: article.id,
                },
            )
        },
        NavMsgView::CommentsClosed => match st.content {
            ContentView::Comment(_) => (
                NavigatorView {
                    content: ContentView::Empty(active),
                    history: st.history.push(history_of(st.content, active)),
                },
                NavTaskView::Closed,
            ),
            _ => (st, NavTaskView::Nothing),
        },
        NavMsgView::Comments(m) => match st.content {
            ContentView::Comment(c) => {
                let (c1, t) = comment_step(c, m);
                (NavigatorView { content: ContentView::Comment(c1), ..st }, NavTaskView::Comments(t))
            },
            _ => (st, NavTaskView::Nothing),
        },
        NavMsgView::FullSearch(m) => match st.content {
            ContentView::Search(f) => {
                let same = match f.search {
                    CriteriaView::Query(_) => m is Search,
                    CriteriaView::StoryId { .. } => m is StoryByTime,
                };
                let restart = !same && starts_search(m);
                let history = if restart { st.history.push(HistoryView::Search(search_history(f, active))) } else { st.history };
                let f1 = if restart { fresh_search(f.search) } else { f };
                let (f2, t) = full_step(f1, m);
                (NavigatorView { content: ContentView::Search(f2), history: history }, NavTaskView::Search(t))
            },
            _ => if starts_search(m) {
                (
                    NavigatorView {
                        content: ContentView::Search(fresh_search(criteria_of(m))),
                        history: leave(st.history, st.content, records_leaving(st.content, st.history), active),
                    },
                    NavTaskView::NewSearch {
                        viewing: match m {
                            FullMsgView::StoryByTime { story_id, .. } => Some(story_id),
                            _ => None,
                        },
                        msg: m,
                    },
                )
            } else {
                (st, NavTaskView::Nothing)
            },
        },
        NavMsgView::SwitchIndex { category, count } => (
            NavigatorView {
                content: ContentView::Empty(category),
                history: leave(st.history, st.content, !(st.content is Empty), active),
            },
            NavTaskView::SwitchIndex { category: category, count: count },
        ),
        NavMsgView::Back => if st.history.len() == 0 {
            (st, NavTaskView::Nothing)
        } else {
            (NavigatorView { history: st.history.drop_last(), ..st }, NavTaskView::Restore(st.history.last()))
        },
        NavMsgView::Restored { index, content } => (
            NavigatorView { content: content, ..st },
            NavTaskView::Restored { index: index, viewing: active_story_of(content), search_text: search_text_of(content) },
        ),
    }
}

impl<S: Copy> Navigator<S> {
    /// An empty pane for the index `category`, with no history.
    pub fn new(category: ArticleType) -> (r: Self)
        ensures
            r@ == (NavigatorView::<S> { content: ContentView::Empty(category), history: Seq::empty() }),
    {
        let r = Navigator { content: Content::Empty(category), history: Vec::new() };
        assert(history_view(r.history@) =~= Seq::<HistoryView>::empty());
        r
    }

    /// Replaces the content by `content`, recording the old content in the
    /// history when `record` holds.
    fn replace_content(&mut self, content: Content<S>, record: bool, active: ArticleType)
        ensures
            final(self)@ == (NavigatorView {
                content: content@,
                history: leave(history_view(old(self).history@), old(self).content@, record, active),
            }),
    {
        let mut last = content;
        std::mem::swap(&mut last, &mut self.content);
        if record {
            let h = last.into_history_element(active);
            self.history.push(h);
            proof {
                assert(history_view(self.history@) =~= history_view(old(self).history@).push(h@));
            }
        }
    }

    /// Whether the history is empty.
    fn history_empty(&self) -> (r: bool)
        ensures
            r == (history_view(self.history@).len() == 0),
    {
        self.history.len() == 0
    }

    /// Handles a navigation message; `active` is the index in use.
    pub fn update(&mut self, message: NavMsg<S>, active: ArticleType) -> (r: NavTask<S>)
        requires
            nav_step_ok(old(self)@, message@),
        ensures
            (final(self)@, r@) == nav_step(old(self)@, message@, active),
    {
        match message {
            NavMsg::OpenComment { article, parent_id, comment_stack } => {
                let item_id = article.id;
                let from_full_search = comment_stack.len() > 0;
                let record = match &self.content {
                    Content::Comment(comment_state) => comment_state.article.id != item_id,
                    Content::Empty(_) => self.history_empty(),
                    _ => true,
                };
                let (comments, nav_stack) = open_thread(comment_stack);
                let state = CommentState {
                    article,
                    nav_stack,
                    comments,
                    search: None,
                    oneline: false,
                    page: 1,
                    offset: 0,
                    full_count: 0,
                    parent_id: 0,
                    active_comment_id: None,
                };
                self.replace_content(Content::Comment(state), record, active);
                NavTask::Opened { fetch_parent: if from_full_search { None } else { Some(parent_id) }, story_id: item_id }
            },
            NavMsg::CommentsClosed => {
                if self.content.is_comment() {
                    self.replace_content(Content::Empty(active), true, active);
                    NavTask::Closed
                } else {
                    NavTask::Nothing
                }
            },
            NavMsg::Comments(msg) => match &mut self.content {
                Content::Comment(comment_state) => NavTask::Comments(comment_state.update(msg)),
                _ => NavTask::Nothing,
            },
            NavMsg::FullSearch(msg) => self.on_full_search(msg, active),
            NavMsg::SwitchIndex { category, count } => {
                let record = !self.content.is_empty();
                self.replace_content(Content::Empty(category), record, active);
                NavTask::SwitchIndex { category, count }
            },
            NavMsg::Back => {
                match self.history.pop() {
                    Some(last) => {
                        proof {
                            assert(history_view(self.history@) =~= history_view(old(self).history@).drop_last());
                        }
                        NavTask::Restore(last)
                    },
                    None => NavTask::Nothing,
                }
            },
            NavMsg::Restored { index, content } => {
                let viewing = content.active_story();
                let search_text = content.search_text();
                self.content = content;
                NavTask::Restored { index, viewing, search_text }
            },
        }
    }

    fn on_full_search(&mut self, msg: FullSearchMsg, active: ArticleType) -> (r: NavTask<S>)
        requires
            nav_step_ok(old(self)@, NavMsgView::FullSearch(msg@)),
        ensures
            (final(self)@, r@) == nav_step(old(self)@, NavMsgView::FullSearch(msg@), active),
    {
        let starts = match &msg {
            FullSearchMsg::Search(_) => true,
            FullSearchMsg::StoryByTime { .. } => true,
            _ => false,
        };
        let mut content = Content::Empty(active);
        std::mem::swap(&mut content, &mut self.content);
        match content {
            Content::Search(full_search_state) => {
                let same = match &full_search_state.search {
                    SearchCriteria::Query(_) => match &msg {
                        FullSearchMsg::Search(_) => true,
                        _ => false,
                    },
                    SearchCriteria::StoryId { .. } => match &msg {
                        FullSearchMsg::StoryByTime { .. } => true,
                        _ => false,
                    },
                };
                let mut state = full_search_state;
                if !same && starts {
                    let criteria = state.search.duplicate();
                    let last_state = state;
                    state = FullSearchState::new(criteria);
                    let h = HistoryElement::Search(last_state.to_history(active));
                    self.history.push(h);
                    proof {
                        assert(history_view(self.history@) =~= history_view(old(self).history@).push(h@));
                    }
                }
                let t = state.update(msg);
                self.content = Content::Search(state);
                NavTask::Search(t)
            },
            other => {
                self.content = other;
                if starts {
                    let (viewing, search) = match &msg {
                        FullSearchMsg::StoryByTime { story_id, beyond } => (Some(*story_id), SearchCriteria::StoryId { story_id: *story_id, beyond: *beyond }),
                        FullSearchMsg::Search(s) => (None, SearchCriteria::Query(owned(s.as_str()))),
                        _ => (None, SearchCriteria::Query(String::new())),
                    };
                    let record = match &self.content {
                        Content::Empty(_) => self.history_empty(),
                        _ => true,
                    };
                    self.replace_content(Content::Search(FullSearchState::new(search)), record, active);
                    NavTask::NewSearch { viewing, msg }
                } else {
                    NavTask::Nothing
                }
            },
        }
    }
}

impl<S> Content<S> {
    /// Whether this is the comment view.
    pub fn is_comment(&self) -> (r: bool)
        ensures
            r == (self@ is Comment),
    {
        match self {
            Content::Comment(_) => true,
            _ => false,
        }
    }

    /// Whether the pane is empty.
    pub fn is_empty(&self) -> (r: bool)
        ensures
            r == (self@ is Empty),
    {
        match self {
            Content::Empty(_) => true,
            _ => false,
        }
    }
}

/// Every message but `Back` keeps the history recorded so far and records
/// at most one element more.
pub proof fn lemma_history_only_grows<S>(st: NavigatorView<S>, msg: NavMsgView<S>, active: ArticleType)
    requires
        !(msg is Back),
    ensures
        nav_step(st, msg, active).0.history.len() <= st.history.len() + 1,
        nav_step(st, msg, active).0.history.len() >= st.history.len(),
        nav_step(st, msg, active).0.history.take(st.history.len() as int) == st.history,
{
    let h1 = nav_step(st, msg, active).0.history;
    if h1.len() > st.history.len() {
        assert(h1.take(st.history.len() as int) =~= st.history);
    } else {
        assert(h1 =~= st.history);
        assert(h1.take(st.history.len() as int) =~= st.history);
    }
}

/// Going back after a message that recorded the content in the history
/// returns the history to what it was and restores what was recorded:
/// the content shown before opening comments, closing them or switching
/// index, or the search replaced by another.
pub proof fn lemma_back_undoes_navigation<S>(st: NavigatorView<S>, msg: NavMsgView<S>, active: ArticleType, later: ArticleType)
    requires
        !(msg is Back),
        nav_step(st, msg, active).0.history.len() == st.history.len() + 1,
    ensures
        ({
            let st1 = nav_step(st, msg, active).0;
            let (st2, t) = nav_step(st1, NavMsgView::Back, later);
            &&& st2.history == st.history
            &&& st2.content == st1.content
            &&& t == NavTaskView::<S>::Restore(st1.history.last())
        }),
        (msg is OpenComment || msg is CommentsClosed || msg is SwitchIndex) ==> nav_step(st, msg, active).0.history.last()
            == history_of(st.content, active),
        msg matches NavMsgView::FullSearch(m) ==> nav_step(st, msg, active).0.history.last() == match st.content {
            ContentView::Search(f) => HistoryView::Search(search_history(f, active)),
            _ => history_of(st.content, active),
        },
{
    let st1 = nav_step(st, msg, active).0;
    assert(st1.history.drop_last() =~= st.history);
}

/// Restoring a search from its history, with the results it had, gives
/// back the same search state.
pub proof fn lemma_search_history_round_trip(st: FullStateView, active: ArticleType)
    ensures
        restored_search(search_history(st, active), st.results, st.full_count) == st,
        search_history(st, active).category == active,
{
}

/// Restoring comments from their history gives back the story, the search,
/// the one-line mode, the page and offset, the parent and the active
/// comment they had, in the index that was active.
pub proof fn lemma_comment_history_round_trip<S>(
    st: StateView<S>,
    active: ArticleType,
    page: Seq<CommentView>,
    total: usize,
    thread: Seq<CommentView>,
)
    ensures
        ({
            let item = comment_history(st, active);
            let r = restored_comments::<S>(item, st.article, page, total, thread);
            &&& item.story_id == st.article.id
            &&& item.category == active
            &&& r.article == st.article
            &&& r.search == st.search
            &&& r.oneline == st.oneline
            &&& r.offset == st.offset
            &&& r.page == st.page
            &&& r.parent_id == st.parent_id
            &&& r.active == st.active
            &&& r.full_count == total
        }),
{
}

impl SearchHistory {
    /// The search that loads the page this history element was on.
    pub fn reload_task(&self) -> (r: FullSearchTask)
        ensures
            r@ == match self.search@ {
                CriteriaView::Query(s) => FullTaskView::SearchAll { search: s, offset: self.offset },
                CriteriaView::StoryId { story_id, beyond } => FullTaskView::StoryPage {
                    story_id: story_id,
                    beyond: beyond,
                    offset: self.offset,
                },
            },
    {
        match &self.search {
            SearchCriteria::Query(s) => FullSearchTask::SearchAll { search: owned(s.as_str()), offset: self.offset },
            SearchCriteria::StoryId { story_id, beyond } => FullSearchTask::StoryPage {
                story_id: *story_id,
                beyond: *beyond,
                offset: self.offset,
            },
        }
    }
}

impl<S> CommentState<S> {
    /// Save state into a history item; `active` is the index in use.
    pub fn to_history(self, active: ArticleType) -> (r: CommentHistory)
        ensures
            r@ == comment_history(self@, active),
    {
        CommentHistory {
            story_id: self.article.id,
            search: self.search,
            oneline: self.oneline,
            offset: self.offset,
            page: self.page,
            parent_id: self.parent_id,
            active_comment_id: self.active_comment_id,
            category: active,
        }
    }

    /// Restore state from a history item, given the story it names, the
    /// page of children of its parent at its offset with their total
    /// count, and, where it names an active comment, that comment followed
    /// by its ancestors. Gives the index the item was recorded in.
    pub fn from_history(
        item: CommentHistory,
        article: Story,
        page: Vec<Comment>,
        total_comments: usize,
        thread: Vec<Comment>,
    ) -> (r: (ArticleType, Self))
        ensures
            r.0 == item.category,
            r.1@ == restored_comments::<S>(item@, article@, comments_view(page@), total_comments, comments_view(thread@)),
    {
        let (comments, nav_stack) = match item.active_comment_id {
            Some(_) => restore_thread(thread),
            None => (page, Vec::new()),
        };
        proof {
            if item.active_comment_id.is_none() {
                assert(navs_view(nav_stack@) =~= Seq::<NavView<S>>::empty());
            }
        }
        (
            item.category,
            CommentState {
                article,
                nav_stack,
                comments,
                search: item.search,
                oneline: item.oneline,
                offset: item.offset,
                page: item.page,
                full_count: total_comments,
                parent_id: item.parent_id,
                active_comment_id: item.active_comment_id,
            },
        )
    }
}

impl FullSearchState {
    /// Save state into a history item; `active` is the index in use.
    pub fn to_history(self, active: ArticleType) -> (r: SearchHistory)
        ensures
            r@ == search_history(self@, active),
    {
        SearchHistory { search: self.search, offset: self.offset, page: self.page, category: active }
    }

    /// Restore state from a history item, given the page of results its
    /// search finds at its offset and their total count. Gives the index
    /// the item was recorded in.
    pub fn from_history(item: SearchHistory, search_results: Vec<Comment>, full_count: usize) -> (r: (ArticleType, Self))
        ensures
            r.0 == item.category,
            r.1@ == restored_search(item@, comments_view(search_results@), full_count),
    {
        (
            item.category,
            FullSearchState { search: item.search, search_results, offset: item.offset, page: item.page, full_count },
        )
    }
}

impl<S> Content<S> {
    /// Convert this content into a history element; `active` is the index
    /// in use.
    pub fn into_history_element(self, active: ArticleType) -> (r: HistoryElement)
        ensures
            r@ == history_of(self@, active),
    {
        match self {
            Content::Comment(comment_state) => HistoryElement::Comment(comment_state.to_history(active)),
            Content::Search(full_search_state) => HistoryElement::Search(full_search_state.to_history(active)),
            Content::Empty(index) => HistoryElement::Empty(index),
        }
    }

    /// Get the active story to show for this content.
    pub fn active_story(&self) -> (r: Option<u64>)
        ensures
            r == active_story_of(self@),
    {
        match self {
            Content::Comment(comment_state) => Some(comment_state.article.id),
            Content::Search(full_search_state) => match &full_search_state.search {
                SearchCriteria::Query(_) => None,
                SearchCriteria::StoryId { story_id, .. } => Some(*story_id),
            },
            Content::Empty(_) => None,
        }
    }

    /// Get the search text.
    pub fn search_text(&self) -> (r: Option<String>)
        ensures
            opt_text(r) == search_text_of(self@),
    {
        match self {
            Content::Search(full_search_state) => match &full_search_state.search {
                SearchCriteria::Query(search) => Some(owned(search.as_str())),
                SearchCriteria::StoryId { .. } => None,
            },
            _ => None,
        }
    }
}

} // verus!
