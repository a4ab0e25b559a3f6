//! Navigation state of the comment view: the stack of parent comments the
//! reader descended through, paging through the children of the current
//! parent, searching within a story, and what each message leads to.
use vstd::prelude::*;
use vstd::string::*;
use crate::search::{Comment, CommentView, Story, StoryView};
use crate::text::owned;

verus! {

/// Comments listed per page.
pub const PAGE_SIZE: usize = 10;

/// An element of the navigation stack: the parent comment whose children
/// are listed (none for the story itself), the page shown, and where the
/// list was scrolled to.
#[derive(Debug)]
pub struct NavStack<S> {
    /// Parent comment
    pub comment: Option<Comment>,
    /// Pagination offset
    pub offset: usize,
    /// Viewing page
    pub page: usize,
    /// Scroll offset
    pub scroll_offset: Option<S>,
}

/// The view of a navigation stack element.
pub struct NavView<S> {
    pub comment: Option<CommentView>,
    pub offset: usize,
    pub page: usize,
    pub scroll: Option<S>,
}

/// The view of an optional comment.
pub open spec fn opt_comment(c: Option<Comment>) -> Option<CommentView> {
    match c {
        Some(c) => Some(c@),
        None => None,
    }
}

impl<S> View for NavStack<S> {
    type V = NavView<S>;

    open spec fn view(&self) -> NavView<S> {
        NavView { comment: opt_comment(self.comment), offset: self.offset, page: self.page, scroll: self.scroll_offset }
    }
}

impl<S> NavStack<S> {
    /// The root element: the story's own comments, first page.
    pub fn root() -> (r: Self)
        ensures
            r@ == (NavView::<S> { comment: None, offset: 0, page: 1, scroll: None }),
    {
        NavStack { comment: None, offset: 0, page: 1, scroll_offset: None }
    }
}

/// The view of a navigation stack.
pub open spec fn navs_view<S>(v: Seq<NavStack<S>>) -> Seq<NavView<S>> {
    Seq::new(v.len(), |i: int| v[i]@)
}

/// The view of a list of comments.
pub open spec fn comments_view(v: Seq<Comment>) -> Seq<CommentView> {
    Seq::new(v.len(), |i: int| v[i]@)
}

/// The view of an optional string.
pub open spec fn opt_text(o: Option<String>) -> Option<Seq<char>> {
    match o {
        Some(s) => Some(s@),
        None => None,
    }
}

/// Messages of the comment view.
#[derive(Debug)]
pub enum CommentMsg<S> {
    FetchComments { parent_id: u64, parent_comment: Option<Comment>, scroll_to: Option<S> },
    PopNavStack,
    Search(String),
    CloseSearch,
    Oneline,
    Forward,
    Back,
    JumpPage(usize),
    Close(u64),
    ScrollOffset(S),
    Activate(u64),
    ShowThread(u64),
}

/// The view of a message.
pub enum MsgView<S> {
    FetchComments { parent_id: u64, parent_comment: Option<CommentView>, scroll_to: Option<S> },
    PopNavStack,
    Search(Seq<char>),
    CloseSearch,
    Oneline,
    Forward,
    Back,
    JumpPage(usize),
    Close(u64),
    ScrollOffset(S),
    Activate(u64),
    ShowThread(u64),
}

impl<S> View for CommentMsg<S> {
    type V = MsgView<S>;

    open spec fn view(&self) -> MsgView<S> {
        match self {
            CommentMsg::FetchComments { parent_id, parent_comment, scroll_to } => MsgView::FetchComments {
                parent_id: *parent_id,
                parent_comment: opt_comment(*parent_comment),
                scroll_to: *scroll_to,
            },
            CommentMsg::PopNavStack => MsgView::PopNavStack,
            CommentMsg::Search(s) => MsgView::Search(s@),
            CommentMsg::CloseSearch => MsgView::CloseSearch,
            CommentMsg::Oneline => MsgView::Oneline,
            CommentMsg::Forward => MsgView::Forward,
            CommentMsg::Back => MsgView::Back,
            CommentMsg::JumpPage(p) => MsgView::JumpPage(*p),
            CommentMsg::Close(id) => MsgView::Close(*id),
            CommentMsg::ScrollOffset(o) => MsgView::ScrollOffset(*o),
            CommentMsg::Activate(id) => MsgView::Activate(*id),
            CommentMsg::ShowThread(id) => MsgView::ShowThread(*id),
        }
    }
}

/// What the view asks its host to do after handling a message.
#[derive(Debug)]
pub enum CommentTask<S> {
    /// Nothing.
    Nothing,
    /// Load the page of children of `parent_id` at `offset`, hand it to
    /// `comments_loaded`, scroll to `scroll_to` (the top when none), mark the
    /// story viewed, and close any full search.
    FetchPage { parent_id: u64, offset: usize, scroll_to: Option<S> },
    /// Search the story's comments for `search` at `offset` and hand the
    /// page to `comments_loaded`.
    SearchPage { search: String, story_id: u64, offset: usize },
    /// Handle this message next.
    Send(CommentMsg<S>),
    /// Handle this message next, then scroll to the top.
    Paginate(CommentMsg<S>),
    /// Close the comment view.
    CloseComments,
    /// Open the thread of this comment.
    ShowThread(u64),
}

/// The view of a task.
pub enum TaskView<S> {
    Nothing,
    FetchPage { parent_id: u64, offset: usize, scroll_to: Option<S> },
    SearchPage { search: Seq<char>, story_id: u64, offset: usize },
    Send(MsgView<S>),
    Paginate(MsgView<S>),
    CloseComments,
    ShowThread(u64),
}

impl<S> View for CommentTask<S> {
    type V = TaskView<S>;

    open spec fn view(&self) -> TaskView<S> {
        match self {
            CommentTask::Nothing => TaskView::Nothing,
            CommentTask::FetchPage { parent_id, offset, scroll_to } => TaskView::FetchPage {
                parent_id: *parent_id,
                offset: *offset,
                scroll_to: *scroll_to,
            },
            CommentTask::SearchPage { search, story_id, offset } => TaskView::SearchPage {
                search: search@,
                story_id: *story_id,
                offset: *offset,
            },
            CommentTask::Send(m) => TaskView::Send(m@),
            CommentTask::Paginate(m) => TaskView::Paginate(m@),
            CommentTask::CloseComments => TaskView::CloseComments,
            CommentTask::ShowThread(id) => TaskView::ShowThread(*id),
        }
    }
}

/// Comment view state.
#[derive(Debug)]
pub struct CommentState<S> {
    /// Article this comment belongs to
    pub article: Story,
    /// parent comments.
    pub nav_stack: Vec<NavStack<S>>,
    /// Children
    pub comments: Vec<Comment>,
    /// Search
    pub search: Option<String>,
    /// Show one line only.
    pub oneline: bool,
    /// Search offset.
    pub offset: usize,
    /// Search page number.
    pub page: usize,
    /// Total number of documents.
    pub full_count: usize,
    /// Parent id being viewed.
    pub parent_id: u64,
    /// Active comment
    pub active_comment_id: Option<u64>,
}

/// The view of the comment view state.
pub struct StateView<S> {
    pub article: StoryView,
    pub nav: Seq<NavView<S>>,
    pub comments: Seq<CommentView>,
    pub search: Option<Seq<char>>,
    pub oneline: bool,
    pub offset: usize,
    pub page: usize,
    pub full_count: usize,
    pub parent_id: u64,
    pub active: Option<u64>,
}

impl<S> View for CommentState<S> {
    type V = StateView<S>;

    open spec fn view(&self) -> StateView<S> {
        StateView {
            article: self.article@,
            nav: navs_view(self.nav_stack@),
            comments: comments_view(self.comments@),
            search: opt_text(self.search),
            oneline: self.oneline,
            offset: self.offset,
            page: self.page,
            full_count: self.full_count,
            parent_id: self.parent_id,
            active: self.active_comment_id,
        }
    }
}

/// What the comment view shows around the listed comments, and the rows
/// it lists.
#[derive(Debug, Clone, PartialEq, Eq)]
pub struct CommentLayout {
    /// The story's own text: shown when it has one and nothing is searched.
    pub story_text: bool,
    /// The chain of parent comments above the list: shown when nothing is
    /// searched.
    pub parent_chain: bool,
    /// How many parent comments the stack holds, each indented one step
    /// further, the listed comments one step below the last.
    pub parents: usize,
    /// The page buttons: shown when there are more comments than fit one
    /// page.
    pub pagination: bool,
    /// One row per listed comment, in order: its id and whether it is the
    /// active comment, drawn on the strong background.
    pub rows: Vec<(u64, bool)>,
}

/// The rows of the listed comments: each id, and whether it is the
/// active comment.
pub open spec fn comment_rows(comments: Seq<CommentView>, active: Option<u64>) -> Seq<(u64, bool)> {
    Seq::new(comments.len(), |i: int| (comments[i].id, active == Some(comments[i].id)))
}

/// The number of parent comments on a navigation stack.
pub open spec fn parent_count<S>(nav: Seq<NavView<S>>) -> nat
    decreases nav.len(),
{
    if nav.len() == 0 {
        0
    } else {
        parent_count(nav.drop_last()) + if nav.last().comment is Some { 1nat } else { 0nat }
    }
}

/// Whether `r` is what the comment view of `st` shows around its list,
/// and the rows it lists.
pub open spec fn is_comment_layout<S>(st: StateView<S>, r: CommentLayout) -> bool {
    &&& r.story_text == (st.search is None && st.article.body is Some)
    &&& r.parent_chain == st.search is None
    &&& r.parents == parent_count(st.nav)
    &&& r.pagination == (st.full_count > PAGE_SIZE)
    &&& r.rows@ == comment_rows(st.comments, st.active)
}

/// The first stack position whose comment has id `id`.
pub open spec fn first_with_id<S>(nav: Seq<NavView<S>>, id: u64) -> Option<int>
    decreases nav.len(),
{
    if nav.len() == 0 {
        None
    } else {
        match first_with_id(nav.drop_last(), id) {
            Some(i) => Some(i),
            None => if nav.last().comment matches Some(c) && c.id == id {
                Some(nav.len() - 1)
            } else {
                None
            },
        }
    }
}

/// The last stack position whose comment has id `id`.
pub open spec fn last_with_id<S>(nav: Seq<NavView<S>>, id: u64) -> Option<int>
    decreases nav.len(),
{
    if nav.len() == 0 {
        None
    } else if nav.last().comment matches Some(c) && c.id == id {
        Some(nav.len() - 1)
    } else {
        last_with_id(nav.drop_last(), id)
    }
}

/// The offset of a page: ten comments per page, pages counted from 1.
pub open spec fn page_offset(page: usize) -> int {
    if page > 1 { 10 * (page - 1) } else { 0 }
}

/// The stack with its top element set to the current page and not scrolled.
pub open spec fn sync_top<S>(nav: Seq<NavView<S>>, offset: usize, page: usize) -> Seq<NavView<S>> {
    if nav.len() == 0 {
        nav
    } else {
        nav.update(nav.len() - 1, NavView { comment: nav.last().comment, offset: offset, page: page, scroll: None })
    }
}

/// The message that reloads the current page.
pub open spec fn paginate_msg<S>(st: StateView<S>) -> MsgView<S> {
    match st.search {
        Some(s) => MsgView::Search(s),
        None => MsgView::FetchComments { parent_id: st.parent_id, parent_comment: None, scroll_to: None },
    }
}

/// The message that reloads the children of the stack's top element.
pub open spec fn reload_top<S>(st: StateView<S>, top: NavView<S>) -> MsgView<S> {
    MsgView::FetchComments {
        parent_id: match top.comment { Some(c) => c.id, None => st.article.id },
        parent_comment: None,
        scroll_to: top.scroll,
    }
}

/// Whether handling `msg` in `st` keeps every counter within `usize`.
pub open spec fn step_ok<S>(st: StateView<S>, msg: MsgView<S>) -> bool {
    match msg {
        MsgView::Forward => st.offset + 10 <= usize::MAX && st.page + 1 <= usize::MAX,
        MsgView::Back => st.offset >= 10 && st.page >= 1,
        MsgView::JumpPage(p) => page_offset(p) <= usize::MAX,
        _ => true,
    }
}

/// How the comment view handles a message: the next state and the task
/// for the host.
pub open spec fn comment_step<S>(st: StateView<S>, msg: MsgView<S>) -> (StateView<S>, TaskView<S>) {
    match msg {
        MsgView::FetchComments { parent_id, parent_comment, scroll_to } => {
            let st1 = match parent_comment {
                Some(parent) => if st.parent_id != parent.id {
                    let kept = match first_with_id(st.nav, parent_id) {
                        Some(i) => st.nav.take(i),
                        None => st.nav,
                    };
                    StateView {
                        nav: kept.push(NavView { comment: Some(parent), offset: 0, page: 1, scroll: None }),
                        offset: 0,
                        page: 1,
                        ..st
                    }
                } else {
                    st
                },
                None => st,
            };
            (
                StateView { search: None, parent_id: parent_id, ..st1 },
                TaskView::FetchPage { parent_id: parent_id, offset: st1.offset, scroll_to: scroll_to },
            )
        },
        MsgView::PopNavStack => {
            if st.nav.len() == 0 {
                (st, TaskView::CloseComments)
            } else {
                let popped = st.nav.last();
                let nav = st.nav.drop_last();
                let active = match popped.comment {
                    Some(c) => Some(c.id),
                    None => st.active,
                };
                if nav.len() == 0 {
                    (StateView { nav: nav, active: active, ..st }, TaskView::CloseComments)
                } else {
                    let top = nav.last();
                    (
                        StateView { nav: nav, active: active, offset: top.offset, page: top.page, ..st },
                        TaskView::Send(reload_top(st, top)),
                    )
                }
            }
        },
        MsgView::Search(search) => {
            if search.len() == 0 {
                (st, TaskView::Send(MsgView::CloseSearch))
            } else {
                let st1 = match st.search {
                    Some(s) => if s != search {
                        let nav = if st.nav.len() == 0 {
                            st.nav
                        } else {
                            st.nav.update(st.nav.len() - 1, NavView { offset: 0, page: 0, ..st.nav.last() })
                        };
                        StateView { nav: nav, offset: 0, page: 1, ..st }
                    } else {
                        st
                    },
                    None => st,
                };
                (
                    StateView { search: Some(search), ..st1 },
                    TaskView::SearchPage { search: search, story_id: st.article.id, offset: st1.offset },
                )
            }
        },
        MsgView::CloseSearch => (StateView { search: None, ..st }, TaskView::Send(MsgView::JumpPage(1))),
        MsgView::Oneline => (StateView { oneline: !st.oneline, ..st }, TaskView::Nothing),
        MsgView::Forward => {
            let offset = (st.offset + 10) as usize;
            let page = (st.page + 1) as usize;
            let st1 = StateView { offset: offset, page: page, nav: sync_top(st.nav, offset, page), ..st };
            (st1, TaskView::Paginate(paginate_msg(st1)))
        },
        MsgView::Back => {
            let offset = (st.offset - 10) as usize;
            let page = (st.page - 1) as usize;
            let st1 = StateView { offset: offset, page: page, nav: sync_top(st.nav, offset, page), ..st };
            (st1, TaskView::Paginate(paginate_msg(st1)))
        },
        MsgView::JumpPage(p) => {
            let offset = page_offset(p) as usize;
            let st1 = StateView { offset: offset, page: p, nav: sync_top(st.nav, offset, p), ..st };
            (st1, TaskView::Paginate(paginate_msg(st1)))
        },
        MsgView::Close(id) => {
            let nav = match last_with_id(st.nav, id) {
                Some(i) => st.nav.take(i),
                None => Seq::empty(),
            };
            let parent_id = if nav.len() == 0 {
                0
            } else {
                match nav.last().comment {
                    Some(c) => c.parent_id,
                    None => 0,
                }
            };
            if nav.len() == 0 {
                (StateView { nav: nav, active: Some(id), parent_id: parent_id, ..st }, TaskView::Nothing)
            } else {
                let top = nav.last();
                (
                    StateView { nav: nav, active: Some(id), parent_id: parent_id, offset: top.offset, page: top.page, ..st },
                    TaskView::Send(reload_top(st, top)),
                )
            }
        },
        MsgView::ScrollOffset(o) => {
            let nav = if st.nav.len() == 0 {
                st.nav
            } else {
                st.nav.update(st.nav.len() - 1, NavView { scroll: Some(o), ..st.nav.last() })
            };
            (StateView { nav: nav, ..st }, TaskView::Nothing)
        },
        MsgView::Activate(id) => (StateView { active: Some(id), ..st }, TaskView::Nothing),
        MsgView::ShowThread(id) => (st, TaskView::ShowThread(id)),
    }
}

/// The first stack position whose comment has id `id`.
fn find_first<S>(nav: &Vec<NavStack<S>>, id: u64) -> (r: Option<usize>)
    ensures
        match r {
            Some(i) => first_with_id(navs_view(nav@), id) == Some(i as int) && i < nav@.len(),
            None => first_with_id(navs_view(nav@), id) is None,
        },
{
    let mut i: usize = 0;
    while i < nav.len()
        invariant
            i <= nav@.len(),
            first_with_id(navs_view(nav@.take(i as int)), id) is None,
        decreases nav@.len() - i,
    {
        assert(navs_view(nav@.take(i as int + 1)).drop_last() =~= navs_view(nav@.take(i as int)));
        let found = match &nav[i].comment {
            Some(c) => c.id == id,
            None => false,
        };
        if found {
            proof {
                lemma_first_with_id_prefix(navs_view(nav@), id, i as int + 1);
                assert(navs_view(nav@.take(i as int + 1)) =~= navs_view(nav@).take(i as int + 1));
            }
            return Some(i);
        }
        i = i + 1;
    }
    assert(nav@.take(nav@.len() as int) =~= nav@);
    None
}

/// Once a prefix holds a match, the first match of the whole stack is the
/// same one.
proof fn lemma_first_with_id_prefix<S>(nav: Seq<NavView<S>>, id: u64, k: int)
    requires
        0 <= k <= nav.len(),
        first_with_id(nav.take(k), id) is Some,
    ensures
        first_with_id(nav, id) == first_with_id(nav.take(k), id),
    decreases nav.len() - k,
{
    if k < nav.len() {
        assert(nav.take(k + 1).drop_last() =~= nav.take(k));
        lemma_first_with_id_prefix(nav, id, k + 1);
    } else {
        assert(nav.take(k) =~= nav);
    }
}

impl<S: Copy> CommentState<S> {
    /// Sets the top of the stack to the current page, not scrolled.
    fn update_nav_stack(&mut self)
        ensures
            final(self)@ == (StateView { nav: sync_top(old(self)@.nav, old(self).offset, old(self).page), ..old(self)@ }),
    {
        let n = self.nav_stack.len();
        if n > 0 {
            let offset = self.offset;
            let page = self.page;
            let mut top = self.nav_stack.pop().unwrap();
            top.offset = offset;
            top.page = page;
            top.scroll_offset = None;
            self.nav_stack.push(top);
            assert(navs_view(self.nav_stack@) =~= sync_top(old(self)@.nav, old(self).offset, old(self).page));
        }
    }

    /// The message that reloads the current page.
    fn paginate_msg(&self) -> (r: CommentMsg<S>)
        ensures
            r@ == paginate_msg(self@),
    {
        match &self.search {
            Some(s) => CommentMsg::Search(owned(s.as_str())),
            None => CommentMsg::FetchComments { parent_id: self.parent_id, parent_comment: None, scroll_to: None },
        }
    }

    /// The message that reloads the children of the top of the stack.
    fn reload_top(&self) -> (r: CommentMsg<S>)
        requires
            self@.nav.len() > 0,
        ensures
            r@ == reload_top(self@, self@.nav.last()),
    {
        let top = &self.nav_stack[self.nav_stack.len() - 1];
        let parent_id = match &top.comment {
            Some(c) => c.id,
            None => self.article.id,
        };
        CommentMsg::FetchComments { parent_id, parent_comment: None, scroll_to: top.scroll_offset }
    }

    fn on_fetch(&mut self, parent_id: u64, parent_comment: Option<Comment>, scroll_to: Option<S>) -> (r: CommentTask<S>)
        ensures
            (final(self)@, r@) == comment_step(old(self)@, MsgView::FetchComments {
                parent_id: parent_id,
                parent_comment: opt_comment(parent_comment),
                scroll_to: scroll_to,
            }),
    {
        self.search = None;
        if let Some(parent) = parent_comment {
            if self.parent_id != parent.id {
                if let Some(index) = find_first(&self.nav_stack, parent_id) {
                    self.nav_stack.truncate(index);
                    assert(navs_view(self.nav_stack@) =~= navs_view(old(self).nav_stack@).take(index as int));
                }
                let ghost kept = navs_view(self.nav_stack@);
                self.nav_stack.push(NavStack { comment: Some(parent), offset: 0, page: 1, scroll_offset: None });
                assert(navs_view(self.nav_stack@) =~= kept.push(NavView { comment: Some(parent@), offset: 0, page: 1, scroll: None }));
                self.offset = 0;
                self.page = 1;
            }
        }
        self.parent_id = parent_id;
        CommentTask::FetchPage { parent_id, offset: self.offset, scroll_to }
    }

    fn on_pop(&mut self) -> (r: CommentTask<S>)
        ensures
            (final(self)@, r@) == comment_step(old(self)@, MsgView::PopNavStack),
    {
        let ghost nav0 = navs_view(self.nav_stack@);
        if let Some(popped) = self.nav_stack.pop() {
            assert(navs_view(self.nav_stack@) =~= nav0.drop_last());
            if let Some(c) = popped.comment {
                self.active_comment_id = Some(c.id);
            }
        }
        if self.nav_stack.len() > 0 {
            let n = self.nav_stack.len();
            self.offset = self.nav_stack[n - 1].offset;
            self.page = self.nav_stack[n - 1].page;
            let m = self.reload_top();
            CommentTask::Send(m)
        } else {
            CommentTask::CloseComments
        }
    }

    fn on_search(&mut self, search: String) -> (r: CommentTask<S>)
        ensures
            (final(self)@, r@) == comment_step(old(self)@, MsgView::Search(search@)),
    {
        if search.as_str().is_empty() {
            CommentTask::Send(CommentMsg::CloseSearch)
        } else {
            let changed = match &self.search {
                Some(s) => !crate::text::str_eq(s.as_str(), search.as_str()),
                None => false,
            };
            if changed {
                let n = self.nav_stack.len();
                if n > 0 {
                    let ghost nav0 = navs_view(self.nav_stack@);
                    let mut top = self.nav_stack.pop().unwrap();
                    top.offset = 0;
                    top.page = 0;
                    self.nav_stack.push(top);
                    assert(navs_view(self.nav_stack@) =~= nav0.update(nav0.len() - 1, NavView { offset: 0, page: 0, ..nav0.last() }));
                }
                self.offset = 0;
                self.page = 1;
            }
            let task = CommentTask::SearchPage { search: owned(search.as_str()), story_id: self.article.id, offset: self.offset };
            self.search = Some(search);
            task
        }
    }

    fn on_close(&mut self, comment_id: u64) -> (r: CommentTask<S>)
        ensures
            (final(self)@, r@) == comment_step(old(self)@, MsgView::Close(comment_id)),
    {
        self.active_comment_id = Some(comment_id);
        let ghost nav0 = navs_view(self.nav_stack@);
        let ghost pre = self@;
        loop
            invariant_except_break
                navs_view(self.nav_stack@).len() <= nav0.len(),
                navs_view(self.nav_stack@) == nav0.take(navs_view(self.nav_stack@).len() as int),
                last_with_id(nav0, comment_id) == last_with_id(navs_view(self.nav_stack@), comment_id),
            invariant
                self@ == (StateView { nav: navs_view(self.nav_stack@), ..pre }),
                pre.nav == nav0,
            ensures
                navs_view(self.nav_stack@) == match last_with_id(nav0, comment_id) {
                    Some(i) => nav0.take(i),
                    None => Seq::empty(),
                },
            decreases self.nav_stack@.len(),
        {
            let ghost before = navs_view(self.nav_stack@);
            match self.nav_stack.pop() {
                Some(item) => {
                    assert(navs_view(self.nav_stack@) =~= before.drop_last());
                    assert(nav0.take(before.len() - 1) =~= before.drop_last());
                    let hit = match &item.comment {
                        Some(c) => c.id == comment_id,
                        None => false,
                    };
                    if hit {
                        break;
                    }
                },
                None => {
                    assert(before =~= Seq::<NavView<S>>::empty());
                    break;
                },
            }
        }
        let n = self.nav_stack.len();
        self.parent_id = if n > 0 {
            match &self.nav_stack[n - 1].comment {
                Some(c) => c.parent_id,
                None => 0,
            }
        } else {
            0
        };
        if n > 0 {
            self.offset = self.nav_stack[n - 1].offset;
            self.page = self.nav_stack[n - 1].page;
            let m = self.reload_top();
            CommentTask::Send(m)
        } else {
            CommentTask::Nothing
        }
    }

    fn on_scroll(&mut self, o: S) -> (r: CommentTask<S>)
        ensures
            (final(self)@, r@) == comment_step(old(self)@, MsgView::ScrollOffset(o)),
    {
        let n = self.nav_stack.len();
        if n > 0 {
            let ghost nav0 = navs_view(self.nav_stack@);
            let mut top = self.nav_stack.pop().unwrap();
            top.scroll_offset = Some(o);
            self.nav_stack.push(top);
            assert(navs_view(self.nav_stack@) =~= nav0.update(nav0.len() - 1, NavView { scroll: Some(o), ..nav0.last() }));
        }
        CommentTask::Nothing
    }

    /// Handles a message of the comment view; the returned task is what the
    /// host is to do next.
    pub fn update(&mut self, message: CommentMsg<S>) -> (r: CommentTask<S>)
        requires
            step_ok(old(self)@, message@),
        ensures
            (final(self)@, r@) == comment_step(old(self)@, message@),
    {
        match message {
            CommentMsg::FetchComments { parent_id, parent_comment, scroll_to } => self.on_fetch(parent_id, parent_comment, scroll_to),
            CommentMsg::PopNavStack => self.on_pop(),
            CommentMsg::Search(search) => self.on_search(search),
            CommentMsg::CloseSearch => {
                self.search = None;
                CommentTask::Send(CommentMsg::JumpPage(1))
            },
            CommentMsg::Oneline => {
                self.oneline = !self.oneline;
                CommentTask::Nothing
            },
            CommentMsg::Forward => {
                self.offset = self.offset + 10;
                self.page = self.page + 1;
                self.update_nav_stack();
                CommentTask::Paginate(self.paginate_msg())
            },
            CommentMsg::Back => {
                self.offset = self.offset - 10;
                self.page = self.page - 1;
                self.update_nav_stack();
                CommentTask::Paginate(self.paginate_msg())
            },
            CommentMsg::JumpPage(page) => {
                self.page = page;
                if page > 1 {
                    self.offset = 10 * (page - 1);
                } else {
                    self.offset = 0;
                }
                self.update_nav_stack();
                CommentTask::Paginate(self.paginate_msg())
            },
            CommentMsg::Close(comment_id) => self.on_close(comment_id),
            CommentMsg::ScrollOffset(o) => self.on_scroll(o),
            CommentMsg::Activate(comment_id) => {
                self.active_comment_id = Some(comment_id);
                CommentTask::Nothing
            },
            CommentMsg::ShowThread(comment_id) => CommentTask::ShowThread(comment_id),
        }
    }

    /// What the view shows around the listed comments.
    pub fn layout(&self) -> (r: CommentLayout)
        ensures
            is_comment_layout(self@, r),
    {
        let mut parents: usize = 0;
        let mut i: usize = 0;
        while i < self.nav_stack.len()
            invariant
                i <= self.nav_stack@.len(),
                parents == parent_count(navs_view(self.nav_stack@).take(i as int)),
                parents <= i,
            decreases self.nav_stack@.len() - i,
        {
            proof {
                let nv = navs_view(self.nav_stack@);
                assert(nv.take(i as int + 1).drop_last() =~= nv.take(i as int));
                assert(nv.take(i as int + 1).last() == self.nav_stack@[i as int]@);
            }
            if self.nav_stack[i].comment.is_some() {
                parents = parents + 1;
            }
            i = i + 1;
        }
        assert(navs_view(self.nav_stack@).take(self.nav_stack@.len() as int) =~= navs_view(self.nav_stack@));
        let mut rows: Vec<(u64, bool)> = Vec::new();
        let mut k: usize = 0;
        while k < self.comments.len()
            invariant
                k <= self.comments@.len(),
                rows@ == comment_rows(comments_view(self.comments@).take(k as int), self.active_comment_id),
            decreases self.comments@.len() - k,
        {
            let id = self.comments[k].id;
            let active = match self.active_comment_id {
                Some(a) => a == id,
                None => false,
            };
            rows.push((id, active));
            k = k + 1;
            assert(rows@ =~= comment_rows(comments_view(self.comments@).take(k as int), self.active_comment_id));
        }
        assert(comments_view(self.comments@).take(self.comments@.len() as int) =~= comments_view(self.comments@));
        CommentLayout {
            story_text: self.search.is_none() && self.article.body.is_some(),
            parent_chain: self.search.is_none(),
            parents,
            pagination: self.full_count > PAGE_SIZE,
            rows,
        }
    }

    /// Takes the page of comments that a `FetchPage` or `SearchPage` task
    /// loaded, with the total count of matching comments.
    pub fn comments_loaded(&mut self, comments: Vec<Comment>, full_count: usize)
        ensures
            final(self)@ == (StateView { comments: comments_view(comments@), full_count: full_count, ..old(self)@ }),
    {
        self.comments = comments;
        self.full_count = full_count;
    }
}

/// The position of the first comment with an id lies on the stack.
proof fn lemma_first_with_id_in_range<S>(nav: Seq<NavView<S>>, id: u64)
    ensures
        first_with_id(nav, id) matches Some(i) ==> 0 <= i < nav.len(),
    decreases nav.len(),
{
    if nav.len() > 0 {
        lemma_first_with_id_in_range(nav.drop_last(), id);
    }
}

/// Typing a different search term over a search restarts it on its first
/// page: offset 0, page 1, and the search asked for at offset 0. The same
/// term, or a first term, keeps the page shown. Either way the view then
/// searches for the new term in its story.
pub proof fn lemma_search_paging<S>(st: StateView<S>, search: Seq<char>)
    requires
        search.len() > 0,
    ensures
        ({
            let (st2, task) = comment_step(st, MsgView::Search(search));
            &&& st2.search == Some(search)
            &&& st2.article == st.article
            &&& st2.parent_id == st.parent_id
            &&& st2.comments == st.comments
            &&& (st.search matches Some(old) && old != search) ==> {
                &&& st2.offset == 0
                &&& st2.page == 1
                &&& task == TaskView::<S>::SearchPage { search: search, story_id: st.article.id, offset: 0 }
                &&& st2.nav.len() == st.nav.len()
                &&& forall|i: int| 0 <= i < st.nav.len() - 1 ==> st2.nav[i] == st.nav[i]
                &&& st.nav.len() > 0 ==> st2.nav.last()
                    == NavView::<S> { offset: 0, page: 0, ..st.nav.last() }
            }
            &&& !(st.search matches Some(old) && old != search) ==> {
                &&& st2.offset == st.offset
                &&& st2.page == st.page
                &&& st2.nav == st.nav
                &&& task == TaskView::<S>::SearchPage { search: search, story_id: st.article.id, offset: st.offset }
            }
        }),
{
}

/// Opening a comment other than the current parent lists its replies from
/// their first page: offset 0, page 1, the fetch asked for at offset 0, and
/// the comment on top of the navigation stack at its first page. Fetching
/// the current parent again, or with no parent comment, keeps the page.
/// Either way the search is closed and the fetched parent becomes current.
pub proof fn lemma_fetch_paging<S>(
    st: StateView<S>,
    parent_id: u64,
    parent_comment: Option<CommentView>,
    scroll_to: Option<S>,
)
    ensures
        ({
            let (st2, task) = comment_step(
                st,
                MsgView::FetchComments { parent_id: parent_id, parent_comment: parent_comment, scroll_to: scroll_to },
            );
            &&& st2.search is None
            &&& st2.parent_id == parent_id
            &&& st2.article == st.article
            &&& (parent_comment matches Some(p) && p.id != st.parent_id) ==> {
                &&& st2.offset == 0
                &&& st2.page == 1
                &&& st2.nav.len() > 0
                &&& st2.nav.last() == NavView::<S> { comment: parent_comment, offset: 0, page: 1, scroll: None }
                &&& st2.nav.len() <= st.nav.len() + 1
                &&& forall|i: int| 0 <= i < st2.nav.len() - 1 ==> st2.nav[i] == st.nav[i]
                &&& task == TaskView::<S>::FetchPage { parent_id: parent_id, offset: 0, scroll_to: scroll_to }
            }
            &&& !(parent_comment matches Some(p) && p.id != st.parent_id) ==> {
                &&& st2.offset == st.offset
                &&& st2.page == st.page
                &&& st2.nav == st.nav
                &&& task == TaskView::<S>::FetchPage { parent_id: parent_id, offset: st.offset, scroll_to: scroll_to }
            }
        }),
{
    lemma_first_with_id_in_range(st.nav, parent_id);
}

/// Paging forward and then back returns to the same offset and page, with
/// the top of the stack showing that page, not scrolled.
pub proof fn lemma_forward_then_back<S>(st: StateView<S>)
    requires
        step_ok(st, MsgView::Forward),
    ensures
        step_ok(comment_step(st, MsgView::Forward).0, MsgView::Back),
        ({
            let back = comment_step(comment_step(st, MsgView::Forward).0, MsgView::Back).0;
            &&& back.offset == st.offset
            &&& back.page == st.page
            &&& back.nav == sync_top(st.nav, st.offset, st.page)
            &&& back.search == st.search
            &&& back.parent_id == st.parent_id
        }),
{
    let fwd = comment_step(st, MsgView::Forward).0;
    let back = comment_step(fwd, MsgView::Back).0;
    if st.nav.len() > 0 {
        assert(back.nav =~= sync_top(st.nav, st.offset, st.page));
    }
}

/// Jumping to a page shows that page at its offset, and the top of the
/// stack remembers it.
pub proof fn lemma_jump_page<S>(st: StateView<S>, page: usize)
    requires
        step_ok(st, MsgView::JumpPage(page)),
    ensures
        ({
            let next = comment_step(st, MsgView::JumpPage(page)).0;
            &&& next.page == page
            &&& next.offset == page_offset(page)
            &&& next.nav.len() == st.nav.len()
            &&& next.nav.len() > 0 ==> next.nav.last().offset == next.offset && next.nav.last().page == page
        }),
{
}

/// Toggling one-line mode twice restores the state.
pub proof fn lemma_oneline_twice<S>(st: StateView<S>)
    ensures
        comment_step(comment_step(st, MsgView::Oneline).0, MsgView::Oneline).0 == st,
{
}

/// Whether no comment occurs twice on the navigation stack.
pub open spec fn nav_ids_unique<S>(nav: Seq<NavView<S>>) -> bool {
    forall|i: int, j: int|
        0 <= i < j < nav.len() && nav[i].comment is Some && nav[j].comment is Some
        ==> (#[trigger] nav[i]).comment->0.id != (#[trigger] nav[j]).comment->0.id
}

/// Whether a message is as the view sends it: a fetch that opens a parent
/// comment names that comment's id.
pub open spec fn msg_well_formed<S>(msg: MsgView<S>) -> bool {
    msg matches MsgView::FetchComments { parent_id, parent_comment, .. } ==>
        (parent_comment matches Some(c) ==> c.id == parent_id)
}

proof fn lemma_first_with_id<S>(nav: Seq<NavView<S>>, id: u64)
    ensures
        match first_with_id(nav, id) {
            Some(i) => 0 <= i < nav.len() && forall|j: int| 0 <= j < i ==> !((#[trigger] nav[j]).comment matches Some(c) && c.id == id),
            None => forall|j: int| 0 <= j < nav.len() ==> !((#[trigger] nav[j]).comment matches Some(c) && c.id == id),
        },
    decreases nav.len(),
{
    if nav.len() > 0 {
        lemma_first_with_id(nav.drop_last(), id);
        assert forall|j: int| 0 <= j < nav.len() - 1 implies nav.drop_last()[j] == nav[j] by {}
    }
}

proof fn lemma_last_with_id<S>(nav: Seq<NavView<S>>, id: u64)
    ensures
        last_with_id(nav, id) matches Some(i) ==> 0 <= i < nav.len(),
    decreases nav.len(),
{
    if nav.len() > 0 {
        lemma_last_with_id(nav.drop_last(), id);
    }
}

/// Every message the view sends keeps the comments on the navigation stack
/// distinct: opening a parent first drops it and what lies above it.
pub proof fn lemma_nav_ids_stay_unique<S>(st: StateView<S>, msg: MsgView<S>)
    requires
        nav_ids_unique(st.nav),
        msg_well_formed(msg),
    ensures
        nav_ids_unique(comment_step(st, msg).0.nav),
{
    let next = comment_step(st, msg).0.nav;
    match msg {
        MsgView::FetchComments { parent_id, parent_comment, scroll_to } => {
            if let Some(parent) = parent_comment {
                if st.parent_id != parent.id {
                    lemma_first_with_id(st.nav, parent_id);
                    let kept = match first_with_id(st.nav, parent_id) {
                        Some(i) => st.nav.take(i),
                        None => st.nav,
                    };
                    assert forall|i: int, j: int|
                        0 <= i < j < next.len() && next[i].comment is Some && next[j].comment is Some
                        implies (#[trigger] next[i]).comment->0.id != (#[trigger] next[j]).comment->0.id by {
                        assert(next[i] == kept[i]);
                        if j < kept.len() {
                            assert(next[j] == kept[j]);
                        }
                    }
                }
            }
        },
        MsgView::PopNavStack => {
            assert forall|i: int, j: int|
                0 <= i < j < next.len() && next[i].comment is Some && next[j].comment is Some
                implies (#[trigger] next[i]).comment->0.id != (#[trigger] next[j]).comment->0.id by {
                assert(next[i] == st.nav[i] && next[j] == st.nav[j]);
            }
        },
        MsgView::Close(id) => {
            lemma_last_with_id(st.nav, id);
            assert forall|i: int, j: int|
                0 <= i < j < next.len() && next[i].comment is Some && next[j].comment is Some
                implies (#[trigger] next[i]).comment->0.id != (#[trigger] next[j]).comment->0.id by {
                assert(next[i] == st.nav[i] && next[j] == st.nav[j]);
            }
        },
        _ => {
            assert forall|i: int, j: int|
                0 <= i < j < next.len() && next[i].comment is Some && next[j].comment is Some
                implies (#[trigger] next[i]).comment->0.id != (#[trigger] next[j]).comment->0.id by {
                assert(next[i].comment == st.nav[i].comment && next[j].comment == st.nav[j].comment);
            }
        },
    }
}

} // verus!
