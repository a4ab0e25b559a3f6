//! State of the full-text comment search view: what is searched, the page
//! shown, and what each message leads to.
use vstd::prelude::*;
use vstd::string::*;
use crate::comments::{comments_view, page_offset};
use crate::search::{Comment, CommentView};
use crate::text::{owned, str_eq};

verus! {

/// What a full search looks for.
#[derive(Debug)]
pub enum SearchCriteria {
    /// Comments matching a query, across all stories.
    Query(String),
    /// The comments of a story, newest first, optionally only those posted
    /// at or after `beyond`.
    StoryId { story_id: u64, beyond: Option<u64> },
}

/// The view of search criteria.
pub enum CriteriaView {
    Query(Seq<char>),
    StoryId { story_id: u64, beyond: Option<u64> },
}

impl View for SearchCriteria {
    type V = CriteriaView;

    open spec fn view(&self) -> CriteriaView {
        match self {
            SearchCriteria::Query(s) => CriteriaView::Query(s@),
            SearchCriteria::StoryId { story_id, beyond } => CriteriaView::StoryId { story_id: *story_id, beyond: *beyond },
        }
    }
}

impl SearchCriteria {
    /// A copy of these criteria.
    pub fn duplicate(&self) -> (r: SearchCriteria)
        ensures
            r@ == self@,
    {
        match self {
            SearchCriteria::Query(s) => SearchCriteria::Query(owned(s.as_str())),
            SearchCriteria::StoryId { story_id, beyond } => SearchCriteria::StoryId { story_id: *story_id, beyond: *beyond },
        }
    }
}

/// Messages of the full search view.
#[derive(Debug)]
pub enum FullSearchMsg {
    Search(String),
    CloseSearch,
    Forward,
    Back,
    ShowThread(u64),
    JumpPage(usize),
    StoryByTime { story_id: u64, beyond: Option<u64> },
    OpenComment(u64),
}

/// The view of a full search message.
pub enum FullMsgView {
    Search(Seq<char>),
    CloseSearch,
    Forward,
    Back,
    ShowThread(u64),
    JumpPage(usize),
    StoryByTime { story_id: u64, beyond: Option<u64> },
    OpenComment(u64),
}

impl View for FullSearchMsg {
    type V = FullMsgView;

    open spec fn view(&self) -> FullMsgView {
        match self {
            FullSearchMsg::Search(s) => FullMsgView::Search(s@),
            FullSearchMsg::CloseSearch => FullMsgView::CloseSearch,
            FullSearchMsg::Forward => FullMsgView::Forward,
            FullSearchMsg::Back => FullMsgView::Back,
            FullSearchMsg::ShowThread(id) => FullMsgView::ShowThread(*id),
            FullSearchMsg::JumpPage(p) => FullMsgView::JumpPage(*p),
            FullSearchMsg::StoryByTime { story_id, beyond } => FullMsgView::StoryByTime { story_id: *story_id, beyond: *beyond },
            FullSearchMsg::OpenComment(id) => FullMsgView::OpenComment(*id),
        }
    }
}

/// What the full search view asks its host to do.
#[derive(Debug)]
pub enum FullSearchTask {
    /// Nothing.
    Nothing,
    /// Search all comments for `search` at `offset`; on success hand the page
    /// to `results_loaded` and close the comment view.
    SearchAll { search: String, offset: usize },
    /// Load the page at `offset` of a story's comments, newest first; on
    /// success hand it to `results_loaded`.
    StoryPage { story_id: u64, beyond: Option<u64>, offset: usize },
    /// Handle this message next, then scroll to the top.
    Paginate(FullSearchMsg),
    /// Handle this message next.
    Send(FullSearchMsg),
    /// Go back in the navigation history.
    Back,
    /// Open the thread of this comment.
    ShowThread(u64),
    /// Open the comments under this comment, with its thread.
    OpenComment(u64),
}

/// The view of a full search task.
pub enum FullTaskView {
    Nothing,
    SearchAll { search: Seq<char>, offset: usize },
    StoryPage { story_id: u64, beyond: Option<u64>, offset: usize },
    Paginate(FullMsgView),
    Send(FullMsgView),
    Back,
    ShowThread(u64),
    OpenComment(u64),
}

impl View for FullSearchTask {
    type V = FullTaskView;

    open spec fn view(&self) -> FullTaskView {
        match self {
            FullSearchTask::Nothing => FullTaskView::Nothing,
            FullSearchTask::SearchAll { search, offset } => FullTaskView::SearchAll { search: search@, offset: *offset },
            FullSearchTask::StoryPage { story_id, beyond, offset } => FullTaskView::StoryPage {
                story_id: *story_id,
                beyond: *beyond,
                offset: *offset,
            },
            FullSearchTask::Paginate(m) => FullTaskView::Paginate(m@),
            FullSearchTask::Send(m) => FullTaskView::Send(m@),
            FullSearchTask::Back => FullTaskView::Back,
            FullSearchTask::ShowThread(id) => FullTaskView::ShowThread(*id),
            FullSearchTask::OpenComment(id) => FullTaskView::OpenComment(*id),
        }
    }
}

/// Full search view state.
#[derive(Debug)]
pub struct FullSearchState {
    pub search: SearchCriteria,
    pub search_results: Vec<Comment>,
    pub offset: usize,
    pub page: usize,
    pub full_count: usize,
}

/// The view of the full search state.
pub struct FullStateView {
    pub search: CriteriaView,
    pub results: Seq<CommentView>,
    pub offset: usize,
    pub page: usize,
    pub full_count: usize,
}

impl View for FullSearchState {
    type V = FullStateView;

    open spec fn view(&self) -> FullStateView {
        FullStateView {
            search: self.search@,
            results: comments_view(self.search_results@),
            offset: self.offset,
            page: self.page,
            full_count: self.full_count,
        }
    }
}

/// The message that reloads the current page.
pub open spec fn full_paginate_msg(search: CriteriaView) -> FullMsgView {
    match search {
        CriteriaView::Query(s) => FullMsgView::Search(s),
        CriteriaView::StoryId { story_id, beyond } => FullMsgView::StoryByTime { story_id: story_id, beyond: beyond },
    }
}

/// Whether handling `msg` keeps the counters within `usize`.
pub open spec fn full_step_ok(st: FullStateView, msg: FullMsgView) -> bool {
    match msg {
        FullMsgView::Forward => st.offset + 10 <= usize::MAX && st.page + 1 <= usize::MAX,
        FullMsgView::Back => st.offset >= 10 && st.page >= 1,
        FullMsgView::JumpPage(p) => page_offset(p) <= usize::MAX,
        _ => true,
    }
}

/// How the full search view handles a message.
pub open spec fn full_step(st: FullStateView, msg: FullMsgView) -> (FullStateView, FullTaskView) {
    match msg {
        FullMsgView::Search(search) => {
            if search.len() == 0 {
                (st, FullTaskView::Send(FullMsgView::CloseSearch))
            } else {
                let same = st.search matches CriteriaView::Query(s) && s == search;
                let st1 = if same { st } else { FullStateView { page: 1, offset: 0, ..st } };
                (
                    FullStateView { search: CriteriaView::Query(search), ..st1 },
                    FullTaskView::SearchAll { search: search, offset: st1.offset },
                )
            }
        },
        FullMsgView::CloseSearch => (FullStateView { offset: 0, page: 1, full_count: 0, ..st }, FullTaskView::Back),
        FullMsgView::Forward => {
            let st1 = FullStateView { offset: (st.offset + 10) as usize, page: (st.page + 1) as usize, ..st };
            (st1, FullTaskView::Paginate(full_paginate_msg(st1.search)))
        },
        FullMsgView::Back => {
            let st1 = FullStateView { offset: (st.offset - 10) as usize, page: (st.page - 1) as usize, ..st };
            (st1, FullTaskView::Paginate(full_paginate_msg(st1.search)))
        },
        FullMsgView::ShowThread(id) => (st, FullTaskView::ShowThread(id)),
        FullMsgView::JumpPage(p) => {
            let st1 = FullStateView { page: p, offset: page_offset(p) as usize, ..st };
            (st1, FullTaskView::Paginate(full_paginate_msg(st1.search)))
        },
        FullMsgView::StoryByTime { story_id, beyond } => (
            FullStateView { search: CriteriaView::StoryId { story_id: story_id, beyond: beyond }, ..st },
            FullTaskView::StoryPage { story_id: story_id, beyond: beyond, offset: st.offset },
        ),
        FullMsgView::OpenComment(id) => (st, FullTaskView::OpenComment(id)),
    }
}

impl FullSearchState {
    /// A new search for `search`, on its first page, with no results yet.
    pub fn new(search: SearchCriteria) -> (r: Self)
        ensures
            r@ == (FullStateView { search: search@, results: Seq::empty(), offset: 0, page: 1, full_count: 0 }),
    {
        let r = FullSearchState { search, search_results: Vec::new(), offset: 0, page: 1, full_count: 0 };
        assert(comments_view(r.search_results@) =~= Seq::<CommentView>::empty());
        r
    }

    fn paginate_msg(&self) -> (r: FullSearchMsg)
        ensures
            r@ == full_paginate_msg(self.search@),
    {
        match &self.search {
            SearchCriteria::Query(s) => FullSearchMsg::Search(owned(s.as_str())),
            SearchCriteria::StoryId { story_id, beyond } => FullSearchMsg::StoryByTime { story_id: *story_id, beyond: *beyond },
        }
    }

    /// Handles a message of the full search view.
    pub fn update(&mut self, message: FullSearchMsg) -> (r: FullSearchTask)
        requires
            full_step_ok(old(self)@, message@),
        ensures
            (final(self)@, r@) == full_step(old(self)@, message@),
    {
        match message {
            FullSearchMsg::Search(search) => {
                if search.as_str().is_empty() {
                    FullSearchTask::Send(FullSearchMsg::CloseSearch)
                } else {
                    let same = match &self.search {
                        SearchCriteria::Query(s) => str_eq(s.as_str(), search.as_str()),
                        SearchCriteria::StoryId { .. } => false,
                    };
                    if !same {
                        self.page = 1;
                        self.offset = 0;
                    }
                    let task = FullSearchTask::SearchAll { search: owned(search.as_str()), offset: self.offset };
                    self.search = SearchCriteria::Query(search);
                    task
                }
            },
            FullSearchMsg::CloseSearch => {
                self.offset = 0;
                self.page = 1;
                self.full_count = 0;
                FullSearchTask::Back
            },
            FullSearchMsg::Forward => {
                self.offset = self.offset + 10;
                self.page = self.page + 1;
                FullSearchTask::Paginate(self.paginate_msg())
            },
            FullSearchMsg::Back => {
                self.offset = self.offset - 10;
                self.page = self.page - 1;
                FullSearchTask::Paginate(self.paginate_msg())
            },
            FullSearchMsg::ShowThread(id) => FullSearchTask::ShowThread(id),
            FullSearchMsg::JumpPage(page) => {
                self.page = page;
                if page > 1 {
                    self.offset = 10 * (page - 1);
                } else {
                    self.offset = 0;
                }
                FullSearchTask::Paginate(self.paginate_msg())
            },
            FullSearchMsg::StoryByTime { story_id, beyond } => {
                self.search = SearchCriteria::StoryId { story_id, beyond };
                FullSearchTask::StoryPage { story_id, beyond, offset: self.offset }
            },
            FullSearchMsg::OpenComment(id) => FullSearchTask::OpenComment(id),
        }
    }

    /// Takes the page of results that a search task loaded, with the total
    /// count of matches.
    pub fn results_loaded(&mut self, results: Vec<Comment>, full_count: usize)
        ensures
            final(self)@ == (FullStateView { results: comments_view(results@), full_count: full_count, ..old(self)@ }),
    {
        self.search_results = results;
        self.full_count = full_count;
    }
}

/// Paging moves ten results a page (forward, back, or to the first result
/// of the page jumped to) and keeps the search's criteria: the message it
/// re-sends, handled on the paged state, searches for exactly the same criteria (the same
/// query, or the same story and time bound) at the paged offset, and
/// leaves that state as it is.
pub proof fn lemma_paging_keeps_criteria(st: FullStateView, msg: FullMsgView)
    requires
        msg is Forward || msg is Back || msg is JumpPage,
        full_step_ok(st, msg),
    ensures
        ({
            let (st1, task) = full_step(st, msg);
            &&& st1.search == st.search
            &&& st1.results == st.results
            &&& st1.full_count == st.full_count
            &&& msg is Forward ==> st1.offset == st.offset + 10 && st1.page == st.page + 1
            &&& msg is Back ==> st1.offset == st.offset - 10 && st1.page == st.page - 1
            &&& (msg matches FullMsgView::JumpPage(p) ==> st1.page == p
                && st1.offset == if p > 1 { 10 * (p - 1) } else { 0 })
            &&& task is Paginate
            &&& full_step(st1, task->Paginate_0).0 == st1
            &&& match st.search {
                CriteriaView::Query(q) => q.len() > 0 ==> full_step(st1, task->Paginate_0).1
                    == FullTaskView::SearchAll { search: q, offset: st1.offset },
                CriteriaView::StoryId { story_id, beyond } => full_step(st1, task->Paginate_0).1
                    == FullTaskView::StoryPage { story_id: story_id, beyond: beyond, offset: st1.offset },
            }
        }),
{
}

/// Paging forward and then back returns to the same offset and page.
pub proof fn lemma_full_forward_then_back(st: FullStateView)
    requires
        full_step_ok(st, FullMsgView::Forward),
    ensures
        full_step_ok(full_step(st, FullMsgView::Forward).0, FullMsgView::Back),
        full_step(full_step(st, FullMsgView::Forward).0, FullMsgView::Back).0 == st,
{
}

/// A search for a different query starts over at the first page; the same
/// query keeps the page.
pub proof fn lemma_new_query_restarts_paging(st: FullStateView, search: Seq<char>)
    requires
        search.len() > 0,
    ensures
        (st.search matches CriteriaView::Query(s) && s == search) ==> full_step(st, FullMsgView::Search(search)).0.page == st.page
            && full_step(st, FullMsgView::Search(search)).0.offset == st.offset,
        !(st.search matches CriteriaView::Query(s) && s == search) ==> full_step(st, FullMsgView::Search(search)).0.page == 1
            && full_step(st, FullMsgView::Search(search)).0.offset == 0,
{
}

} // verus!
