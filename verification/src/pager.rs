//! The comment pager and index rebuild progress of the GTK window: the
//! stack of comments opened, the page of children shown, and how far a
//! rebuild has come.
use vstd::prelude::*;
use crate::search::RebuildProgress;
use crate::types::ArticleType;

verus! {

/// Messages of the window.
pub enum PagerMsg {
    Fetch,
    Change(ArticleType),
    OpenComment(u64),
    CloseComment,
    Refresh,
    Progress(RebuildProgress),
    CommentPrev,
    CommentNext,
}

/// What the window asks its host to do.
#[derive(Debug, PartialEq, Eq, Structural)]
pub enum PagerTask {
    /// Nothing.
    Nothing,
    /// List the first 75 top stories of the active index.
    FetchStories,
    /// Scroll both panes to the top, clear the comments, switch to the
    /// index of the category, then fetch its stories.
    SwitchIndex(ArticleType),
    /// Load the ten children of `parent_id` at `offset` and hand their
    /// total to `comments_loaded`.
    FetchComments { parent_id: u64, offset: usize },
    /// Open `reopen` when there is one, and clear the comments when
    /// `clear` holds.
    Close { reopen: Option<u64>, clear: bool },
    /// Rebuild the active index, reporting progress.
    Rebuild,
    /// Show the progress bar at `received` of `total` stories, or hide it.
    ShowProgress { visible: bool, received: usize, total: usize },
}

/// The labels of the comment pager.
#[derive(Debug, PartialEq, Eq, Structural)]
pub struct PagerLabels {
    /// Page shown.
    pub page: u8,
    /// Number of pages.
    pub pages: u8,
    /// Whether the previous page button is enabled.
    pub prev: bool,
    /// Whether the next page button is enabled.
    pub next: bool,
}

/// State of the comment pager and the rebuild progress.
#[derive(Debug)]
pub struct PagerState {
    pub updating: bool,
    pub total_stories: usize,
    pub progress_received: usize,
    pub comment_stack: Vec<u64>,
    pub comment_page_offset: usize,
    pub comment_page: u8,
    pub total_comment_pages: u8,
    pub active_comment_id: u64,
}

/// The view of the pager state.
pub struct PagerView {
    pub updating: bool,
    pub total_stories: usize,
    pub received: usize,
    pub stack: Seq<u64>,
    pub offset: usize,
    pub page: u8,
    pub pages: u8,
    pub active: u64,
}

impl View for PagerState {
    type V = PagerView;

    open spec fn view(&self) -> PagerView {
        PagerView {
            updating: self.updating,
            total_stories: self.total_stories,
            received: self.progress_received,
            stack: self.comment_stack@,
            offset: self.comment_page_offset,
            page: self.comment_page,
            pages: self.total_comment_pages,
            active: self.active_comment_id,
        }
    }
}

/// Whether the pager can handle `msg` without overflow: paging forward
/// needs room for ten more comments and one more page, and counting a
/// finished story room for one more.
pub open spec fn pager_step_ok(st: PagerView, msg: PagerMsg) -> bool {
    match msg {
        PagerMsg::CommentNext => st.offset + 10 <= usize::MAX && st.page < 255,
        PagerMsg::Progress(RebuildProgress::StoryCompleted) => st.received < usize::MAX,
        _ => true,
    }
}

/// How the pager handles a message: the next state and the task for the
/// host.
pub open spec fn pager_step(st: PagerView, msg: PagerMsg) -> (PagerView, PagerTask) {
    match msg {
        PagerMsg::Fetch => (st, PagerTask::FetchStories),
        PagerMsg::Change(t) => (st, PagerTask::SwitchIndex(t)),
        PagerMsg::OpenComment(id) => (
            PagerView { active: id, page: if st.offset == 0 { 1 } else { st.page }, ..st },
            PagerTask::FetchComments { parent_id: id, offset: st.offset },
        ),
        PagerMsg::CloseComment => {
            let s1 = if st.stack.len() > 0 { st.stack.drop_last() } else { st.stack };
            let reopen = if s1.len() > 0 { Some(s1.last()) } else { None };
            let s2 = if s1.len() > 0 { s1.drop_last() } else { s1 };
            (PagerView { stack: s2, ..st }, PagerTask::Close { reopen: reopen, clear: s2.len() == 0 })
        },
        PagerMsg::CommentNext => (
            PagerView { offset: (st.offset + 10) as usize, page: (st.page + 1) as u8, ..st },
            PagerTask::FetchComments { parent_id: st.active, offset: (st.offset + 10) as usize },
        ),
        PagerMsg::CommentPrev => {
            let offset = if st.offset >= 10 { (st.offset - 10) as usize } else { 0 };
            let page = if st.page >= 1 { (st.page - 1) as u8 } else { 0 };
            (PagerView { offset: offset, page: page, ..st }, PagerTask::FetchComments { parent_id: st.active, offset: offset })
        },
        PagerMsg::Refresh => (st, PagerTask::Rebuild),
        PagerMsg::Progress(p) => match p {
            RebuildProgress::Started(total) => (
                PagerView { updating: true, total_stories: total, received: 0, ..st },
                PagerTask::ShowProgress { visible: true, received: 0, total: total },
            ),
            RebuildProgress::StoryCompleted => (
                PagerView { received: (st.received + 1) as usize, ..st },
                PagerTask::ShowProgress { visible: true, received: (st.received + 1) as usize, total: st.total_stories },
            ),
            RebuildProgress::Completed => (
                PagerView { updating: false, received: 0, ..st },
                PagerTask::ShowProgress { visible: false, received: 0, total: st.total_stories },
            ),
        },
    }
}

/// The number of pages of ten for `total` comments, as the pager keeps it
/// in a byte.
pub open spec fn page_count(total: usize) -> u8 {
    (if total % 10 > 0 { total / 10 + 1 } else { (total / 10) as int }) as u8
}

impl PagerState {
    /// A pager with no comment open and no rebuild running.
    pub fn new() -> (r: Self)
        ensures
            r@ == (PagerView {
                updating: false,
                total_stories: 0,
                received: 0,
                stack: Seq::empty(),
                offset: 0,
                page: 0,
                pages: 0,
                active: 0,
            }),
    {
        PagerState {
            updating: false,
            total_stories: 0,
            progress_received: 0,
            comment_stack: Vec::new(),
            comment_page_offset: 0,
            comment_page: 0,
            total_comment_pages: 0,
            active_comment_id: 0,
        }
    }

    /// Handles a message of the window.
    pub fn update(&mut self, message: PagerMsg) -> (r: PagerTask)
        requires
            pager_step_ok(old(self)@, message),
        ensures
            (final(self)@, r) == pager_step(old(self)@, message),
    {
        match message {
            PagerMsg::Fetch => PagerTask::FetchStories,
            PagerMsg::Change(t) => PagerTask::SwitchIndex(t),
            PagerMsg::OpenComment(id) => {
                self.active_comment_id = id;
                if self.comment_page_offset == 0 {
                    self.comment_page = 1;
                }
                PagerTask::FetchComments { parent_id: id, offset: self.comment_page_offset }
            },
            PagerMsg::CloseComment => {
                self.comment_stack.pop();
                let reopen = self.comment_stack.pop();
                PagerTask::Close { reopen, clear: self.comment_stack.len() == 0 }
            },
            PagerMsg::CommentNext => {
                self.comment_page_offset = self.comment_page_offset + 10;
                self.comment_page = self.comment_page + 1;
                PagerTask::FetchComments { parent_id: self.active_comment_id, offset: self.comment_page_offset }
            },
            PagerMsg::CommentPrev => {
                self.comment_page_offset = self.comment_page_offset.saturating_sub(10);
                self.comment_page = self.comment_page.saturating_sub(1);
                PagerTask::FetchComments { parent_id: self.active_comment_id, offset: self.comment_page_offset }
            },
            PagerMsg::Refresh => PagerTask::Rebuild,
            PagerMsg::Progress(p) => match p {
                RebuildProgress::Started(total) => {
                    self.updating = true;
                    self.total_stories = total;
                    self.progress_received = 0;
                    PagerTask::ShowProgress { visible: true, received: 0, total }
                },
                RebuildProgress::StoryCompleted => {
                    self.progress_received = self.progress_received + 1;
                    PagerTask::ShowProgress { visible: true, received: self.progress_received, total: self.total_stories }
                },
                RebuildProgress::Completed => {
                    self.updating = false;
                    self.progress_received = 0;
                    PagerTask::ShowProgress { visible: false, received: 0, total: self.total_stories }
                },
            },
        }
    }

    /// The children of `parent_id` were loaded, `total` of them in all:
    /// the comment goes on the stack and the labels of the pager follow.
    pub fn comments_loaded(&mut self, parent_id: u64, total: usize) -> (r: PagerLabels)
        ensures
            final(self)@ == (PagerView { stack: old(self)@.stack.push(parent_id), pages: page_count(total), ..old(self)@ }),
            r == (PagerLabels {
                page: old(self).comment_page,
                pages: page_count(total),
                prev: old(self).comment_page != 1,
                next: old(self).comment_page != page_count(total),
            }),
    {
        self.comment_stack.push(parent_id);
        let mut pages = total / 10;
        if total % 10 > 0 {
            pages = pages + 1;
        }
        self.total_comment_pages = pages as u8;
        PagerLabels {
            page: self.comment_page,
            pages: self.total_comment_pages,
            prev: self.comment_page != 1,
            next: self.comment_page != self.total_comment_pages,
        }
    }
}

/// Paging forward and back shows the same page at the same offset.
pub proof fn lemma_next_then_prev(st: PagerView)
    requires
        pager_step_ok(st, PagerMsg::CommentNext),
    ensures
        pager_step(pager_step(st, PagerMsg::CommentNext).0, PagerMsg::CommentPrev).0 == st,
{
}

/// A rebuild that started on `total` stories counts each one finished.
pub proof fn lemma_progress_counts(st: PagerView, total: usize)
    ensures
        ({
            let s1 = pager_step(st, PagerMsg::Progress(RebuildProgress::Started(total))).0;
            let s2 = pager_step(s1, PagerMsg::Progress(RebuildProgress::StoryCompleted)).0;
            let s3 = pager_step(s2, PagerMsg::Progress(RebuildProgress::Completed)).0;
            &&& s1.updating && s1.received == 0 && s1.total_stories == total
            &&& s2.received == 1
            &&& !s3.updating && s3.received == 0
        }),
{
}

} // verus!
