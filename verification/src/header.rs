//! State of the header bar: the category and number of stories chosen, an
//! index being rebuilt, the search over all comments, and of the status
//! bar below the panes.
use vstd::prelude::*;
use vstd::string::*;
use crate::comments::opt_text;
use crate::search::IndexStats;
use crate::text::owned;
use crate::types::ArticleType;

verus! {

/// Messages of the header bar.
#[derive(Debug)]
pub enum HeaderMsg {
    Select { article_count: usize, article_type: ArticleType },
    ClearVisisted,
    RebuildIndex,
    IndexReady { stats: IndexStats, category: ArticleType },
    Search(String),
    IndexFailed(String),
    ClearSearch,
}

/// The view of a message of the header bar.
pub enum HeaderMsgView {
    Select { article_count: usize, article_type: ArticleType },
    ClearVisisted,
    RebuildIndex,
    IndexReady { stats: IndexStats, category: ArticleType },
    Search(Seq<char>),
    IndexFailed(Seq<char>),
    ClearSearch,
}

impl View for HeaderMsg {
    type V = HeaderMsgView;

    open spec fn view(&self) -> HeaderMsgView {
        match self {
            HeaderMsg::Select { article_count, article_type } => HeaderMsgView::Select {
                article_count: *article_count,
                article_type: *article_type,
            },
            HeaderMsg::ClearVisisted => HeaderMsgView::ClearVisisted,
            HeaderMsg::RebuildIndex => HeaderMsgView::RebuildIndex,
            HeaderMsg::IndexReady { stats, category } => HeaderMsgView::IndexReady { stats: *stats, category: *category },
            HeaderMsg::Search(s) => HeaderMsgView::Search(s@),
            HeaderMsg::IndexFailed(s) => HeaderMsgView::IndexFailed(s@),
            HeaderMsg::ClearSearch => HeaderMsgView::ClearSearch,
        }
    }
}

/// What the header bar asks its host to do.
#[derive(Debug)]
pub enum HeaderTask {
    /// Clear the header search, then switch to the index of `category`
    /// and list `count` of its stories.
    Select { category: ArticleType, count: usize },
    /// Forget the visited stories.
    ClearVisited,
    /// Rebuild the index of `category`, report "Building index..." in the
    /// status bar, and hand the outcome over as `IndexReady` or
    /// `IndexFailed`.
    Rebuild(ArticleType),
    /// Switch to the rebuilt index of `category` listing `count` stories,
    /// then record the time of the update and the index's counts.
    IndexBuilt { category: ArticleType, count: usize, stats: IndexStats },
    /// Show this error in the status bar.
    ShowError(String),
    /// Handle this message next.
    Send(HeaderMsg),
    /// Search all comments for this text.
    SearchAll(String),
    /// Nothing.
    Nothing,
}

/// The view of a task of the header bar.
pub enum HeaderTaskView {
    Select { category: ArticleType, count: usize },
    ClearVisited,
    Rebuild(ArticleType),
    IndexBuilt { category: ArticleType, count: usize, stats: IndexStats },
    ShowError(Seq<char>),
    Send(HeaderMsgView),
    SearchAll(Seq<char>),
    Nothing,
}

impl View for HeaderTask {
    type V = HeaderTaskView;

    open spec fn view(&self) -> HeaderTaskView {
        match self {
            HeaderTask::Select { category, count } => HeaderTaskView::Select { category: *category, count: *count },
            HeaderTask::ClearVisited => HeaderTaskView::ClearVisited,
            HeaderTask::Rebuild(c) => HeaderTaskView::Rebuild(*c),
            HeaderTask::IndexBuilt { category, count, stats } => HeaderTaskView::IndexBuilt {
                category: *category,
                count: *count,
                stats: *stats,
            },
            HeaderTask::ShowError(s) => HeaderTaskView::ShowError(s@),
            HeaderTask::Send(m) => HeaderTaskView::Send(m@),
            HeaderTask::SearchAll(s) => HeaderTaskView::SearchAll(s@),
            HeaderTask::Nothing => HeaderTaskView::Nothing,
        }
    }
}

/// State of the header bar.
#[derive(Debug)]
pub struct HeaderState {
    pub article_count: usize,
    pub article_type: ArticleType,
    pub building_index: bool,
    pub full_search: Option<String>,
}

/// The view of the header bar state.
pub struct HeaderView {
    pub article_count: usize,
    pub article_type: ArticleType,
    pub building_index: bool,
    pub full_search: Option<Seq<char>>,
}

impl View for HeaderState {
    type V = HeaderView;

    open spec fn view(&self) -> HeaderView {
        HeaderView {
            article_count: self.article_count,
            article_type: self.article_type,
            building_index: self.building_index,
            full_search: opt_text(self.full_search),
        }
    }
}

/// How the header bar handles a message: the next state and the task for
/// the host.
pub open spec fn header_step(st: HeaderView, msg: HeaderMsgView) -> (HeaderView, HeaderTaskView) {
    match msg {
        HeaderMsgView::Select { article_count, article_type } => (
            HeaderView { article_type: article_type, article_count: article_count, ..st },
            HeaderTaskView::Select { category: article_type, count: article_count },
        ),
        HeaderMsgView::ClearVisisted => (st, HeaderTaskView::ClearVisited),
        HeaderMsgView::RebuildIndex => (HeaderView { building_index: true, ..st }, HeaderTaskView::Rebuild(st.article_type)),
        HeaderMsgView::IndexReady { stats, category } => (
            HeaderView { building_index: false, article_type: category, ..st },
            HeaderTaskView::IndexBuilt { category: category, count: st.article_count, stats: stats },
        ),
        HeaderMsgView::IndexFailed(err) => (HeaderView { building_index: false, ..st }, HeaderTaskView::ShowError(err)),
        HeaderMsgView::Search(search) => if search.len() == 0 {
            (st, HeaderTaskView::Send(HeaderMsgView::ClearSearch))
        } else {
            (HeaderView { full_search: Some(search), ..st }, HeaderTaskView::SearchAll(search))
        },
        HeaderMsgView::ClearSearch => (HeaderView { full_search: None, ..st }, HeaderTaskView::Nothing),
    }
}

/// What the header bar shows: the category buttons in order, each with
/// whether it is the chosen one; the story count buttons in order, each
/// with whether it is the chosen count; and whether the button that
/// rebuilds the index can be pressed.
#[derive(Debug, Clone, PartialEq, Eq)]
pub struct HeaderLayout {
    pub categories: Vec<(ArticleType, bool)>,
    pub counts: Vec<(usize, bool)>,
    pub rebuild_enabled: bool,
}

/// The categories the header bar offers, in order.
pub open spec fn header_categories() -> Seq<ArticleType> {
    seq![ArticleType::Top, ArticleType::Best, ArticleType::New, ArticleType::Ask, ArticleType::Show, ArticleType::Job]
}

/// The story counts the header bar offers, in order.
pub open spec fn header_counts() -> Seq<usize> {
    seq![25usize, 50usize, 75usize]
}

/// What the header bar of `st` shows.
pub open spec fn header_layout_of(st: HeaderView, r: HeaderLayout) -> bool {
    &&& r.categories@ == header_categories().map_values(|t: ArticleType| (t, t == st.article_type))
    &&& r.counts@ == header_counts().map_values(|c: usize| (c, c == st.article_count))
    &&& r.rebuild_enabled == !st.building_index
}

impl HeaderState {
    /// A header for `article_count` stories of `article_type`, with no
    /// search and no index being built.
    pub fn new(article_count: usize, article_type: ArticleType) -> (r: Self)
        ensures
            r@ == (HeaderView { article_count: article_count, article_type: article_type, building_index: false, full_search: None }),
    {
        HeaderState { article_count, article_type, building_index: false, full_search: None }
    }

    /// What the header bar shows.
    pub fn layout(&self) -> (r: HeaderLayout)
        ensures
            header_layout_of(self@, r),
    {
        let t = self.article_type;
        let c = self.article_count;
        let categories = vec![
            (ArticleType::Top, t == ArticleType::Top),
            (ArticleType::Best, t == ArticleType::Best),
            (ArticleType::New, t == ArticleType::New),
            (ArticleType::Ask, t == ArticleType::Ask),
            (ArticleType::Show, t == ArticleType::Show),
            (ArticleType::Job, t == ArticleType::Job),
        ];
        let counts = vec![(25usize, c == 25), (50usize, c == 50), (75usize, c == 75)];
        let r = HeaderLayout { categories, counts, rebuild_enabled: !self.building_index };
        assert(r.categories@ =~= header_categories().map_values(|x: ArticleType| (x, x == self@.article_type)));
        assert(r.counts@ =~= header_counts().map_values(|x: usize| (x, x == self@.article_count)));
        r
    }

    /// The message of the button of category `article_type`: that
    /// category, with the chosen count.
    pub fn category_message(&self, article_type: ArticleType) -> (r: HeaderMsg)
        ensures
            r@ == (HeaderMsgView::Select { article_count: self.article_count, article_type: article_type }),
    {
        HeaderMsg::Select { article_count: self.article_count, article_type }
    }

    /// The message of the button of story count `article_count`: that
    /// count, in the chosen category.
    pub fn count_message(&self, article_count: usize) -> (r: HeaderMsg)
        ensures
            r@ == (HeaderMsgView::Select { article_count: article_count, article_type: self.article_type }),
    {
        HeaderMsg::Select { article_count, article_type: self.article_type }
    }

    /// The message of the button that rebuilds the index: none while an
    /// index is being built.
    pub fn rebuild_message(&self) -> (r: Option<HeaderMsg>)
        ensures
            match r {
                Some(m) => !self.building_index && m@ == HeaderMsgView::RebuildIndex,
                None => self.building_index,
            },
    {
        if self.building_index {
            None
        } else {
            Some(HeaderMsg::RebuildIndex)
        }
    }

    /// Handles a message of the header bar.
    pub fn update(&mut self, message: HeaderMsg) -> (r: HeaderTask)
        ensures
            (final(self)@, r@) == header_step(old(self)@, message@),
    {
        match message {
            HeaderMsg::Select { article_count, article_type } => {
                self.article_type = article_type;
                self.article_count = article_count;
                HeaderTask::Select { category: article_type, count: article_count }
            },
            HeaderMsg::ClearVisisted => HeaderTask::ClearVisited,
            HeaderMsg::RebuildIndex => {
                self.building_index = true;
                HeaderTask::Rebuild(self.article_type)
            },
            HeaderMsg::IndexReady { stats, category } => {
                self.building_index = false;
                self.article_type = category;
                HeaderTask::IndexBuilt { category, count: self.article_count, stats }
            },
            HeaderMsg::IndexFailed(err) => {
                self.building_index = false;
                HeaderTask::ShowError(err)
            },
            HeaderMsg::Search(search) => {
                if search.as_str().is_empty() {
                    HeaderTask::Send(HeaderMsg::ClearSearch)
                } else {
                    self.full_search = Some(owned(search.as_str()));
                    HeaderTask::SearchAll(search)
                }
            },
            HeaderMsg::ClearSearch => {
                self.full_search = None;
                HeaderTask::Nothing
            },
        }
    }
}

/// Messages of the status bar. A time is handed over already written out.
#[derive(Debug)]
pub enum FooterMsg {
    Error(String),
    LastUpdate(String),
    Url(String),
    NoUrl,
    IndexStats { stats: IndexStats, category: ArticleType },
    CurrentIndex(ArticleType),
}

/// The statistics kept for `category`.
pub open spec fn stats_of(v: Seq<(ArticleType, IndexStats)>, category: ArticleType) -> Option<IndexStats>
    decreases v.len(),
{
    if v.len() == 0 {
        None
    } else if v.last().0 == category {
        Some(v.last().1)
    } else {
        stats_of(v.drop_last(), category)
    }
}

/// The last statistics listed for `category`.
pub open spec fn last_stats_of(v: Seq<IndexStats>, category: ArticleType) -> Option<IndexStats>
    decreases v.len(),
{
    if v.len() == 0 {
        None
    } else if v.last().category == category {
        Some(v.last())
    } else {
        last_stats_of(v.drop_last(), category)
    }
}

/// Whether each category has at most one entry.
pub open spec fn keys_unique(v: Seq<(ArticleType, IndexStats)>) -> bool {
    forall|i: int, j: int| 0 <= i < j < v.len() ==> v[i].0 != v[j].0
}

/// State of the status bar.
#[derive(Debug)]
pub struct FooterState {
    /// The line shown.
    pub status_line: String,
    /// When the index was last updated, written out.
    pub last_update: Option<String>,
    /// Statistics of the index shown.
    pub current_index_stats: Option<IndexStats>,
    /// Statistics of each index, by category.
    pub index_stats: Vec<(ArticleType, IndexStats)>,
}

/// The status line for an update at the time written `when`.
pub open spec fn updated_line(when: Seq<char>) -> Seq<char> {
    "Updated: "@ + when
}

proof fn lemma_stats_of_prefix(v: Seq<(ArticleType, IndexStats)>, i: int, category: ArticleType)
    requires
        0 <= i < v.len(),
        keys_unique(v),
        v[i].0 == category,
    ensures
        stats_of(v, category) == Some(v[i].1),
    decreases v.len(),
{
    if i < v.len() - 1 {
        assert(v.last().0 != category);
        assert(keys_unique(v.drop_last()));
        lemma_stats_of_prefix(v.drop_last(), i, category);
    }
}

proof fn lemma_stats_of_absent(v: Seq<(ArticleType, IndexStats)>, category: ArticleType)
    requires
        forall|i: int| 0 <= i < v.len() ==> v[i].0 != category,
    ensures
        stats_of(v, category) is None,
    decreases v.len(),
{
    if v.len() > 0 {
        lemma_stats_of_absent(v.drop_last(), category);
    }
}

proof fn lemma_stats_of_update(v: Seq<(ArticleType, IndexStats)>, i: int, s: IndexStats, other: ArticleType)
    requires
        0 <= i < v.len(),
        other != v[i].0,
    ensures
        stats_of(v.update(i, (v[i].0, s)), other) == stats_of(v, other),
    decreases v.len(),
{
    let w = v.update(i, (v[i].0, s));
    if i < v.len() - 1 {
        assert(w.drop_last() =~= v.drop_last().update(i, (v[i].0, s)));
        lemma_stats_of_update(v.drop_last(), i, s, other);
    } else {
        assert(w.drop_last() =~= v.drop_last());
    }
}

impl FooterState {
    /// An empty status bar with the statistics kept for each index.
    pub fn new(index_stats: Vec<(ArticleType, IndexStats)>) -> (r: Self)
        ensures
            r.status_line@.len() == 0,
            r.last_update is None,
            r.current_index_stats is None,
            r.index_stats@ == index_stats@,
    {
        FooterState { status_line: String::new(), last_update: None, current_index_stats: None, index_stats }
    }

    /// A status bar with the statistics kept for each index; for a
    /// category listed more than once the last statistics count.
    pub fn from_stats(stats: Vec<IndexStats>) -> (r: Self)
        ensures
            r.status_line@.len() == 0,
            r.last_update is None,
            r.current_index_stats is None,
            keys_unique(r.index_stats@),
            forall|c: ArticleType| #[trigger] stats_of(r.index_stats@, c) == last_stats_of(stats@, c),
    {
        let mut footer = FooterState { status_line: String::new(), last_update: None, current_index_stats: None, index_stats: Vec::new() };
        let mut i: usize = 0;
        while i < stats.len()
            invariant
                i <= stats@.len(),
                footer.status_line@.len() == 0,
                footer.last_update is None,
                footer.current_index_stats is None,
                keys_unique(footer.index_stats@),
                forall|c: ArticleType| #[trigger] stats_of(footer.index_stats@, c) == last_stats_of(stats@.take(i as int), c),
            decreases stats@.len() - i,
        {
            let s = stats[i];
            footer.record(s.category, s);
            proof {
                assert(stats@.take(i + 1).drop_last() =~= stats@.take(i as int));
                assert forall|c: ArticleType| #[trigger] stats_of(footer.index_stats@, c) == last_stats_of(stats@.take(i + 1), c) by {
                    assert(stats@.take(i + 1).last() == s);
                }
            }
            i = i + 1;
        }
        assert(stats@.take(stats@.len() as int) =~= stats@);
        footer
    }

    /// Records the statistics of `category`, replacing those kept before.
    fn record(&mut self, category: ArticleType, stats: IndexStats)
        requires
            keys_unique(old(self).index_stats@),
        ensures
            keys_unique(final(self).index_stats@),
            stats_of(final(self).index_stats@, category) == Some(stats),
            forall|c: ArticleType| c != category ==> stats_of(final(self).index_stats@, c) == stats_of(old(self).index_stats@, c),
            final(self).status_line == old(self).status_line,
            final(self).last_update == old(self).last_update,
            final(self).current_index_stats == old(self).current_index_stats,
    {
        let mut i: usize = 0;
        while i < self.index_stats.len()
            invariant
                i <= self.index_stats@.len(),
                self.index_stats@ == old(self).index_stats@,
                self.status_line == old(self).status_line,
                self.last_update == old(self).last_update,
                self.current_index_stats == old(self).current_index_stats,
                keys_unique(self.index_stats@),
                forall|j: int| 0 <= j < i ==> self.index_stats@[j].0 != category,
            decreases self.index_stats@.len() - i,
        {
            if self.index_stats[i].0 == category {
                let ghost before = self.index_stats@;
                self.index_stats.set(i, (category, stats));
                proof {
                    assert(self.index_stats@ == before.update(i as int, (before[i as int].0, stats)));
                    assert(keys_unique(self.index_stats@)) by {
                        assert forall|a: int, b: int| 0 <= a < b < self.index_stats@.len() implies self.index_stats@[a].0 != self.index_stats@[b].0 by {
                            assert(before[a].0 != before[b].0);
                        }
                    }
                    lemma_stats_of_prefix(self.index_stats@, i as int, category);
                    assert forall|c: ArticleType| c != category implies stats_of(self.index_stats@, c) == stats_of(before, c) by {
                        lemma_stats_of_update(before, i as int, stats, c);
                    }
                }
                return;
            }
            i = i + 1;
        }
        let ghost before = self.index_stats@;
        self.index_stats.push((category, stats));
        proof {
            assert(self.index_stats@.drop_last() =~= before);
            assert(keys_unique(self.index_stats@)) by {
                assert forall|a: int, b: int| 0 <= a < b < self.index_stats@.len() implies self.index_stats@[a].0 != self.index_stats@[b].0 by {
                    if b < before.len() {
                        assert(before[a].0 != before[b].0);
                    } else {
                        assert(before[a].0 != category);
                    }
                }
            }
        }
    }

    /// The statistics kept for `category`.
    fn lookup(&self, category: ArticleType) -> (r: Option<IndexStats>)
        requires
            keys_unique(self.index_stats@),
        ensures
            r == stats_of(self.index_stats@, category),
    {
        let mut i: usize = 0;
        while i < self.index_stats.len()
            invariant
                i <= self.index_stats@.len(),
                keys_unique(self.index_stats@),
                forall|j: int| 0 <= j < i ==> self.index_stats@[j].0 != category,
            decreases self.index_stats@.len() - i,
        {
            if self.index_stats[i].0 == category {
                proof {
                    lemma_stats_of_prefix(self.index_stats@, i as int, category);
                }
                return Some(self.index_stats[i].1);
            }
            i = i + 1;
        }
        proof {
            lemma_stats_of_absent(self.index_stats@, category);
        }
        None
    }

    /// Handles a message of the status bar; true when the configuration
    /// is to be saved.
    pub fn update(&mut self, message: FooterMsg) -> (save: bool)
        requires
            keys_unique(old(self).index_stats@),
        ensures
            keys_unique(final(self).index_stats@),
            save == (message is IndexStats),
            match message {
                FooterMsg::Error(s) => final(self).status_line@ == s@ && final(self).last_update == old(self).last_update
                    && final(self).index_stats@ == old(self).index_stats@,
                FooterMsg::LastUpdate(when) => final(self).status_line@ == updated_line(when@)
                    && opt_text(final(self).last_update) == Some(when@),
                FooterMsg::Url(url) => final(self).status_line@ == url@ && final(self).index_stats@ == old(self).index_stats@,
                FooterMsg::NoUrl => final(self).status_line@ == match opt_text(old(self).last_update) {
                    Some(when) => updated_line(when),
                    None => Seq::<char>::empty(),
                } && final(self).index_stats@ == old(self).index_stats@,
                FooterMsg::IndexStats { stats, category } => final(self).current_index_stats == Some(stats)
                    && stats_of(final(self).index_stats@, category) == Some(stats)
                    && forall|c: ArticleType| c != category ==> stats_of(final(self).index_stats@, c)
                        == stats_of(old(self).index_stats@, c),
                FooterMsg::CurrentIndex(category) => final(self).current_index_stats == stats_of(old(self).index_stats@, category)
                    && final(self).index_stats@ == old(self).index_stats@,
            },
    {
        match message {
            FooterMsg::Error(s) => {
                self.status_line = s;
                false
            },
            FooterMsg::LastUpdate(when) => {
                let mut line = owned("Updated: ");
                line.append(when.as_str());
                self.status_line = line;
                self.last_update = Some(when);
                false
            },
            FooterMsg::Url(url) => {
                self.status_line = url;
                false
            },
            FooterMsg::NoUrl => {
                match &self.last_update {
                    Some(when) => {
                        let mut line = owned("Updated: ");
                        line.append(when.as_str());
                        self.status_line = line;
                    },
                    None => {
                        self.status_line = String::new();
                    },
                }
                false
            },
            FooterMsg::IndexStats { stats, category } => {
                self.current_index_stats = Some(stats);
                self.record(category, stats);
                true
            },
            FooterMsg::CurrentIndex(category) => {
                self.current_index_stats = self.lookup(category);
                false
            },
        }
    }
}

/// A rebuild that ends, well or not, leaves no index being built.
pub proof fn lemma_rebuild_ends(st: HeaderView, msg: HeaderMsgView)
    requires
        msg is IndexReady || msg is IndexFailed,
    ensures
        !header_step(header_step(st, HeaderMsgView::RebuildIndex).0, msg).0.building_index,
        header_step(st, HeaderMsgView::RebuildIndex).0.building_index,
{
}

/// Searching for a text and then clearing the search leaves no search.
pub proof fn lemma_search_then_clear(st: HeaderView, search: Seq<char>)
    ensures
        search.len() > 0 ==> header_step(st, HeaderMsgView::Search(search)).0.full_search == Some(search),
        header_step(header_step(st, HeaderMsgView::Search(search)).0, HeaderMsgView::ClearSearch).0.full_search is None,
{
}

} // verus!
