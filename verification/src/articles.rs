//! State of the list of top level stories: which are shown, visited,
//! re-indexed and watched, how many new comments a watched story has, and
//! what each message leads to.
use vstd::prelude::*;
use vstd::string::*;
use std::collections::{HashMap, HashSet};
use crate::comments::opt_text;
use crate::search::{Story, StoryView};
use crate::text::{chars_of, owned, str_eq};

verus! {

broadcast use vstd::std_specs::hash::group_hash_axioms;

/// Current state of updates for a watched story.
#[derive(Debug, Clone, Copy, PartialEq, Eq, Structural)]
pub struct WatchChange {
    /// Number of new comments since watching.
    pub new_comments: u64,
    /// Time of oldest comment before watch turned on.
    pub beyond: u64,
}

/// The view of a list of stories.
pub open spec fn stories_view(v: Seq<Story>) -> Seq<StoryView> {
    Seq::new(v.len(), |i: int| v[i]@)
}

/// Messages of the story list.
#[derive(Debug)]
pub enum ArticleMsg {
    TopStories(usize),
    Receive(Vec<Story>),
    Search(String),
    ViewingItem(u64),
    ViewingClosed,
    UpdateStory(Story),
    WatchStory(Story),
    UnWatchStory(u64),
    StoryUpdated(Story),
    RemoveWatches,
    OpenNew { story_id: u64, beyond: u64 },
    ClearIndexStory(u64),
    CheckHandles,
    ToggleWatchFilter,
    StoryClicked(Story),
}

/// The view of a message of the story list.
pub enum ArticleMsgView {
    TopStories(usize),
    Receive(Seq<StoryView>),
    Search(Seq<char>),
    ViewingItem(u64),
    ViewingClosed,
    UpdateStory(StoryView),
    WatchStory(StoryView),
    UnWatchStory(u64),
    StoryUpdated(StoryView),
    RemoveWatches,
    OpenNew { story_id: u64, beyond: u64 },
    ClearIndexStory(u64),
    CheckHandles,
    ToggleWatchFilter,
    StoryClicked(StoryView),
}

impl View for ArticleMsg {
    type V = ArticleMsgView;

    open spec fn view(&self) -> ArticleMsgView {
        match self {
            ArticleMsg::TopStories(n) => ArticleMsgView::TopStories(*n),
            ArticleMsg::Receive(v) => ArticleMsgView::Receive(stories_view(v@)),
            ArticleMsg::Search(s) => ArticleMsgView::Search(s@),
            ArticleMsg::ViewingItem(id) => ArticleMsgView::ViewingItem(*id),
            ArticleMsg::ViewingClosed => ArticleMsgView::ViewingClosed,
            ArticleMsg::UpdateStory(s) => ArticleMsgView::UpdateStory(s@),
            ArticleMsg::WatchStory(s) => ArticleMsgView::WatchStory(s@),
            ArticleMsg::UnWatchStory(id) => ArticleMsgView::UnWatchStory(*id),
            ArticleMsg::StoryUpdated(s) => ArticleMsgView::StoryUpdated(s@),
            ArticleMsg::RemoveWatches => ArticleMsgView::RemoveWatches,
            ArticleMsg::OpenNew { story_id, beyond } => ArticleMsgView::OpenNew { story_id: *story_id, beyond: *beyond },
            ArticleMsg::ClearIndexStory(id) => ArticleMsgView::ClearIndexStory(*id),
            ArticleMsg::CheckHandles => ArticleMsgView::CheckHandles,
            ArticleMsg::ToggleWatchFilter => ArticleMsgView::ToggleWatchFilter,
            ArticleMsg::StoryClicked(s) => ArticleMsgView::StoryClicked(s@),
        }
    }
}

/// What the story list asks its host to do.
#[derive(Debug)]
pub enum ArticleTask {
    /// Nothing.
    Nothing,
    /// Scroll the list to the top.
    ScrollTop,
    /// Load the first `limit` stories of the active index and hand them
    /// over as `Receive`.
    FetchTop(usize),
    /// Search the stories of the active index for `search`, at most
    /// `limit`, and hand them to `stories_found`.
    SearchStories { search: String, limit: usize },
    /// Handle this message next.
    Send(ArticleMsg),
    /// Save the configuration.
    SaveConfig,
    /// Stop watching the story, fetch it and its comments again into the
    /// index, and hand the result over as `StoryUpdated`, or send
    /// `ClearIndexStory` when there is none.
    Reindex(Story),
    /// Look up the time of the story's latest comment, hand it to
    /// `watch_started`, and subscribe to the story's updates.
    StartWatch(Story),
    /// Stop watching this story.
    StopWatch(u64),
    /// Stop every watch.
    StopAllWatches,
    /// Look up the time of the story's latest comment and hand it to
    /// `open_new`.
    LookUpLatest { story_id: u64, beyond: u64 },
    /// Show the comments of the story posted from `beyond` on, newest
    /// first, and mark the story viewed.
    ShowNew { story_id: u64, beyond: u64 },
    /// Reconnect every watch whose subscription has ended.
    CheckWatches,
    /// Open the story's link if it has one, open its comments and mark it
    /// viewed.
    OpenStory(Story),
}

/// The view of a task of the story list.
pub enum ArticleTaskView {
    Nothing,
    ScrollTop,
    FetchTop(usize),
    SearchStories { search: Seq<char>, limit: usize },
    Send(ArticleMsgView),
    SaveConfig,
    Reindex(StoryView),
    StartWatch(StoryView),
    StopWatch(u64),
    StopAllWatches,
    LookUpLatest { story_id: u64, beyond: u64 },
    ShowNew { story_id: u64, beyond: u64 },
    CheckWatches,
    OpenStory(StoryView),
}

impl View for ArticleTask {
    type V = ArticleTaskView;

    open spec fn view(&self) -> ArticleTaskView {
        match self {
            ArticleTask::Nothing => ArticleTaskView::Nothing,
            ArticleTask::ScrollTop => ArticleTaskView::ScrollTop,
            ArticleTask::FetchTop(n) => ArticleTaskView::FetchTop(*n),
            ArticleTask::SearchStories { search, limit } => ArticleTaskView::SearchStories { search: search@, limit: *limit },
            ArticleTask::Send(m) => ArticleTaskView::Send(m@),
            ArticleTask::SaveConfig => ArticleTaskView::SaveConfig,
            ArticleTask::Reindex(s) => ArticleTaskView::Reindex(s@),
            ArticleTask::StartWatch(s) => ArticleTaskView::StartWatch(s@),
            ArticleTask::StopWatch(id) => ArticleTaskView::StopWatch(*id),
            ArticleTask::StopAllWatches => ArticleTaskView::StopAllWatches,
            ArticleTask::LookUpLatest { story_id, beyond } => ArticleTaskView::LookUpLatest { story_id: *story_id, beyond: *beyond },
            ArticleTask::ShowNew { story_id, beyond } => ArticleTaskView::ShowNew { story_id: *story_id, beyond: *beyond },
            ArticleTask::CheckWatches => ArticleTaskView::CheckWatches,
            ArticleTask::OpenStory(s) => ArticleTaskView::OpenStory(s@),
        }
    }
}

/// What the row of one story shows besides its title and author.
#[derive(Debug, Clone, Copy, PartialEq, Eq, Structural)]
pub struct ArticleBadges {
    /// The Rust mark: the title mentions Rust.
    pub rust: bool,
    /// The visited mark.
    pub visited: bool,
    /// The button that re-indexes the story: shown unless it is being
    /// indexed.
    pub update_button: bool,
    /// The score, for anything but a job.
    pub score: Option<u64>,
    /// The comment count, when there are comments.
    pub comments: Option<u64>,
    /// The watch toggle, for anything but a job, and whether it is on.
    pub watch_toggle: Option<bool>,
    /// The badge of new comments of a watched story, when there are some:
    /// the watch's count of new comments and the time the comments to open
    /// start from.
    pub new_comments: Option<WatchChange>,
    /// Whether the story's comments are being viewed.
    pub selected: bool,
}

/// State of the list of top level stories.
#[derive(Debug)]
pub struct ArticleState {
    /// Viewing articles
    pub articles: Vec<Story>,
    /// Visited item ids.
    pub visited: HashSet<u64>,
    /// Search
    pub search: Option<String>,
    /// Item comments are being viewed.
    pub viewing_item: Option<u64>,
    /// How many articles to fetch.
    pub article_limit: usize,
    /// Number of changes that have occurred to a watched story.
    pub watch_changes: HashMap<u64, WatchChange>,
    /// Stories being index.
    pub indexing_stories: Vec<u64>,
    /// Filter articles being watched.
    pub filter_watching: bool,
}

/// The view of the story list state.
pub struct ArticlesView {
    pub articles: Seq<StoryView>,
    pub visited: Set<u64>,
    pub search: Option<Seq<char>>,
    pub viewing: Option<u64>,
    pub limit: usize,
    pub watch: Map<u64, WatchChange>,
    pub indexing: Seq<u64>,
    pub filter_watching: bool,
}

impl View for ArticleState {
    type V = ArticlesView;

    open spec fn view(&self) -> ArticlesView {
        ArticlesView {
            articles: stories_view(self.articles@),
            visited: self.visited@,
            search: opt_text(self.search),
            viewing: self.viewing_item,
            limit: self.article_limit,
            watch: self.watch_changes@,
            indexing: self.indexing_stories@,
            filter_watching: self.filter_watching,
        }
    }
}

/// What the row of `story` shows in the list `st`.
pub open spec fn badges_of(st: ArticlesView, story: StoryView) -> ArticleBadges {
    let job = story.ty == "job"@;
    ArticleBadges {
        rust: mentions_rust(story.title),
        visited: st.visited.contains(story.id),
        update_button: !st.indexing.contains(story.id),
        score: if job { None } else { Some(story.score) },
        comments: if story.descendants == 0 { None } else { Some(story.descendants) },
        watch_toggle: if job { None } else { Some(st.watch.contains_key(story.id)) },
        new_comments: if st.watch.contains_key(story.id) && st.watch[story.id].new_comments > 0 {
            Some(st.watch[story.id])
        } else {
            None
        },
        selected: st.viewing == Some(story.id),
    }
}

/// Whether `i` is the first position of a story with id `id`.
pub open spec fn is_first_story(articles: Seq<StoryView>, id: u64, i: int) -> bool {
    &&& 0 <= i < articles.len()
    &&& articles[i].id == id
    &&& forall|j: int| 0 <= j < i ==> articles[j].id != id
}

/// The number of new comments of a watched story that had `old`
/// comments and now has `now`: those counted new so far plus the growth.
pub open spec fn new_comment_count(now: u64, old: u64, counted: u64) -> int {
    now - (old - counted)
}

/// The list after the story `story` was updated: the first listed story
/// with its id takes its comment count and score, and a watch on it counts
/// the comments that came in.
pub open spec fn story_updated(st: ArticlesView, story: StoryView) -> ArticlesView {
    if exists|i: int| is_first_story(st.articles, story.id, i) {
        let i = choose|i: int| is_first_story(st.articles, story.id, i);
        let s = st.articles[i];
        let watch = if s.descendants < story.descendants && st.watch.contains_key(story.id) {
            let w = st.watch[story.id];
            st.watch.insert(
                story.id,
                WatchChange { new_comments: new_comment_count(story.descendants, s.descendants, w.new_comments) as u64, ..w },
            )
        } else {
            st.watch
        };
        ArticlesView {
            articles: st.articles.update(i, StoryView { descendants: story.descendants, score: story.score, ..s }),
            watch: watch,
            ..st
        }
    } else {
        st
    }
}

/// Whether counting the new comments of `story` stays within `u64`: the
/// comments counted new on its first listed story are no more than it
/// had.
pub open spec fn story_update_ok(st: ArticlesView, story: StoryView) -> bool {
    forall|i: int|
        is_first_story(st.articles, story.id, i) && st.articles[i].descendants < story.descendants
            && st.watch.contains_key(story.id) ==> #[trigger] st.watch[story.id].new_comments <= st.articles[i].descendants
}

/// Whether the list can handle `msg`.
pub open spec fn article_step_ok(st: ArticlesView, msg: ArticleMsgView) -> bool {
    match msg {
        ArticleMsgView::StoryUpdated(story) => story_update_ok(st, story),
        _ => true,
    }
}

/// How the story list handles a message: the next state and the task for
/// the host.
pub open spec fn article_step(st: ArticlesView, msg: ArticleMsgView) -> (ArticlesView, ArticleTaskView) {
    match msg {
        ArticleMsgView::Receive(articles) => (ArticlesView { articles: articles, ..st }, ArticleTaskView::ScrollTop),
        ArticleMsgView::Search(input) => if input.len() == 0 {
            (ArticlesView { search: None, ..st }, ArticleTaskView::Send(ArticleMsgView::TopStories(st.limit)))
        } else {
            (ArticlesView { search: Some(input), ..st }, ArticleTaskView::SearchStories { search: input, limit: st.limit })
        },
        ArticleMsgView::TopStories(limit) => (ArticlesView { limit: limit, ..st }, ArticleTaskView::FetchTop(limit)),
        ArticleMsgView::ViewingItem(id) => (
            ArticlesView { visited: st.visited.insert(id), viewing: Some(id), ..st },
            ArticleTaskView::SaveConfig,
        ),
        ArticleMsgView::ViewingClosed => (ArticlesView { viewing: None, ..st }, ArticleTaskView::Nothing),
        ArticleMsgView::UpdateStory(story) => (
            ArticlesView { indexing: st.indexing.push(story.id), ..st },
            ArticleTaskView::Reindex(story),
        ),
        ArticleMsgView::WatchStory(story) => (st, ArticleTaskView::StartWatch(story)),
        ArticleMsgView::StoryUpdated(story) => (
            story_updated(st, story),
            ArticleTaskView::Send(ArticleMsgView::ClearIndexStory(story.id)),
        ),
        ArticleMsgView::UnWatchStory(id) => (ArticlesView { watch: st.watch.remove(id), ..st }, ArticleTaskView::StopWatch(id)),
        ArticleMsgView::RemoveWatches => (st, ArticleTaskView::StopAllWatches),
        ArticleMsgView::OpenNew { story_id, beyond } => (st, ArticleTaskView::LookUpLatest { story_id: story_id, beyond: beyond }),
        ArticleMsgView::ClearIndexStory(id) => (
            ArticlesView { indexing: st.indexing.filter(|x: u64| x != id), ..st },
            ArticleTaskView::Nothing,
        ),
        ArticleMsgView::CheckHandles => (st, ArticleTaskView::CheckWatches),
        ArticleMsgView::ToggleWatchFilter => (ArticlesView { filter_watching: !st.filter_watching, ..st }, ArticleTaskView::Nothing),
        ArticleMsgView::StoryClicked(story) => (st, ArticleTaskView::OpenStory(story)),
    }
}

/// The first position of a story with id `id`.
fn find_story(articles: &Vec<Story>, id: u64) -> (r: Option<usize>)
    ensures
        match r {
            Some(i) => is_first_story(stories_view(articles@), id, i as int),
            None => !exists|i: int| is_first_story(stories_view(articles@), id, i),
        },
{
    let mut i: usize = 0;
    while i < articles.len()
        invariant
            i <= articles@.len(),
            forall|j: int| 0 <= j < i ==> articles@[j].id != id,
        decreases articles@.len() - i,
    {
        if articles[i].id == id {
            return Some(i);
        }
        i = i + 1;
    }
    proof {
        assert forall|k: int| !is_first_story(stories_view(articles@), id, k) by {
            if is_first_story(stories_view(articles@), id, k) {
                assert(articles@[k].id == id);
            }
        }
    }
    None
}

/// There is only one first position of a story.
proof fn lemma_first_story_unique(articles: Seq<StoryView>, id: u64, i: int, k: int)
    requires
        is_first_story(articles, id, i),
        is_first_story(articles, id, k),
    ensures
        i == k,
{
    if i < k {
        assert(articles[i].id != id);
    } else if k < i {
        assert(articles[k].id != id);
    }
}

impl ArticleState {
    /// An empty list that fetches 75 stories, with nothing visited.
    pub fn new() -> (r: Self)
        ensures
            r@ == (ArticlesView {
                articles: Seq::empty(),
                visited: Set::empty(),
                search: None,
                viewing: None,
                limit: 75,
                watch: Map::empty(),
                indexing: Seq::empty(),
                filter_watching: false,
            }),
    {
        let r = ArticleState {
            articles: Vec::new(),
            visited: HashSet::new(),
            search: None,
            viewing_item: None,
            article_limit: 75,
            watch_changes: HashMap::new(),
            indexing_stories: Vec::new(),
            filter_watching: false,
        };
        assert(stories_view(r.articles@) =~= Seq::<StoryView>::empty());
        r
    }
}

/// A watch that starts with no new comment, from the time of the latest
/// comment (0 when there is none).
pub open spec fn fresh_watch(last_comment_age: Option<u64>) -> WatchChange {
    WatchChange {
        new_comments: 0,
        beyond: match last_comment_age {
            Some(t) => t,
            None => 0,
        },
    }
}

/// The list after the new comments of `story_id` were opened: its watch,
/// if any, counts none, from `latest` on when there is a latest comment.
pub open spec fn opened_new(st: ArticlesView, story_id: u64, latest: Option<u64>) -> ArticlesView {
    if st.watch.contains_key(story_id) {
        let w = st.watch[story_id];
        let beyond = match latest {
            Some(t) => t,
            None => w.beyond,
        };
        ArticlesView { watch: st.watch.insert(story_id, WatchChange { new_comments: 0, beyond: beyond }), ..st }
    } else {
        st
    }
}

/// The ids of `v` other than `id`, in order.
fn without_id(v: &Vec<u64>, id: u64) -> (r: Vec<u64>)
    ensures
        r@ == v@.filter(|x: u64| x != id),
{
    let mut out: Vec<u64> = Vec::new();
    let mut i: usize = 0;
    while i < v.len()
        invariant
            i <= v@.len(),
            out@ == v@.take(i as int).filter(|x: u64| x != id),
        decreases v@.len() - i,
    {
        proof {
            reveal(Seq::filter);
            assert(v@.take(i as int + 1).drop_last() =~= v@.take(i as int));
        }
        if v[i] != id {
            out.push(v[i]);
        }
        i = i + 1;
    }
    assert(v@.take(v@.len() as int) =~= v@);
    out
}

/// Whether the list shows the story at position `i`: all stories, or
/// only the watched ones when the watch filter is on.
pub open spec fn shown(st: ArticlesView, i: int) -> bool {
    !st.filter_watching || st.watch.contains_key(st.articles[i].id)
}

/// Whether `c` may follow the word "Rust" in a title.
pub open spec fn word_end_punct(c: char) -> bool {
    c == ',' || c == '.' || c == ':' || c == '?' || c == '!'
}

/// Whether the space-separated word of `t` that starts at `i` is "Rust",
/// alone or followed by one of `,.:?!`.
pub open spec fn rust_word_at(t: Seq<char>, i: int) -> bool {
    &&& 0 <= i
    &&& i + 4 <= t.len()
    &&& i == 0 || t[i - 1] == ' '
    &&& t[i] == 'R' && t[i + 1] == 'u' && t[i + 2] == 's' && t[i + 3] == 't'
    &&& i + 4 == t.len() || t[i + 4] == ' ' || (word_end_punct(t[i + 4]) && (i + 5 == t.len() || t[i + 5] == ' '))
}

/// Whether a title mentions Rust as a word of its own.
pub open spec fn mentions_rust(t: Seq<char>) -> bool {
    exists|i: int| rust_word_at(t, i)
}

fn is_word_end_punct(c: char) -> (r: bool)
    ensures
        r == word_end_punct(c),
{
    c == ',' || c == '.' || c == ':' || c == '?' || c == '!'
}

/// Whether the title of a story mentions Rust as a word of its own.
pub fn title_mentions_rust(title: &str) -> (r: bool)
    ensures
        r == mentions_rust(title@),
{
    let t = chars_of(title);
    let n = t.len();
    let mut i: usize = 0;
    while i < n
        invariant
            t@ == title@,
            n == t@.len(),
            i <= n,
            forall|j: int| 0 <= j < i ==> !rust_word_at(t@, j),
        decreases n - i,
    {
        if n >= 4 && i <= n - 4 && (i == 0 || t[i - 1] == ' ') && t[i] == 'R' && t[i + 1] == 'u' && t[i + 2] == 's' && t[i + 3] == 't' {
            let ends = if i + 4 == n {
                true
            } else if t[i + 4] == ' ' {
                true
            } else {
                is_word_end_punct(t[i + 4]) && (i + 5 == n || t[i + 5] == ' ')
            };
            if ends {
                assert(rust_word_at(t@, i as int));
                return true;
            }
        }
        i = i + 1;
    }
    proof {
        assert forall|j: int| !rust_word_at(t@, j) by {
            if 0 <= j < i {
            }
        }
    }
    false
}

impl ArticleState {
    /// The positions of the stories the list shows, in order.
    pub fn visible_positions(&self) -> (r: Vec<usize>)
        ensures
            forall|k: int| 0 <= k < r@.len() ==> r@[k] < self@.articles.len() && shown(self@, r@[k] as int),
            forall|k1: int, k2: int| 0 <= k1 < k2 < r@.len() ==> r@[k1] < r@[k2],
            forall|i: int| 0 <= i < self@.articles.len() && shown(self@, i) ==> r@.contains(i as usize),
    {
        let mut out: Vec<usize> = Vec::new();
        let mut i: usize = 0;
        while i < self.articles.len()
            invariant
                i <= self@.articles.len(),
                self@.articles.len() == self.articles@.len(),
                forall|k: int| 0 <= k < out@.len() ==> out@[k] < i && shown(self@, out@[k] as int),
                forall|k1: int, k2: int| 0 <= k1 < k2 < out@.len() ==> out@[k1] < out@[k2],
                forall|j: int| 0 <= j < i && shown(self@, j) ==> out@.contains(j as usize),
            decreases self.articles@.len() - i,
        {
            let ghost before = out@;
            let show = !self.filter_watching || self.watch_changes.contains_key(&self.articles[i].id);
            if show {
                out.push(i);
            }
            proof {
                assert forall|j: int| 0 <= j < i + 1 && shown(self@, j) implies out@.contains(j as usize) by {
                    if j < i {
                        let k = choose|k: int| 0 <= k < before.len() && before[k] == j as usize;
                        assert(out@[k] == j as usize);
                    } else {
                        assert(out@[out@.len() - 1] == i);
                    }
                }
            }
            i = i + 1;
        }
        out
    }

    /// The story search was cleared: the top `count` stories are listed
    /// again.
    pub fn close_search(&mut self, count: usize) -> (r: ArticleTask)
        ensures
            final(self)@ == (ArticlesView { search: None, ..old(self)@ }),
            r@ == ArticleTaskView::Send(ArticleMsgView::TopStories(count)),
    {
        self.search = None;
        ArticleTask::Send(ArticleMsg::TopStories(count))
    }

    /// Forgets the visited stories; the configuration is to be saved.
    pub fn clear_visited(&mut self) -> (r: ArticleTask)
        ensures
            final(self)@ == (ArticlesView { visited: Set::empty(), ..old(self)@ }),
            r@ == ArticleTaskView::SaveConfig,
    {
        self.visited.clear();
        ArticleTask::SaveConfig
    }

    /// Takes the stories a search found.
    pub fn stories_found(&mut self, stories: Vec<Story>)
        ensures
            final(self)@ == (ArticlesView { articles: stories_view(stories@), ..old(self)@ }),
    {
        self.articles = stories;
    }

    /// Records a new watch on `story_id`, whose latest comment was posted
    /// at `last_comment_age` (none when it has no comment): no new comment
    /// counted yet.
    pub fn watch_started(&mut self, story_id: u64, last_comment_age: Option<u64>)
        ensures
            final(self)@ == (ArticlesView { watch: old(self)@.watch.insert(story_id, fresh_watch(last_comment_age)), ..old(self)@ }),
    {
        let beyond = match last_comment_age {
            Some(t) => t,
            None => 0,
        };
        self.watch_changes.insert(story_id, WatchChange { new_comments: 0, beyond });
    }

    /// What the row of `story` shows.
    pub fn badges(&self, story: &Story) -> (r: ArticleBadges)
        ensures
            r == badges_of(self@, story@),
    {
        let job = str_eq(story.ty.as_str(), "job");
        proof {
            reveal_strlit("job");
        }
        let mut indexing = false;
        let mut i: usize = 0;
        while i < self.indexing_stories.len()
            invariant
                i <= self.indexing_stories@.len(),
                indexing == self.indexing_stories@.take(i as int).contains(story.id),
            decreases self.indexing_stories@.len() - i,
        {
            proof {
                let t = self.indexing_stories@.take(i as int + 1);
                assert(t =~= self.indexing_stories@.take(i as int).push(self.indexing_stories@[i as int]));
                if indexing {
                    let j = choose|j: int| 0 <= j < i && self.indexing_stories@.take(i as int)[j] == story.id;
                    assert(t[j] == story.id);
                }
                if t.contains(story.id) {
                    let j = choose|j: int| 0 <= j < t.len() && t[j] == story.id;
                    if j < i {
                        assert(self.indexing_stories@.take(i as int)[j] == story.id);
                    }
                }
                if self.indexing_stories@[i as int] == story.id {
                    assert(t[i as int] == story.id);
                }
            }
            if self.indexing_stories[i] == story.id {
                indexing = true;
            }
            i = i + 1;
        }
        assert(self.indexing_stories@.take(self.indexing_stories@.len() as int) =~= self.indexing_stories@);
        let watch = match self.watch_changes.get(&story.id) {
            Some(w) => Some(*w),
            None => None,
        };
        ArticleBadges {
            rust: title_mentions_rust(story.title.as_str()),
            visited: self.visited.contains(&story.id),
            update_button: !indexing,
            score: if job { None } else { Some(story.score) },
            comments: if story.descendants == 0 { None } else { Some(story.descendants) },
            watch_toggle: if job { None } else { Some(watch.is_some()) },
            new_comments: match watch {
                Some(w) => if w.new_comments > 0 { Some(w) } else { None },
                None => None,
            },
            selected: match self.viewing_item {
                Some(v) => v == story.id,
                None => false,
            },
        }
    }

    /// Opens the new comments of a watched story: its watch counts none
    /// from now on, and the next time starts at `latest`, the time of its
    /// latest comment (unchanged when there is none). The comments shown
    /// are those from `beyond` on.
    pub fn open_new(&mut self, story_id: u64, beyond: u64, latest: Option<u64>) -> (r: ArticleTask)
        ensures
            final(self)@ == opened_new(old(self)@, story_id, latest),
            r@ == (ArticleTaskView::ShowNew { story_id: story_id, beyond: beyond }),
    {
        let current = match self.watch_changes.get(&story_id) {
            Some(w) => Some(*w),
            None => None,
        };
        match current {
            Some(w) => {
                let next = match latest {
                    Some(t) => t,
                    None => w.beyond,
                };
                self.watch_changes.insert(story_id, WatchChange { new_comments: 0, beyond: next });
            },
            None => {},
        }
        ArticleTask::ShowNew { story_id, beyond }
    }

    fn on_story_updated(&mut self, story: Story) -> (r: ArticleTask)
        requires
            story_update_ok(old(self)@, story@),
        ensures
            (final(self)@, r@) == article_step(old(self)@, ArticleMsgView::StoryUpdated(story@)),
    {
        let story_id = story.id;
        match find_story(&self.articles, story_id) {
            Some(i) => {
                let ghost st = self@;
                proof {
                    assert forall|k: int| is_first_story(st.articles, story_id, k) implies k == i by {
                        lemma_first_story_unique(st.articles, story_id, i as int, k);
                    }
                }
                let descendants = self.articles[i].descendants;
                if descendants < story.descendants {
                    let current = match self.watch_changes.get(&story_id) {
                        Some(w) => Some(*w),
                        None => None,
                    };
                    match current {
                        Some(w) => {
                            let counted = story.descendants - (descendants - w.new_comments);
                            self.watch_changes.insert(story_id, WatchChange { new_comments: counted, ..w });
                        },
                        None => {},
                    }
                }
                let mut s = self.articles.remove(i);
                s.descendants = story.descendants;
                s.score = story.score;
                self.articles.insert(i, s);
                proof {
                    assert(stories_view(self.articles@) =~= st.articles.update(
                        i as int,
                        StoryView { descendants: story.descendants, score: story.score, ..st.articles[i as int] },
                    ));
                }
            },
            None => {},
        }
        ArticleTask::Send(ArticleMsg::ClearIndexStory(story_id))
    }

    /// Handles a message of the story list; the returned task is what the
    /// host is to do next.
    pub fn update(&mut self, message: ArticleMsg) -> (r: ArticleTask)
        requires
            article_step_ok(old(self)@, message@),
        ensures
            (final(self)@, r@) == article_step(old(self)@, message@),
    {
        match message {
            ArticleMsg::Receive(articles) => {
                self.articles = articles;
                ArticleTask::ScrollTop
            },
            ArticleMsg::Search(input) => {
                if input.as_str().is_empty() {
                    self.search = None;
                    ArticleTask::Send(ArticleMsg::TopStories(self.article_limit))
                } else {
                    let task = ArticleTask::SearchStories { search: owned(input.as_str()), limit: self.article_limit };
                    self.search = Some(input);
                    task
                }
            },
            ArticleMsg::TopStories(limit) => {
                self.article_limit = limit;
                ArticleTask::FetchTop(limit)
            },
            ArticleMsg::ViewingItem(story_id) => {
                self.visited.insert(story_id);
                self.viewing_item = Some(story_id);
                ArticleTask::SaveConfig
            },
            ArticleMsg::ViewingClosed => {
                self.viewing_item = None;
                ArticleTask::Nothing
            },
            ArticleMsg::UpdateStory(story) => {
                self.indexing_stories.push(story.id);
                ArticleTask::Reindex(story)
            },
            ArticleMsg::WatchStory(story) => ArticleTask::StartWatch(story),
            ArticleMsg::StoryUpdated(story) => self.on_story_updated(story),
            ArticleMsg::UnWatchStory(story_id) => {
                self.watch_changes.remove(&story_id);
                ArticleTask::StopWatch(story_id)
            },
            ArticleMsg::RemoveWatches => ArticleTask::StopAllWatches,
            ArticleMsg::OpenNew { story_id, beyond } => ArticleTask::LookUpLatest { story_id, beyond },
            ArticleMsg::ClearIndexStory(story_id) => {
                self.indexing_stories = without_id(&self.indexing_stories, story_id);
                ArticleTask::Nothing
            },
            ArticleMsg::CheckHandles => ArticleTask::CheckWatches,
            ArticleMsg::ToggleWatchFilter => {
                self.filter_watching = !self.filter_watching;
                ArticleTask::Nothing
            },
            ArticleMsg::StoryClicked(story) => ArticleTask::OpenStory(story),
        }
    }
}

/// A story update on a watched story whose comment count grows keeps the
/// count the watch started from: comments now less those counted new.
pub proof fn lemma_watch_baseline_kept(st: ArticlesView, story: StoryView, i: int)
    requires
        is_first_story(st.articles, story.id, i),
        st.articles[i].descendants < story.descendants,
        st.watch.contains_key(story.id),
        story_update_ok(st, story),
    ensures
        ({
            let st1 = article_step(st, ArticleMsgView::StoryUpdated(story)).0;
            &&& st1.articles[i].descendants == story.descendants
            &&& st1.watch.contains_key(story.id)
            &&& st1.articles[i].descendants - st1.watch[story.id].new_comments
                == st.articles[i].descendants - st.watch[story.id].new_comments
        }),
{
    assert forall|k: int| is_first_story(st.articles, story.id, k) implies k == i by {
        lemma_first_story_unique(st.articles, story.id, i, k);
    }
    assert(st.watch[story.id].new_comments <= st.articles[i].descendants);
}

/// A story update gives the first listed story with the update's id the
/// update's score and comment count, keeping its other fields, and leaves
/// every other listed story, and the length of the list, as they were;
/// when no listed story has that id the list stays as it was.
pub proof fn lemma_story_update_takes_score_and_count(st: ArticlesView, story: StoryView)
    ensures
        ({
            let st2 = article_step(st, ArticleMsgView::StoryUpdated(story)).0;
            &&& st2.articles.len() == st.articles.len()
            &&& forall|i: int| #[trigger] is_first_story(st.articles, story.id, i) ==> {
                &&& st2.articles[i].score == story.score
                &&& st2.articles[i].descendants == story.descendants
                &&& st2.articles[i].id == st.articles[i].id
                &&& st2.articles[i].title == st.articles[i].title
                &&& st2.articles[i].body == st.articles[i].body
                &&& st2.articles[i].url == st.articles[i].url
                &&& st2.articles[i].by == st.articles[i].by
                &&& st2.articles[i].ty == st.articles[i].ty
                &&& st2.articles[i].time == st.articles[i].time
                &&& st2.articles[i].rank == st.articles[i].rank
                &&& forall|j: int| 0 <= j < st.articles.len() && j != i ==> st2.articles[j] == st.articles[j]
            }
            &&& (forall|j: int| 0 <= j < st.articles.len() ==> st.articles[j].id != story.id) ==> st2.articles
                == st.articles
        }),
{
    assert forall|i: int| #[trigger] is_first_story(st.articles, story.id, i) implies
        (choose|k: int| is_first_story(st.articles, story.id, k)) == i by {
        let k = choose|k: int| is_first_story(st.articles, story.id, k);
        assert(is_first_story(st.articles, story.id, k));
        if k < i {
            assert(st.articles[k].id != story.id);
        } else if i < k {
            assert(st.articles[i].id != story.id);
        }
    }
    if forall|j: int| 0 <= j < st.articles.len() ==> st.articles[j].id != story.id {
        assert forall|i: int| !is_first_story(st.articles, story.id, i) by {
            if 0 <= i < st.articles.len() {
                assert(st.articles[i].id != story.id);
            }
        }
    }
}

/// Every message keeps the stories visited so far.
pub proof fn lemma_visited_only_grows(st: ArticlesView, msg: ArticleMsgView)
    ensures
        st.visited.subset_of(article_step(st, msg).0.visited),
{
}

/// Closing the comments leaves no story viewed and changes nothing else.
pub proof fn lemma_closing_clears_viewing(st: ArticlesView)
    ensures
        article_step(st, ArticleMsgView::ViewingClosed).0 == (ArticlesView { viewing: None, ..st }),
        article_step(st, ArticleMsgView::ViewingClosed).1 is Nothing,
{
}

/// Viewing a story marks it as visited and viewed.
pub proof fn lemma_viewing_marks_visited(st: ArticlesView, id: u64)
    ensures
        article_step(st, ArticleMsgView::ViewingItem(id)).0.visited.contains(id),
        article_step(st, ArticleMsgView::ViewingItem(id)).0.viewing == Some(id),
{
}

/// Once a story's index update is cleared it is no longer being indexed,
/// and every other story being indexed still is.
pub proof fn lemma_clear_index_story(st: ArticlesView, id: u64)
    ensures
        !article_step(st, ArticleMsgView::ClearIndexStory(id)).0.indexing.contains(id),
        forall|x: u64| x != id && st.indexing.contains(x) ==> article_step(st, ArticleMsgView::ClearIndexStory(id)).0.indexing.contains(x),
{
    let pred = |x: u64| x != id;
    st.indexing.filter_lemma(pred);
    let out = st.indexing.filter(pred);
    if out.contains(id) {
        let k = choose|k: int| 0 <= k < out.len() && out[k] == id;
        assert(pred(out[k]));
    }
    assert forall|x: u64| x != id && st.indexing.contains(x) implies out.contains(x) by {
        let k = choose|k: int| 0 <= k < st.indexing.len() && st.indexing[k] == x;
        assert(pred(st.indexing[k]));
    }
}

/// Toggling the watch filter twice leaves the list as it was.
pub proof fn lemma_toggle_filter_twice(st: ArticlesView)
    ensures
        article_step(article_step(st, ArticleMsgView::ToggleWatchFilter).0, ArticleMsgView::ToggleWatchFilter).0 == st,
{
}

} // verus!
