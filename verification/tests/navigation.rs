use hacker_news::comments::{CommentLayout, CommentMsg, CommentState, CommentTask};
use hacker_news::full_search::{FullSearchMsg, FullSearchState, FullSearchTask, SearchCriteria};
use hacker_news::navigation::{
    open_thread, restore_thread, CommentHistory, Content, HistoryElement, NavMsg, NavTask, Navigator, SearchHistory,
};
use hacker_news::search::{Comment, Story};
use hacker_news::types::ArticleType;

fn story(id: u64) -> Story {
    Story {
        id,
        title: format!("story {id}"),
        body: None,
        url: None,
        by: String::from("b"),
        ty: String::from("story"),
        descendants: 0,
        time: 0,
        score: 1,
        rank: 1,
    }
}

fn comment(id: u64) -> Comment {
    Comment {
        id,
        body: String::new(),
        by: String::new(),
        time: 0,
        kids: vec![],
        story_id: 1,
        parent_id: 0,
        rank: 0,
    }
}

fn ids(v: &[Comment]) -> Vec<u64> {
    v.iter().map(|c| c.id).collect()
}

fn nav_ids<S>(st: &CommentState<S>) -> Vec<Option<u64>> {
    st.nav_stack.iter().map(|n| n.comment.as_ref().map(|c| c.id)).collect()
}

fn open(nav: &mut Navigator<u32>, id: u64, stack: Vec<Comment>) -> NavTask<u32> {
    nav.update(NavMsg::OpenComment { article: story(id), parent_id: id, comment_stack: stack }, ArticleType::Top)
}

#[test]
fn opening_a_thread_lists_the_comment_under_its_ancestors() {
    let (comments, nav) = open_thread::<u32>(vec![comment(30), comment(20), comment(10)]);
    assert_eq!(ids(&comments), vec![30]);
    let stack: Vec<Option<u64>> = nav.iter().map(|n| n.comment.as_ref().map(|c| c.id)).collect();
    assert_eq!(stack, vec![None, Some(10), Some(20)]);
    let (comments, nav) = open_thread::<u32>(vec![]);
    assert!(comments.is_empty());
    assert_eq!(nav.len(), 1);
}

#[test]
fn restoring_a_thread_lists_the_top_comment() {
    let (comments, nav) = restore_thread::<u32>(vec![comment(30), comment(20), comment(10)]);
    assert_eq!(ids(&comments), vec![10]);
    let stack: Vec<Option<u64>> = nav.iter().map(|n| n.comment.as_ref().map(|c| c.id)).collect();
    assert_eq!(stack, vec![None, Some(20), Some(30)]);
}

#[test]
fn open_comments_then_back() {
    let mut nav: Navigator<u32> = Navigator::new(ArticleType::Top);
    let task = open(&mut nav, 1, vec![]);
    assert!(matches!(task, NavTask::Opened { fetch_parent: Some(1), story_id: 1 }));
    assert_eq!(nav.history.len(), 1);
    assert!(matches!(nav.history[0], HistoryElement::Empty(ArticleType::Top)));
    match &nav.content {
        Content::Comment(st) => {
            assert_eq!(st.article.id, 1);
            assert_eq!(nav_ids(st), vec![None]);
            assert_eq!((st.offset, st.page), (0, 1));
        },
        other => panic!("unexpected {other:?}"),
    }
    // The same story again records nothing.
    open(&mut nav, 1, vec![]);
    assert_eq!(nav.history.len(), 1);
    // Another story records the comments of the first.
    let task = open(&mut nav, 2, vec![comment(7), comment(6)]);
    assert!(matches!(task, NavTask::Opened { fetch_parent: None, story_id: 2 }));
    assert_eq!(nav.history.len(), 2);
    match &nav.history[1] {
        HistoryElement::Comment(h) => assert_eq!((h.story_id, h.category), (1, ArticleType::Top)),
        other => panic!("unexpected {other:?}"),
    }
    match nav.update(NavMsg::Back, ArticleType::Top) {
        NavTask::Restore(HistoryElement::Comment(h)) => assert_eq!(h.story_id, 1),
        other => panic!("unexpected {other:?}"),
    }
    assert_eq!(nav.history.len(), 1);
}

#[test]
fn closing_comments_empties_the_pane() {
    let mut nav: Navigator<u32> = Navigator::new(ArticleType::Top);
    assert!(matches!(nav.update(NavMsg::CommentsClosed, ArticleType::Top), NavTask::Nothing));
    assert!(nav.history.is_empty());
    open(&mut nav, 1, vec![]);
    assert!(matches!(nav.update(NavMsg::CommentsClosed, ArticleType::Best), NavTask::Closed));
    assert!(matches!(nav.content, Content::Empty(ArticleType::Best)));
    assert_eq!(nav.history.len(), 2);
    assert!(matches!(&nav.history[1], HistoryElement::Comment(h) if h.category == ArticleType::Best));
}

#[test]
fn messages_for_the_comment_view_reach_it() {
    let mut nav: Navigator<u32> = Navigator::new(ArticleType::Top);
    assert!(matches!(nav.update(NavMsg::Comments(CommentMsg::Oneline), ArticleType::Top), NavTask::Nothing));
    open(&mut nav, 1, vec![]);
    assert!(matches!(
        nav.update(NavMsg::Comments(CommentMsg::Oneline), ArticleType::Top),
        NavTask::Comments(CommentTask::Nothing)
    ));
    assert!(matches!(&nav.content, Content::Comment(st) if st.oneline));
}

#[test]
fn searching_opens_a_search_pane() {
    let mut nav: Navigator<u32> = Navigator::new(ArticleType::Top);
    let task = nav.update(NavMsg::FullSearch(FullSearchMsg::Search(String::from("rust"))), ArticleType::Top);
    match task {
        NavTask::NewSearch { viewing: None, msg: FullSearchMsg::Search(s) } => assert_eq!(s, "rust"),
        other => panic!("unexpected {other:?}"),
    }
    assert!(matches!(&nav.content, Content::Search(st) if matches!(&st.search, SearchCriteria::Query(q) if q == "rust")));
    assert_eq!(nav.history.len(), 1);
    // The redispatched message goes to the search view.
    match nav.update(NavMsg::FullSearch(FullSearchMsg::Search(String::from("rust"))), ArticleType::Top) {
        NavTask::Search(FullSearchTask::SearchAll { search, offset: 0 }) => assert_eq!(search, "rust"),
        other => panic!("unexpected {other:?}"),
    }
    assert_eq!(nav.history.len(), 1);
    // Switching to a story search records the text search.
    let task = nav.update(NavMsg::FullSearch(FullSearchMsg::StoryByTime { story_id: 3, beyond: None }), ArticleType::Top);
    assert!(matches!(task, NavTask::Search(FullSearchTask::StoryPage { story_id: 3, beyond: None, offset: 0 })));
    assert_eq!(nav.history.len(), 2);
    assert!(matches!(&nav.history[1], HistoryElement::Search(h) if matches!(&h.search, SearchCriteria::Query(q) if q == "rust")));
    assert_eq!(nav.content.active_story(), Some(3));
    assert_eq!(nav.content.search_text(), None);
    // Paging messages with no search pane open do nothing.
    let mut empty: Navigator<u32> = Navigator::new(ArticleType::Top);
    assert!(matches!(empty.update(NavMsg::FullSearch(FullSearchMsg::Forward), ArticleType::Top), NavTask::Nothing));
}

#[test]
fn story_search_from_comments_marks_the_story() {
    let mut nav: Navigator<u32> = Navigator::new(ArticleType::Top);
    open(&mut nav, 1, vec![]);
    let task = nav.update(NavMsg::FullSearch(FullSearchMsg::StoryByTime { story_id: 1, beyond: Some(5) }), ArticleType::Top);
    assert!(matches!(task, NavTask::NewSearch { viewing: Some(1), .. }));
    assert_eq!(nav.history.len(), 2);
}

#[test]
fn switching_index_records_the_content() {
    let mut nav: Navigator<u32> = Navigator::new(ArticleType::Top);
    let task = nav.update(NavMsg::SwitchIndex { category: ArticleType::New, count: 30 }, ArticleType::Top);
    assert!(matches!(task, NavTask::SwitchIndex { category: ArticleType::New, count: 30 }));
    assert!(nav.history.is_empty());
    assert!(matches!(nav.content, Content::Empty(ArticleType::New)));
    open(&mut nav, 1, vec![]);
    nav.update(NavMsg::SwitchIndex { category: ArticleType::Ask, count: 30 }, ArticleType::New);
    assert_eq!(nav.history.len(), 2);
}

#[test]
fn restored_content_is_shown() {
    let mut nav: Navigator<u32> = Navigator::new(ArticleType::Top);
    assert!(matches!(nav.update(NavMsg::Back, ArticleType::Top), NavTask::Nothing));
    let content = Content::Search(FullSearchState::new(SearchCriteria::Query(String::from("q"))));
    match nav.update(NavMsg::Restored { index: ArticleType::Show, content }, ArticleType::Top) {
        NavTask::Restored { index, viewing, search_text } => {
            assert_eq!(index, ArticleType::Show);
            assert_eq!(viewing, None);
            assert_eq!(search_text.as_deref(), Some("q"));
        },
        other => panic!("unexpected {other:?}"),
    }
    assert!(matches!(nav.content, Content::Search(_)));
}

#[test]
fn comment_history_round_trip() {
    let mut nav: Navigator<u32> = Navigator::new(ArticleType::Top);
    open(&mut nav, 1, vec![]);
    nav.update(NavMsg::Comments(CommentMsg::Forward), ArticleType::Top);
    nav.update(NavMsg::Comments(CommentMsg::Oneline), ArticleType::Top);
    let content = std::mem::replace(&mut nav.content, Content::Empty(ArticleType::Top));
    let history = content.into_history_element(ArticleType::Job);
    let item: CommentHistory = match history {
        HistoryElement::Comment(h) => h,
        other => panic!("unexpected {other:?}"),
    };
    assert_eq!((item.offset, item.page, item.oneline), (10, 2, true));
    let (index, st) = CommentState::<u32>::from_history(item, story(1), vec![comment(3)], 14, vec![]);
    assert_eq!(index, ArticleType::Job);
    assert_eq!((st.article.id, st.offset, st.page, st.oneline, st.full_count), (1, 10, 2, true, 14));
    assert_eq!(ids(&st.comments), vec![3]);
    assert!(st.nav_stack.is_empty());
    assert!(st.search.is_none());
}

#[test]
fn comment_history_with_an_active_comment_restores_its_thread() {
    let item = CommentHistory {
        story_id: 1,
        search: Some(String::from("s")),
        oneline: false,
        offset: 0,
        page: 1,
        parent_id: 20,
        active_comment_id: Some(30),
        category: ArticleType::Top,
    };
    let (_, st) = CommentState::<u32>::from_history(item, story(1), vec![comment(99)], 1, vec![comment(30), comment(20), comment(10)]);
    assert_eq!(ids(&st.comments), vec![10]);
    assert_eq!(nav_ids(&st), vec![None, Some(20), Some(30)]);
    assert_eq!(st.search.as_deref(), Some("s"));
    assert_eq!(st.active_comment_id, Some(30));
}

#[test]
fn search_history_round_trip() {
    let mut st = FullSearchState::new(SearchCriteria::Query(String::from("x")));
    st.update(FullSearchMsg::Search(String::from("rust")));
    st.update(FullSearchMsg::JumpPage(3));
    let item: SearchHistory = st.to_history(ArticleType::Best);
    assert!(matches!(item.reload_task(), FullSearchTask::SearchAll { offset: 20, .. }));
    let (index, restored) = FullSearchState::from_history(item, vec![comment(1)], 25);
    assert_eq!(index, ArticleType::Best);
    assert_eq!((restored.offset, restored.page, restored.full_count), (20, 3, 25));
    assert!(matches!(&restored.search, SearchCriteria::Query(q) if q == "rust"));
    let by_story = SearchHistory {
        search: SearchCriteria::StoryId { story_id: 4, beyond: Some(9) },
        offset: 10,
        page: 2,
        category: ArticleType::Top,
    };
    assert!(matches!(by_story.reload_task(), FullSearchTask::StoryPage { story_id: 4, beyond: Some(9), offset: 10 }));
}

#[test]
fn content_queries() {
    let empty: Content<u32> = Content::Empty(ArticleType::Top);
    assert!(empty.is_empty());
    assert!(!empty.is_comment());
    assert_eq!(empty.active_story(), None);
    assert!(matches!(empty.into_history_element(ArticleType::New), HistoryElement::Empty(ArticleType::Top)));
}

#[test]
fn comment_view_layout() {
    let item = CommentHistory {
        story_id: 1,
        search: None,
        oneline: false,
        offset: 0,
        page: 1,
        parent_id: 20,
        active_comment_id: Some(30),
        category: ArticleType::Top,
    };
    let (_, st) = CommentState::<u32>::from_history(item, story(1), vec![comment(99)], 11, vec![comment(30), comment(20), comment(10)]);
    assert_eq!(
        st.layout(),
        CommentLayout {
            story_text: st.article.body.is_some(),
            parent_chain: true,
            parents: 2,
            pagination: true,
            rows: vec![(10, false)],
        }
    );
    let item = CommentHistory {
        story_id: 1,
        search: Some(String::from("s")),
        oneline: false,
        offset: 0,
        page: 1,
        parent_id: 1,
        active_comment_id: None,
        category: ArticleType::Top,
    };
    let (_, st) = CommentState::<u32>::from_history(item, story(1), vec![comment(3)], 10, vec![]);
    let layout = st.layout();
    assert!(!layout.story_text && !layout.parent_chain && !layout.pagination);
    assert_eq!(layout.rows, vec![(3, false)]);
    let st: CommentState<u32> = CommentState {
        article: story(1),
        nav_stack: vec![],
        comments: vec![comment(4), comment(5), comment(6)],
        search: None,
        oneline: false,
        offset: 0,
        page: 1,
        full_count: 3,
        parent_id: 1,
        active_comment_id: Some(5),
    };
    assert_eq!(st.layout().rows, vec![(4, false), (5, true), (6, false)]);
}
